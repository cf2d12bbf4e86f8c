//! What holds of the trees of all workspaces together.

use vstd::prelude::*;

use crate::bsp::{border_at, found, hit_on, holds, removed, with_ratio, BspLayout, SplitHitView};
use crate::bsp_laws::{
    law_hit_addresses_a_split, law_remove_keeps_the_others, law_set_ratio_is_read_back,
};
use crate::geometry::{FinePoint, Rect};
use crate::layouts::{
    kept_in, next_revision, tiled, tiled_at, traded, trees_without, Layouts, WorkspaceKey,
};
use crate::ratio::Ratio;

verus! {

/// Swapping the shown workspaces of two outputs twice changes nothing.
pub proof fn law_swap_active_twice_is_nothing(
    trees: Map<WorkspaceKey, BspLayout>,
    a: WorkspaceKey,
    b: WorkspaceKey,
)
    ensures
        traded(traded(trees, a, b), a, b) == trees,
{
    assert(traded(traded(trees, a, b), a, b) =~= trees);
}

/// Swapping shown workspaces creates no tree where there was none to move.
pub proof fn law_swap_active_allocates_nothing(
    trees: Map<WorkspaceKey, BspLayout>,
    a: WorkspaceKey,
    b: WorkspaceKey,
)
    requires
        !trees.contains_key(a),
        !trees.contains_key(b),
    ensures
        traded(trees, a, b) == trees,
{
    assert(traded(trees, a, b) =~= trees);
}

/// A removed surface is tiled nowhere; every other surface stays on the workspace
/// where it was.
pub proof fn law_remove_is_everywhere(
    trees: Map<WorkspaceKey, BspLayout>,
    surface: u64,
    other: u64,
    k: WorkspaceKey,
)
    requires
        forall|k: WorkspaceKey| #[trigger] trees.contains_key(k) ==> trees[k].root is Some,
    ensures
        !tiled(trees_without(trees, surface), surface),
        other != surface ==> (tiled_at(trees_without(trees, surface), k, other) <==> tiled_at(
            trees,
            k,
            other,
        )),
{
    assert forall|j: WorkspaceKey| !#[trigger] tiled_at(trees_without(trees, surface), j, surface) by {
        if trees.contains_key(j) {
            law_remove_keeps_the_others(trees[j].root->0, surface, surface);
        }
    }
    if trees.contains_key(k) {
        law_remove_keeps_the_others(trees[k].root->0, surface, other);
    }
}

/// Nothing is kept for a workspace without a tree once a window was removed.
pub proof fn law_no_setting_outlives_its_tree<T>(
    overrides: Map<WorkspaceKey, T>,
    trees: Map<WorkspaceKey, BspLayout>,
    k: WorkspaceKey,
)
    ensures
        kept_in(overrides, trees).contains_key(k) <==> overrides.contains_key(k)
            && trees.contains_key(k),
        kept_in(overrides, trees).contains_key(k) ==> kept_in(overrides, trees)[k] == overrides[k],
{
}

/// A change of topology outdates every boundary found before it.
pub proof fn law_topology_change_outdates_hits(before: Layouts, after: Layouts, hit: SplitHitView)
    requires
        before.current(hit),
        after.topology_revision == next_revision(before.topology_revision),
    ensures
        !after.current(hit),
{
}

/// A boundary found on the workspace an output shows is current when it is found.
pub proof fn law_a_hit_is_current(
    layouts: Layouts,
    k: WorkspaceKey,
    area: Rect,
    gap: int,
    p: FinePoint,
)
    requires
        layouts.root_at(k) is Some,
        layouts.shown(k.0) == k.1,
        border_at(layouts.root_at(k)->0, area, gap, p, layouts.split_bias, seq![]) is Some,
    ensures
        layouts.current(
            layouts.owned(
                hit_on(
                    border_at(layouts.root_at(k)->0, area, gap, p, layouts.split_bias, seq![])->0,
                    area,
                    None,
                ),
                k,
            ),
        ),
{
    let root = layouts.root_at(k)->0;
    law_hit_addresses_a_split(root, area, gap, p, layouts.split_bias, seq![]);
    let c = border_at(root, area, gap, p, layouts.split_bias, seq![])->0;
    assert(c.path.skip(0) =~= c.path);
}

/// A boundary stays current while its fraction is changed, and the fraction read
/// back is the one that was set: a drag can go on driving its split.
pub proof fn law_a_drag_stays_current(before: Layouts, after: Layouts, hit: SplitHitView, ratio: Ratio)
    requires
        before.current(hit),
        after.trees@ == before.trees@.insert(
            (hit.output, hit.workspace),
            (BspLayout {
                root: Some(
                    with_ratio(
                        before.root_at((hit.output, hit.workspace))->0,
                        hit.path,
                        ratio,
                    ),
                ),
            }),
        ),
        after.active == before.active,
        after.topology_revision == before.topology_revision,
    ensures
        after.current(hit),
        crate::bsp::ratio_on(after.root_at((hit.output, hit.workspace))->0, hit.path) == Some(ratio),
{
    law_set_ratio_is_read_back(
        before.root_at((hit.output, hit.workspace))->0,
        hit.path,
        hit.path,
        ratio,
    );
}

} // verus!
