//! What holds of where windows are, where they were, and what is known of them.

use vstd::prelude::*;

use crate::bsp::{
    border_distance, distance_to, hit_on, on_border, ratio_on, touches, CrossedSplit, SplitHitView,
    Window,
};
use crate::config::{LayoutAlgorithm, SplitBias};
use crate::desk::{
    output_index, output_named, Desk, DeskFacts, DeskOutput, FloatingTag, HomeView, ModesView,
    SizeReply,
};
use crate::geometry::{
    at_least_one, axis_of, first_part, half, inset_rect, FinePoint, Rect,
};
use crate::layouts::{first_holding, next_revision, Layouts, WorkspaceKey};
use crate::looks::{added_looks, ruled_looks, LookRule, WindowLooks};
use crate::press::{
    border_start, fraction_at, output_at, point_start, resize_starts, seen_on, shown_border,
    shown_hits, window_starts,
};
use crate::seqs::lemma_filter_member;
use crate::toplevels::{
    alive_surfaces, leaves_place, other_than, parked_without, replaces, restore_place, restored_by,
    still_swallowed, untiles, without_surface, CommitFacts, MapFacts, Toplevels,
};
use crate::xdg_shell::ToplevelTracking;

verus! {

/// A window is mapped where it is anywhere: on the canvas, in a tile, floating, behind a
/// tab, put away or seen. It is known where it is mapped or waits.
pub proof fn law_windows_are_mapped_wherever_they_are(facts: DeskFacts, modes: ModesView, s: u64)
    ensures
        facts.ocean@.contains_key(s) ==> facts.mapped(modes, s),
        facts.layouts.home(s) is Some ==> facts.mapped(modes, s),
        modes.floating.contains_key(s) ==> facts.mapped(modes, s),
        facts.parked@.contains_key(s) ==> facts.mapped(modes, s),
        facts.put_away@.contains_key(s) ==> facts.mapped(modes, s),
        facts.visible@.contains_key(s) ==> facts.mapped(modes, s),
        facts.mapped(modes, s) ==> facts.ocean@.contains_key(s) || facts.layouts.home(s) is Some
            || modes.floating.contains_key(s) || facts.parked@.contains_key(s)
            || facts.put_away@.contains_key(s) || facts.visible@.contains_key(s),
        facts.known(modes, s) <==> facts.unmapped@.contains_key(s) || facts.mapped(modes, s),
{
}

/// The window of a surface is the same wherever it is looked for: where only one place
/// holds it, that place gives it.
pub proof fn law_a_mapped_window_is_found(facts: DeskFacts, modes: ModesView, s: u64)
    ensures
        ({
            let r = facts.mapped_window(modes, s);
            let canvas = facts.ocean@.contains_key(s);
            let tile = facts.layouts.home(s) is Some;
            let loose = modes.floating.contains_key(s);
            let tab = facts.parked@.contains_key(s);
            let away = facts.put_away@.contains_key(s);
            &&& canvas ==> r == Some(facts.ocean@[s].window)
            &&& !canvas && !tile && loose ==> r == Some(modes.floating[s].window)
            &&& !canvas && !tile && !loose && tab ==> r == Some(facts.parked@[s])
            &&& !canvas && !tile && !loose && !tab && away ==> r == Some(facts.put_away@[s].window)
            &&& !canvas && !tile && !loose && !tab && !away && facts.visible@.contains_key(s) ==> r
                == Some(facts.visible@[s].window)
            &&& !facts.mapped(modes, s) ==> r is None
        }),
{
}

/// A tiled window belongs to the output that bears the name its tile is under; where no
/// output in use does, to that name.
pub proof fn law_a_tile_belongs_to_the_output_of_its_name(
    facts: DeskFacts,
    modes: ModesView,
    s: u64,
)
    requires
        !facts.ocean@.contains_key(s),
        facts.layouts.home(s) is Some,
    ensures
        ({
            let name = (facts.layouts.home(s)->0).0;
            let found = output_named(facts.outputs@, name);
            &&& found is Some ==> facts.preferred(modes, s) == Some(HomeView::Number(found->0))
                && facts.owner(modes, s) == found
            &&& found is None ==> facts.preferred(modes, s) == Some(HomeView::Name(name))
                && facts.owner(modes, s) is None
        }),
{
}

/// A window floats where it has no tile, neither in a layout nor on the canvas.
pub proof fn law_windows_without_a_tile_float(facts: DeskFacts, s: u64)
    ensures
        facts.floats(s) <==> facts.layouts.home(s) is None && !(facts.ocean@.contains_key(s)
            && facts.ocean@[s].tiled),
{
}

/// A surface that waits is not mapped yet; one that is anywhere is; any other is no window.
pub proof fn law_surfaces_wait_are_mapped_or_unknown(top: Toplevels, s: u64)
    ensures
        top.tracking_of(s) == ToplevelTracking::Unmapped <==> top.desk.facts.unmapped@.contains_key(s),
        top.tracking_of(s) == ToplevelTracking::Mapped <==> !top.desk.facts.unmapped@.contains_key(s)
            && top.desk.facts.mapped(top.desk.modes@, s),
        top.tracking_of(s) == ToplevelTracking::Unknown <==> !top.desk.facts.known(
            top.desk.modes@,
            s,
        ),
{
}

/// The workspace of an output is the one it shows; without the output it is the first.
pub proof fn law_an_output_has_the_workspace_it_shows(facts: DeskFacts, i: int, id: u64)
    ensures
        output_index(facts.outputs@, id) == i && i < facts.outputs@.len() ==> facts.workspace_on(id)
            == facts.layouts.shown(facts.outputs@[i].name@),
        output_index(facts.outputs@, id) >= facts.outputs@.len() ==> facts.workspace_on(id) == 1,
{
}

/// A workspace nobody chose anything for is the first, is laid out like all, and gives the
/// master half.
pub proof fn law_unset_workspaces_have_defaults(layouts: Layouts, key: WorkspaceKey)
    ensures
        !layouts.active@.contains_key(key.0) ==> layouts.shown(key.0) == 1,
        layouts.active@.contains_key(key.0) ==> layouts.shown(key.0) == layouts.active@[key.0],
        !layouts.algorithms@.contains_key(key) ==> layouts.algorithm_at(key)
            == layouts.default_algorithm,
        layouts.algorithms@.contains_key(key) ==> layouts.algorithm_at(key)
            == layouts.algorithms@[key],
        !layouts.master_ratio@.contains_key(key) ==> 2 * layouts.master_ratio_at(key).units
            == 0x1000_0000,
        layouts.master_ratio@.contains_key(key) ==> layouts.master_ratio_at(key)
            == layouts.master_ratio@[key],
        layouts.trees@.contains_key(key) ==> layouts.root_at(key) == layouts.trees@[key].root,
        !layouts.trees@.contains_key(key) ==> layouts.root_at(key) is None,
{
}

/// The settings that a change of windows leaves alone are all of them.
pub proof fn law_settings_are_all_kept(a: Layouts, b: Layouts, key: WorkspaceKey)
    requires
        a.same_settings(&b),
    ensures
        a.shown(key.0) == b.shown(key.0),
        a.algorithm_at(key) == b.algorithm_at(key),
        a.master_ratio_at(key) == b.master_ratio_at(key),
        a.split_bias == b.split_bias,
        a.master_orientation == b.master_orientation,
        a.default_algorithm == b.default_algorithm,
{
}

/// A surface is at home where the first tree that holds it is.
pub proof fn law_the_first_tree_is_home(layouts: Layouts, s: u64, i: int)
    requires
        0 <= i < layouts.trees.entries@.len(),
        crate::bsp::root_holds(layouts.trees.entries@[i].1.root, s),
        forall|j: int|
            0 <= j < i ==> !crate::bsp::root_holds((#[trigger] layouts.trees.entries@[j]).1.root, s),
    ensures
        layouts.home(s) == Some(layouts.trees.entries@[i].0@),
{
    lemma_first_holding(layouts.trees.entries@, s, i);
}

proof fn lemma_first_holding(
    entries: Seq<((String, u32), crate::bsp::BspLayout)>,
    s: u64,
    i: int,
)
    requires
        0 <= i < entries.len(),
        crate::bsp::root_holds(entries[i].1.root, s),
        forall|j: int| 0 <= j < i ==> !crate::bsp::root_holds((#[trigger] entries[j]).1.root, s),
    ensures
        first_holding(entries, s) == i,
    decreases entries.len(),
{
    if i > 0 {
        assert(!crate::bsp::root_holds(entries[0].1.root, s));
        let rest = entries.skip(1);
        assert(rest[i - 1] == entries[i]);
        assert forall|j: int| 0 <= j < i - 1 implies !crate::bsp::root_holds(
            (#[trigger] rest[j]).1.root,
            s,
        ) by {
            assert(rest[j] == entries[j + 1]);
        }
        lemma_first_holding(rest, s, i - 1);
    }
}

/// Each change makes a new revision, which starts over only when there are no more.
pub proof fn law_revisions_move_on(revision: u64)
    ensures
        next_revision(revision) != revision,
        revision < u64::MAX ==> next_revision(revision) == revision + 1,
        next_revision(u64::MAX) == 0,
{
}

/// A border is touched within its reach, on either side, along the whole split: the wider
/// of the gap and four pixels.
pub proof fn law_borders_are_touched_along_the_split(
    c: CrossedSplit,
    bias: SplitBias,
    gap: int,
    p: FinePoint,
    edge: int,
)
    ensures
        ({
            let wide = if gap < 4 {
                4
            } else {
                gap
            };
            let first = first_part(c.area, c.ratio, bias);
            &&& axis_of(c.area, bias) is Horizontal && edge == 65536 * (first.x + first.w) ==> (touches(
                c,
                bias,
                gap,
                p,
            ) <==> edge - 65536 * wide <= p.x <= edge + 65536 * wide && 65536 * c.area.y <= p.y
                <= 65536 * (c.area.y + c.area.h))
            &&& axis_of(c.area, bias) is Vertical && edge == 65536 * (first.y + first.h) ==> (touches(
                c,
                bias,
                gap,
                p,
            ) <==> edge - 65536 * wide <= p.y <= edge + 65536 * wide && 65536 * c.area.x <= p.x
                <= 65536 * (c.area.x + c.area.w))
            &&& touches(c, bias, gap, p) == on_border(c.area, c.ratio, bias, gap, p)
        }),
{
}

/// The distance to a border counts the same on both sides of it, and is nothing on it.
pub proof fn law_distances_count_on_both_sides(
    c: CrossedSplit,
    bias: SplitBias,
    p: FinePoint,
    edge: int,
)
    ensures
        ({
            let first = first_part(c.area, c.ratio, bias);
            let d = distance_to(c, bias, p);
            &&& d == border_distance(c.area, c.ratio, bias, p)
            &&& d >= 0
            &&& axis_of(c.area, bias) is Horizontal && edge == 65536 * (first.x + first.w) ==> p.x
                - edge == d || edge - p.x == d
            &&& axis_of(c.area, bias) is Vertical && edge == 65536 * (first.y + first.h) ==> p.y
                - edge == d || edge - p.y == d
        }),
{
}

/// What is hit is the split itself, in the tree it was found in, as it is now.
pub proof fn law_a_hit_names_the_split(
    layouts: Layouts,
    c: CrossedSplit,
    root_area: Rect,
    side: Option<crate::bsp::Side>,
    key: WorkspaceKey,
)
    ensures
        ({
            let hit = layouts.owned(hit_on(c, root_area, side), key);
            &&& hit.output == key.0 && hit.workspace == key.1
            &&& hit.path == c.path && hit.axis == c.axis && hit.area == c.area
            &&& hit.root_area == root_area && hit.target_side == side
            &&& hit.topology_revision == layouts.topology_revision
        }),
{
}

/// A hit is current as long as its workspace is shown, nothing was added or removed since,
/// and its path leads to a split.
pub proof fn law_hits_go_out_of_date(layouts: Layouts, hit: SplitHitView)
    ensures
        ({
            let tree = layouts.root_at((hit.output, hit.workspace));
            layouts.current(hit) <==> layouts.shown(hit.output) == hit.workspace
                && layouts.topology_revision == hit.topology_revision && tree is Some && ratio_on(
                tree->0,
                hit.path,
            ) is Some
        }),
{
}

/// A drag of a border starts on the workspace that is shown, at the fraction its split has;
/// where windows are not split two by two there is nothing to drag.
pub proof fn law_a_border_is_dragged_from_where_it_is(
    layouts: Layouts,
    output: Seq<char>,
    area: Rect,
    gap: int,
    point: FinePoint,
)
    ensures
        ({
            let start = border_start(layouts, output, area, gap, point);
            let key = (output, layouts.shown(output));
            &&& layouts.algorithm_at(key) != LayoutAlgorithm::Bsp ==> start is None
            &&& layouts.root_at(key) is None ==> start is None
            &&& start is Some ==> {
                let hit = (start->0).0;
                &&& hit.output == output && hit.workspace == layouts.shown(output)
                &&& hit.root_area == area && hit.target_side is None
                &&& hit.topology_revision == layouts.topology_revision
                &&& ratio_on(layouts.root_at(key)->0, hit.path) == Some((start->0).1)
                &&& shown_border(layouts, output, area, gap, point) == Some(hit)
            }
            &&& shown_border(layouts, output, area, gap, point) is Some && fraction_at(
                layouts,
                shown_border(layouts, output, area, gap, point)->0,
            ) is Some ==> start is Some
        }),
{
}

/// Each split that a window may be resized by starts at the fraction that it has.
pub proof fn law_a_window_is_resized_from_where_it_is(
    layouts: Layouts,
    output: Seq<char>,
    area: Rect,
    surface: u64,
    i: int,
)
    requires
        0 <= i < resize_starts(layouts, output, area, surface).len(),
    ensures
        ({
            let start = resize_starts(layouts, output, area, surface)[i];
            let key = (output, layouts.shown(output));
            &&& layouts.algorithm_at(key) == LayoutAlgorithm::Bsp
            &&& start.0.output == output && start.0.workspace == layouts.shown(output)
            &&& layouts.root_at(key) is Some
            &&& ratio_on(layouts.root_at(key)->0, start.0.path) == Some(start.1)
            &&& shown_hits(layouts, output, area, surface).contains(start.0)
        }),
{
    broadcast use vstd::seq_lib::group_filter_ensures;
    let key = (output, layouts.shown(output));
    let hits = shown_hits(layouts, output, area, surface);
    let kept = hits.filter(crate::press::has_fraction(layouts));
    let hit = kept[i];
    assert(kept.contains(hit));
    lemma_filter_member(hits, crate::press::has_fraction(layouts), hit);
    assert(crate::press::has_fraction(layouts)(hit));
    let j = choose|j: int| 0 <= j < hits.len() && hits[j] == hit;
    if layouts.algorithm_at(key) == LayoutAlgorithm::Bsp {
        let plain = crate::bsp::resize_hits(layouts.root_at(key), surface, area, layouts.split_bias);
        assert(hits[j] == layouts.owned(plain[j], key));
    }
}

/// A point is on the first output whose area holds it.
pub proof fn law_a_point_is_on_the_first_output_around_it(
    outputs: Seq<DeskOutput>,
    point: FinePoint,
)
    ensures
        ({
            let i = output_at(outputs, point);
            &&& 0 <= i <= outputs.len()
            &&& i < outputs.len() ==> outputs[i].geometry is Some && (outputs[i].geometry->0).has_point(
                point,
            )
            &&& forall|j: int|
                0 <= j < i ==> !((#[trigger] outputs[j]).geometry is Some && (
                outputs[j].geometry->0).has_point(point))
        }),
    decreases outputs.len(),
{
    if outputs.len() > 0 && !(outputs[0].geometry is Some && (outputs[0].geometry->0).has_point(
        point,
    )) {
        let rest = outputs.skip(1);
        law_a_point_is_on_the_first_output_around_it(rest, point);
        let i = output_at(outputs, point);
        if i < outputs.len() {
            assert(rest[i - 1] == outputs[i]);
        }
        assert forall|j: int| 0 <= j < i implies !((#[trigger] outputs[j]).geometry is Some && (
        outputs[j].geometry->0).has_point(point)) by {
            if j > 0 {
                assert(rest[j - 1] == outputs[j]);
            }
        }
    }
}

/// What is dragged at a point, or of a window, is on the output there, in its tiling area.
pub proof fn law_drags_start_on_the_output_there(
    facts: DeskFacts,
    gap: int,
    point: FinePoint,
    surface: u64,
)
    ensures
        ({
            let i = output_at(facts.outputs@, point);
            let n = seen_on(facts, surface);
            &&& i < facts.outputs@.len() && facts.outputs@[i].tiling_area is Some ==> point_start(
                facts,
                gap,
                point,
            ) == border_start(
                facts.layouts,
                facts.outputs@[i].name@,
                facts.outputs@[i].tiling_area->0,
                gap,
                point,
            )
            &&& i >= facts.outputs@.len() || facts.outputs@[i].tiling_area is None ==> point_start(
                facts,
                gap,
                point,
            ) is None
            &&& n < facts.outputs@.len() && facts.outputs@[n].tiling_area is Some ==> window_starts(
                facts,
                surface,
            ) == resize_starts(
                facts.layouts,
                facts.outputs@[n].name@,
                facts.outputs@[n].tiling_area->0,
                surface,
            )
            &&& n >= facts.outputs@.len() || facts.outputs@[n].tiling_area is None ==> window_starts(
                facts,
                surface,
            ).len() == 0
            &&& !facts.visible@.contains_key(surface) ==> n >= facts.outputs@.len()
            &&& facts.visible@.contains_key(surface) && facts.visible@[surface].output is Some ==> n
                == output_index(facts.outputs@, facts.visible@[surface].output->0)
        }),
{
}

/// Drawing a rectangle in by a gap leaves the gap on all four sides, and at least a pixel.
pub proof fn law_drawing_in_leaves_the_gap_on_all_sides(rect: Rect, gap: int)
    requires
        i32::MIN <= rect.x + gap <= i32::MAX,
        i32::MIN <= rect.y + gap <= i32::MAX,
        i32::MIN <= rect.w - 2 * gap <= i32::MAX,
        i32::MIN <= rect.h - 2 * gap <= i32::MAX,
    ensures
        ({
            let r = inset_rect(rect, gap);
            &&& r.x - rect.x == gap && r.y - rect.y == gap
            &&& r.w >= 1 && r.h >= 1
            &&& rect.w - 2 * gap >= 1 ==> (rect.x + rect.w) - (r.x + r.w) == gap
            &&& rect.h - 2 * gap >= 1 ==> (rect.y + rect.h) - (r.y + r.h) == gap
            &&& rect.w - 2 * gap < 1 ==> r.w == 1
            &&& rect.h - 2 * gap < 1 ==> r.h == 1
        }),
{
}

/// Half of a number is the whole number next to it towards zero; what is put in the middle
/// has the same room on both sides, but for one pixel.
pub proof fn law_the_middle_is_in_the_middle(n: int, size: int)
    ensures
        n >= 0 ==> 0 <= n - 2 * half(n) <= 1,
        n <= 0 ==> -1 <= n - 2 * half(n) <= 0,
        half(-n) == -half(n),
        at_least_one(size) >= 1,
        size >= 1 ==> at_least_one(size) == size,
        size < 1 ==> at_least_one(size) == 1,
{
}

/// A window that goes fullscreen remembers where it was before any such mode: what it
/// remembers already, else where it was before it was maximized, else where it floats. It
/// remembers that it was pinned, and if so goes with its tag to the workspace that the
/// output shows.
pub proof fn law_fullscreen_remembers_the_first_place(
    facts: DeskFacts,
    modes: ModesView,
    s: u64,
    output: u64,
    other: u64,
)
    requires
        other != s,
    ensures
        ({
            let after = facts.fullscreened(modes, s, output);
            let had = modes.fullscreen.contains_key(s) && modes.fullscreen[s].restore_rect is Some;
            let pinned = modes.pinned.contains_key(s) || (modes.fullscreen.contains_key(s)
                && modes.fullscreen[s].was_pinned);
            &&& after.fullscreen.contains_key(s) && after.fullscreen[s].output == output
            &&& had ==> after.fullscreen[s].restore_rect == modes.fullscreen[s].restore_rect
            &&& !had && modes.maximized.contains_key(s) ==> after.fullscreen[s].restore_rect == Some(
                modes.maximized[s].restore_rect,
            )
            &&& !had && !modes.maximized.contains_key(s) && facts.visible@.contains_key(s)
                && facts.floats(s) && !facts.unmapped@.contains_key(s)
                ==> after.fullscreen[s].restore_rect == Some(facts.visible@[s].rect)
            &&& !had && !modes.maximized.contains_key(s) && !facts.floats(s)
                ==> after.fullscreen[s].restore_rect is None
            &&& after.fullscreen[s].was_pinned == pinned
            &&& !(modes.fullscreen.contains_key(s) && modes.fullscreen[s].was_pinned)
                ==> !after.pinned.contains_key(s)
            &&& pinned && modes.floating.contains_key(s) ==> after.floating[s] == (FloatingTag {
                output,
                workspace: facts.workspace_on(output),
                ..modes.floating[s]
            })
            &&& !pinned ==> after.floating == modes.floating
            &&& after.maximized == modes.maximized
            &&& after.fullscreen.contains_key(other) == modes.fullscreen.contains_key(other)
            &&& after.floating.contains_key(other) == modes.floating.contains_key(other)
            &&& modes.floating.contains_key(other) ==> after.floating[other] == modes.floating[other]
            &&& after.pinned.contains_key(other) == modes.pinned.contains_key(other)
        }),
{
}

/// A floating window that leaves the fullscreen mode goes back to the place that the mode
/// remembers, else to the place of its tag, else to its place on the canvas.
pub proof fn law_leaving_fullscreen_goes_back_to_the_nearest_memory(
    facts: DeskFacts,
    modes: ModesView,
    s: u64,
)
    requires
        modes.fullscreen.contains_key(s),
        facts.floats(s),
    ensures
        ({
            let reply = facts.unfullscreen_reply(modes, s);
            let after = facts.unfullscreened(modes, s);
            let kept = modes.fullscreen[s].restore_rect;
            let tag = modes.floating.contains_key(s);
            &&& kept is Some ==> reply.ocean_rect == kept
            &&& kept is None && tag ==> reply.ocean_rect == Some(modes.floating[s].rect)
            &&& kept is None && !tag && facts.ocean@.contains_key(s) ==> reply.ocean_rect
                == facts.ocean@[s].rect
            &&& kept is None && !tag && !facts.ocean@.contains_key(s) ==> reply.ocean_rect is None
                && (!modes.maximized.contains_key(s) ==> reply.size == SizeReply::Free
                && reply.place is None)
            &&& tag && kept is Some ==> after.floating[s].rect == kept->0
            &&& tag && kept is None ==> after.floating[s].rect == modes.floating[s].rect
            &&& !modes.maximized.contains_key(s) ==> reply.maximized == Some(false)
            &&& modes.maximized.contains_key(s) && facts.maximized_rect(modes.maximized[s].output)
                is Some ==> {
                let rect = facts.maximized_rect(modes.maximized[s].output)->0;
                &&& reply.maximized == Some(true)
                &&& reply.size == SizeReply::Fixed(rect.w, rect.h)
            }
            &&& !modes.fullscreen[s].was_pinned ==> reply.pin_to is None
        }),
{
}

/// A window comes back where the one that hid it was tiled, else on the workspace that the
/// primary output shows; where there is neither, it does not come back.
pub proof fn law_hidden_windows_have_a_place_to_come_back_to(desk: Desk, s: u64, i: int)
    ensures
        desk.facts.layouts.home(s) is Some ==> restore_place(desk, s) == desk.facts.layouts.home(s),
        desk.facts.layouts.home(s) is None && desk.facts.primary is Some && i == output_index(
            desk.facts.outputs@,
            desk.facts.primary->0,
        ) && i < desk.facts.outputs@.len() ==> restore_place(desk, s) == Some(
            (desk.facts.outputs@[i].name@, desk.facts.layouts.shown(desk.facts.outputs@[i].name@)),
        ),
        desk.facts.layouts.home(s) is None && desk.facts.primary is None ==> restore_place(desk, s)
            is None,
{
}

/// What comes back is the window that was hidden for this one, and it has the focus where
/// this one had it.
pub proof fn law_the_hidden_window_is_given_back(top: Toplevels, s: u64, focused: Option<u64>)
    ensures
        ({
            let r = restored_by(top, s, focused);
            &&& !top.swallowed@.contains_key(s) ==> r is None
            &&& top.swallowed@.contains_key(s) && restore_place(top.desk, s) is Some ==> r is Some
                && (r->0).0 == top.swallowed@[s] && ((r->0).1 <==> focused == Some(s))
            &&& restore_place(top.desk, s) is None ==> r is None
        }),
{
}

/// What was hidden for a window that is there stays hidden; a hidden window that is gone
/// itself is not kept.
pub proof fn law_hidden_windows_are_dropped_when_gone(
    swallowed: Map<u64, Window>,
    s: u64,
    holder: u64,
)
    requires
        swallowed.contains_key(holder),
    ensures
        swallowed[holder].surface == Some(s) ==> !still_swallowed(swallowed, s).contains_key(holder),
        swallowed[holder].surface != Some(s) ==> still_swallowed(swallowed, s).contains_key(holder)
            && still_swallowed(swallowed, s)[holder] == swallowed[holder],
{
}

/// A window that is forgotten is in the list no more; the others stay in it, in order.
pub proof fn law_lists_lose_only_the_forgotten_window(list: Seq<u64>, s: u64, t: u64)
    ensures
        !without_surface(list, s).contains(s),
        t != s ==> (without_surface(list, s).contains(t) <==> list.contains(t)),
        without_surface(list.push(t), s) == if t == s {
            without_surface(list, s)
        } else {
            without_surface(list, s).push(t)
        },
{
    broadcast use vstd::seq_lib::group_filter_ensures;
    reveal(Seq::filter);
    assert(list.push(t).drop_last() =~= list);
    let kept = without_surface(list, s);
    if kept.contains(s) {
        let i = choose|i: int| 0 <= i < kept.len() && kept[i] == s;
        assert(other_than(s)(kept[i]));
    }
    if t != s && list.contains(t) {
        let i = choose|i: int| 0 <= i < list.len() && list[i] == t;
        assert(other_than(s)(list[i]));
    }
    if t != s && kept.contains(t) {
        lemma_filter_member(list, other_than(s), t);
    }
}

/// The tab behind a window that goes is parked no more, nor is the window itself; the
/// others are.
pub proof fn law_the_next_tab_is_parked_no_more(
    parked: Map<u64, Window>,
    s: u64,
    next: Window,
    t: u64,
)
    requires
        next.surface is Some,
    ensures
        !parked_without(parked, s, Some(next)).contains_key(next.surface->0),
        !parked_without(parked, s, Some(next)).contains_key(s),
        !parked_without(parked, s, None).contains_key(s),
        t != s && t != next.surface->0 && parked.contains_key(t) ==> parked_without(
            parked,
            s,
            Some(next),
        ).contains_key(t),
        t != s && parked.contains_key(t) ==> parked_without(parked, s, None).contains_key(t),
{
}

/// A window that goes leaves its tile to the next tab, where it has one; else its tile goes
/// with it.
pub proof fn law_a_tile_goes_to_the_next_tab(
    before: Layouts,
    after: Layouts,
    s: u64,
    next: Option<Window>,
)
    requires
        leaves_place(before, after, s, next),
    ensures
        next is None ==> untiles(before, after, s),
        next is Some ==> exists|mid: Layouts|
            #[trigger] untiles(mid, after, s) && replaces(before, mid, s, next->0),
{
}

/// The surfaces that are still there are those that wait and those that are seen.
pub proof fn law_surfaces_are_there_where_they_wait_or_are_seen(facts: DeskFacts, t: u64)
    ensures
        alive_surfaces(facts).contains(t) <==> facts.unmapped@.contains_key(t)
            || facts.visible@.contains_key(t),
{
}

/// Whether a tile is refused is judged by the size that the tile was told to have, and only
/// while it is tiled, not fullscreen and not being dragged.
pub proof fn law_refusals_are_judged_by_the_told_size(top: Toplevels, s: u64, facts: CommitFacts)
    ensures
        ({
            let r = top.refusal_facts(s, facts);
            &&& top.expected_tiled_size@.contains_key(s) ==> r.expected == Some(
                top.expected_tiled_size@[s],
            )
            &&& !top.expected_tiled_size@.contains_key(s) ==> r.expected is None
            &&& r.tiled <==> top.desk.facts.layouts.home(s) is Some
            &&& r.fullscreen <==> top.desk.modes.fullscreen@.contains_key(s)
            &&& r.grabbed == facts.grabbed
            &&& r.actual == facts.actual
        }),
{
}

/// A window that is shown looks as its rule says, and plain where the rule is silent; one
/// that comes back keeps its looks where the rule is silent. No other window changes.
pub proof fn law_looks_follow_the_rule(
    before: WindowLooks,
    shown: WindowLooks,
    back: WindowLooks,
    s: u64,
    rule: LookRule,
    other: u64,
)
    requires
        ruled_looks(before, shown, s, rule),
        added_looks(before, back, s, rule),
        other != s,
    ensures
        rule.opacity is Some ==> shown.opacity@.contains_key(s) && shown.opacity@[s]
            == rule.opacity->0 && back.opacity@.contains_key(s) && back.opacity@[s]
            == rule.opacity->0,
        rule.glass is Some ==> shown.glass@.contains_key(s) && shown.glass@[s] == rule.glass->0
            && back.glass@.contains_key(s) && back.glass@[s] == rule.glass->0,
        rule.opacity is None ==> !shown.opacity@.contains_key(s) && back.opacity@ == before.opacity@,
        rule.glass is None ==> !shown.glass@.contains_key(s) && back.glass@ == before.glass@,
        before.opacity@.contains_key(other) <==> shown.opacity@.contains_key(other),
        before.opacity@.contains_key(other) <==> back.opacity@.contains_key(other),
        before.glass@.contains_key(other) <==> shown.glass@.contains_key(other),
        before.glass@.contains_key(other) <==> back.glass@.contains_key(other),
        before.opacity@.contains_key(other) ==> shown.opacity@[other] == before.opacity@[other]
            && back.opacity@[other] == before.opacity@[other],
        before.glass@.contains_key(other) ==> shown.glass@[other] == before.glass@[other]
            && back.glass@[other] == before.glass@[other],
{
}

proof fn lemma_first_swallowed(facts: MapFacts, windows: Seq<Window>, s: u64, i: int)
    requires
        0 <= i < windows.len(),
        facts.is_swallowed_by(windows[i], s),
        forall|j: int| 0 <= j < i ==> !facts.is_swallowed_by(#[trigger] windows[j], s),
    ensures
        facts.first_swallowed(windows, s) == windows[i].surface,
    decreases windows.len(),
{
    if i > 0 {
        assert(!facts.is_swallowed_by(windows[0], s));
        let rest = windows.skip(1);
        assert(rest[i - 1] == windows[i]);
        assert forall|j: int| 0 <= j < i - 1 implies !facts.is_swallowed_by(
            #[trigger] rest[j],
            s,
        ) by {
            assert(rest[j] == windows[j + 1]);
        }
        lemma_first_swallowed(facts, rest, s, i - 1);
    }
}

/// Of the windows that a new one may hide, the first is hidden, as long as there are rules
/// for it and the process of the new window is known.
pub proof fn law_the_first_window_is_hidden(facts: MapFacts, windows: Seq<Window>, s: u64, i: int)
    requires
        0 <= i < windows.len(),
        facts.is_swallowed_by(windows[i], s),
        forall|j: int| 0 <= j < i ==> !facts.is_swallowed_by(#[trigger] windows[j], s),
    ensures
        facts.swallow_rules && facts.pids@.contains_key(s) ==> facts.swallow_target(windows, s)
            == windows[i].surface,
        !facts.swallow_rules || !facts.pids@.contains_key(s) ==> facts.swallow_target(windows, s)
            is None,
{
    lemma_first_swallowed(facts, windows, s, i);
}

} // verus!
