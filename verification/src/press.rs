//! What a press of a pointer button finds: the window's place among the tiles, and the
//! splits that a drag would move.

use vstd::prelude::*;

use crate::bsp::{
    border_at, copy_path, hit_on, hit_views, ratio_on, resize_hits, SplitHit, SplitHitView,
};
use crate::config::LayoutAlgorithm;
use crate::desk::{output_index, DeskFacts, DeskOutput};
use crate::geometry::{rect_contains, FinePoint, Rect};
use crate::layouts::Layouts;
use crate::ratio::Ratio;

verus! {

/// A split that a drag moves, and the fraction that it has at the start.
pub type StartView = (SplitHitView, Ratio);

/// What the starts of a drag are.
pub open spec fn start_views(starts: Seq<(SplitHit, Ratio)>) -> Seq<StartView> {
    starts.map_values(|start: (SplitHit, Ratio)| (start.0@, start.1))
}

/// What the start of a drag is, where there is one.
pub open spec fn start_view(start: Option<(SplitHit, Ratio)>) -> Option<StartView> {
    match start {
        Some(start) => Some((start.0@, start.1)),
        None => None,
    }
}

/// The fraction of the split that a boundary belongs to.
pub open spec fn fraction_at(layouts: Layouts, hit: SplitHitView) -> Option<Ratio> {
    match layouts.root_at((hit.output, hit.workspace)) {
        Some(root) => ratio_on(root, hit.path),
        None => None,
    }
}

/// The boundary belongs to a split.
pub open spec fn has_fraction(layouts: Layouts) -> spec_fn(SplitHitView) -> bool {
    |hit: SplitHitView| fraction_at(layouts, hit) is Some
}

/// The boundary, with the fraction of its split.
pub open spec fn with_fraction(layouts: Layouts) -> spec_fn(SplitHitView) -> StartView {
    |hit: SplitHitView| (hit, fraction_at(layouts, hit)->0)
}

/// The boundaries around the window of `surface` on the workspace that an output shows.
/// The master layout has none.
pub open spec fn shown_hits(layouts: Layouts, output: Seq<char>, area: Rect, surface: u64) -> Seq<
    SplitHitView,
> {
    let k = (output, layouts.shown(output));
    if layouts.algorithm_at(k) == LayoutAlgorithm::Bsp {
        resize_hits(layouts.root_at(k), surface, area, layouts.split_bias).map_values(
            |h: SplitHitView| layouts.owned(h, k),
        )
    } else {
        seq![]
    }
}

/// The splits that a drag of the window of `surface` moves, each with its fraction.
pub open spec fn resize_starts(layouts: Layouts, output: Seq<char>, area: Rect, surface: u64) -> Seq<
    StartView,
> {
    shown_hits(layouts, output, area, surface).filter(has_fraction(layouts)).map_values(
        with_fraction(layouts),
    )
}

/// The boundary at a point of the workspace that an output shows. The master layout has
/// none.
pub open spec fn shown_border(
    layouts: Layouts,
    output: Seq<char>,
    area: Rect,
    gap: int,
    point: FinePoint,
) -> Option<SplitHitView> {
    let k = (output, layouts.shown(output));
    match layouts.root_at(k) {
        Some(root) => match border_at(root, area, gap, point, layouts.split_bias, seq![]) {
            Some(c) => if layouts.algorithm_at(k) == LayoutAlgorithm::Bsp {
                Some(layouts.owned(hit_on(c, area, None), k))
            } else {
                None
            },
            None => None,
        },
        None => None,
    }
}

/// The split whose boundary is at a point, with its fraction.
pub open spec fn border_start(
    layouts: Layouts,
    output: Seq<char>,
    area: Rect,
    gap: int,
    point: FinePoint,
) -> Option<StartView> {
    match shown_border(layouts, output, area, gap, point) {
        Some(hit) => match fraction_at(layouts, hit) {
            Some(ratio) => Some((hit, ratio)),
            None => None,
        },
        None => None,
    }
}

fn copy_hit(hit: &SplitHit) -> (r: SplitHit)
    ensures
        r@ == hit@,
{
    SplitHit {
        output: hit.output.clone(),
        workspace: hit.workspace,
        path: copy_path(&hit.path),
        axis: hit.axis,
        area: hit.area,
        root_area: hit.root_area,
        target_side: hit.target_side,
        topology_revision: hit.topology_revision,
    }
}

/// The splits that a drag of the window of `surface` moves, each with its fraction.
pub fn find_resize_starts(layouts: &Layouts, output: &str, area: Rect, surface: u64) -> (r: Vec<
    (SplitHit, Ratio),
>)
    requires
        layouts.wf(),
        area.fits(),
    ensures
        start_views(r@) == resize_starts(*layouts, output@, area, surface),
{
    let workspace: u32 = layouts.active_workspace(output);
    let hits: Vec<SplitHit> = layouts.resize_splits(output, workspace, area, surface);
    let ghost all = hit_views(hits@);
    let ghost keep = has_fraction(*layouts);
    let ghost f = with_fraction(*layouts);
    assert(all =~= shown_hits(*layouts, output@, area, surface));
    let mut out: Vec<(SplitHit, Ratio)> = Vec::new();
    let mut i: usize = 0;
    proof {
        crate::seqs::lemma_filter_ends(all, keep);
        assert(start_views(out@) =~= all.take(0).filter(keep).map_values(f));
    }
    while i < hits.len()
        invariant
            layouts.wf(),
            i <= hits@.len(),
            all == hit_views(hits@),
            keep == has_fraction(*layouts),
            f == with_fraction(*layouts),
            start_views(out@) == all.take(i as int).filter(keep).map_values(f),
        decreases hits@.len() - i,
    {
        let hit = &hits[i];
        let ghost before = start_views(out@);
        proof {
            assert(all[i as int] == hit@);
            crate::seqs::lemma_filter_step(all, i as int, keep);
        }
        if let Some(ratio) = layouts.ratio_at(
            hit.output.as_str(),
            hit.workspace,
            hit.path.as_slice(),
        ) {
            let start = (copy_hit(hit), ratio);
            let ghost v = (start.0@, start.1);
            assert(v == f(all[i as int]));
            out.push(start);
            assert(start_views(out@) =~= before.push(v));
            assert(all.take(i as int).filter(keep).push(all[i as int]).map_values(f)
                =~= all.take(i as int).filter(keep).map_values(f).push(v));
        }
        i += 1;
    }
    assert(all.take(i as int) =~= all);
    out
}

/// The split whose boundary is at a point, with its fraction.
pub fn find_border_start(layouts: &Layouts, output: &str, area: Rect, gap: i32, point: FinePoint) -> (r:
    Option<(SplitHit, Ratio)>)
    requires
        layouts.wf(),
        area.fits(),
    ensures
        start_view(r) == border_start(*layouts, output@, area, gap as int, point),
{
    let workspace: u32 = layouts.active_workspace(output);
    match layouts.hit_test_split(output, workspace, area, gap, point) {
        Some(hit) => match layouts.ratio_at(
            hit.output.as_str(),
            hit.workspace,
            hit.path.as_slice(),
        ) {
            Some(ratio) => Some((hit, ratio)),
            None => None,
        },
        None => None,
    }
}

/// The index of the first output that a point lies on, and the number of outputs where
/// there is none.
pub open spec fn output_at(outputs: Seq<DeskOutput>, point: FinePoint) -> int
    decreases outputs.len(),
{
    if outputs.len() == 0 || (outputs[0].geometry is Some && outputs[0].geometry->0.has_point(
        point,
    )) {
        0
    } else {
        1 + output_at(outputs.skip(1), point)
    }
}

fn find_output_at(outputs: &Vec<DeskOutput>, point: FinePoint) -> (r: Option<usize>)
    ensures
        match r {
            Some(i) => i < outputs@.len() && i == output_at(outputs@, point),
            None => output_at(outputs@, point) >= outputs@.len(),
        },
{
    let ghost all = outputs@;
    let mut i: usize = 0;
    assert(all.skip(0) =~= all);
    while i < outputs.len()
        invariant
            i <= all.len(),
            all == outputs@,
            output_at(all, point) == i + output_at(all.skip(i as int), point),
        decreases all.len() - i,
    {
        assert(all.skip(i as int)[0] == all[i as int]);
        assert(all.skip(i as int).skip(1) =~= all.skip(i + 1));
        if let Some(geometry) = outputs[i].geometry {
            if rect_contains(geometry, point) {
                return Some(i);
            }
        }
        i += 1;
    }
    None
}

/// The index of the output that a window is seen on, and the number of outputs where it is
/// seen on none.
pub open spec fn seen_on(facts: DeskFacts, surface: u64) -> int {
    if facts.visible@.contains_key(surface) && facts.visible@[surface].output is Some {
        output_index(facts.outputs@, facts.visible@[surface].output->0)
    } else {
        facts.outputs@.len() as int
    }
}

/// The splits that a drag of a window moves on the output it is seen on.
pub open spec fn window_starts(facts: DeskFacts, surface: u64) -> Seq<StartView> {
    let i = seen_on(facts, surface);
    if i < facts.outputs@.len() && facts.outputs@[i].tiling_area is Some {
        resize_starts(
            facts.layouts,
            facts.outputs@[i].name@,
            facts.outputs@[i].tiling_area->0,
            surface,
        )
    } else {
        seq![]
    }
}

/// The split whose boundary is at a point of the desktop.
pub open spec fn point_start(facts: DeskFacts, gap: int, point: FinePoint) -> Option<StartView> {
    let i = output_at(facts.outputs@, point);
    if i < facts.outputs@.len() && facts.outputs@[i].tiling_area is Some {
        border_start(
            facts.layouts,
            facts.outputs@[i].name@,
            facts.outputs@[i].tiling_area->0,
            gap,
            point,
        )
    } else {
        None
    }
}

/// The splits that a drag of a window moves on the output it is seen on.
pub fn find_window_starts(facts: &DeskFacts, surface: u64) -> (r: Vec<(SplitHit, Ratio)>)
    requires
        facts.wf(),
    ensures
        start_views(r@) == window_starts(*facts, surface),
{
    if let Some(w) = facts.visible.get(&surface) {
        if let Some(id) = w.output {
            if let Some(i) = facts.find_output(id) {
                if let Some(area) = facts.outputs[i].tiling_area {
                    return find_resize_starts(
                        &facts.layouts,
                        facts.outputs[i].name.as_str(),
                        area,
                        surface,
                    );
                }
            }
        }
    }
    let none: Vec<(SplitHit, Ratio)> = Vec::new();
    assert(start_views(none@) =~= seq![]);
    none
}

/// The split whose boundary is at a point of the desktop.
pub fn find_point_start(facts: &DeskFacts, gap: i32, point: FinePoint) -> (r: Option<
    (SplitHit, Ratio),
>)
    requires
        facts.wf(),
    ensures
        start_view(r) == point_start(*facts, gap as int, point),
{
    match find_output_at(&facts.outputs, point) {
        Some(i) => match facts.outputs[i].tiling_area {
            Some(area) => find_border_start(
                &facts.layouts,
                facts.outputs[i].name.as_str(),
                area,
                gap,
                point,
            ),
            None => None,
        },
        None => None,
    }
}

} // verus!
