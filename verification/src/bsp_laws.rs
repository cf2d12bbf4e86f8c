//! What holds of every tiling tree.

use vstd::prelude::*;

use crate::bsp::{
    areas_of, border_at, crossed, exchange, found, holds, inserted, node_wf, ratio_on, relabeled,
    removed, shows, substitute, swapped, windows_of, with_gaps, with_ratio, Node, Side, Window,
};
use crate::config::SplitBias;
use crate::geometry::{
    at_least_one, first_part, gap_fits, inset_fits, law_split_divides_exactly, second_part,
    FinePoint, Rect,
};
use crate::ratio::Ratio;

verus! {

/// A tree holds a surface exactly when one of its windows shows it.
pub proof fn law_holds_is_membership(node: Node, target: u64)
    ensures
        holds(node, target) <==> exists|i: int|
            0 <= i < windows_of(node).len() && shows(#[trigger] windows_of(node)[i], target),
    decreases node,
{
    let ws = windows_of(node);
    match node {
        Node::Leaf(window) => {
            assert(ws[0] == window);
        },
        Node::Split { first, second, .. } => {
            law_holds_is_membership(*first, target);
            law_holds_is_membership(*second, target);
            let (a, b) = (windows_of(*first), windows_of(*second));
            if holds(*first, target) {
                let i = choose|i: int| 0 <= i < a.len() && shows(#[trigger] a[i], target);
                assert(ws[i] == a[i]);
            }
            if holds(*second, target) {
                let i = choose|i: int| 0 <= i < b.len() && shows(#[trigger] b[i], target);
                assert(ws[a.len() + i] == b[i]);
            }
            if exists|i: int| 0 <= i < ws.len() && shows(#[trigger] ws[i], target) {
                let i = choose|i: int| 0 <= i < ws.len() && shows(#[trigger] ws[i], target);
                if i < a.len() {
                    assert(a[i] == ws[i]);
                } else {
                    assert(b[i - a.len()] == ws[i]);
                }
            }
        },
    }
}

/// Where a new window goes: right behind the first that shows `target`, at the
/// end where none does.
pub open spec fn place_of(ws: Seq<Window>, target: Option<u64>) -> int
    decreases ws.len(),
{
    if ws.len() == 0 {
        0
    } else if target is Some && shows(ws[0], target->0) {
        1
    } else {
        1 + place_of(ws.skip(1), target)
    }
}

proof fn lemma_place_in_range(ws: Seq<Window>, target: Option<u64>)
    ensures
        0 <= place_of(ws, target) <= ws.len(),
    decreases ws.len(),
{
    if ws.len() > 0 {
        lemma_place_in_range(ws.skip(1), target);
    }
}

proof fn lemma_place_concat(a: Seq<Window>, b: Seq<Window>, target: Option<u64>)
    ensures
        place_of(a + b, target) == if exists|i: int|
            0 <= i < a.len() && target is Some && shows(#[trigger] a[i], target->0) {
            place_of(a, target)
        } else {
            a.len() + place_of(b, target)
        },
    decreases a.len(),
{
    if a.len() == 0 {
        assert(a + b =~= b);
    } else {
        assert((a + b)[0] == a[0]);
        assert((a + b).skip(1) =~= a.skip(1) + b);
        lemma_place_concat(a.skip(1), b, target);
        let rest = a.skip(1);
        if target is Some && !shows(a[0], target->0) {
            if exists|i: int| 0 <= i < a.len() && shows(#[trigger] a[i], target->0) {
                let i = choose|i: int| 0 <= i < a.len() && shows(#[trigger] a[i], target->0);
                assert(rest[i - 1] == a[i]);
            }
            if exists|i: int| 0 <= i < rest.len() && shows(#[trigger] rest[i], target->0) {
                let i = choose|i: int| 0 <= i < rest.len() && shows(#[trigger] rest[i], target->0);
                assert(a[i + 1] == rest[i]);
            }
        }
    }
}

/// Inserting a window adds that window and nothing else: right behind the first
/// that shows the target, at the end where none does.
pub proof fn law_insert_adds_one_window(node: Node, window: Window, target: Option<u64>)
    ensures
        0 <= place_of(windows_of(node), target) <= windows_of(node).len(),
        windows_of(inserted(node, window, target)) == windows_of(node).insert(
            place_of(windows_of(node), target),
            window,
        ),
    decreases node,
{
    let ws = windows_of(node);
    lemma_place_in_range(ws, target);
    match node {
        Node::Leaf(existing) => {
            let new = inserted(node, window, target);
            reveal_with_fuel(windows_of, 2);
            assert(ws.skip(1) =~= seq![]);
            reveal_with_fuel(place_of, 2);
            assert(windows_of(new) =~= ws.insert(1, window));
        },
        Node::Split { first, second, .. } => {
            let (a, b) = (windows_of(*first), windows_of(*second));
            lemma_place_concat(a, b, target);
            if target is Some {
                law_holds_is_membership(*first, target->0);
            }
            if target is Some && holds(*first, target->0) {
                law_insert_adds_one_window(*first, window, target);
                assert(a.insert(place_of(a, target), window) + b =~= (a + b).insert(
                    place_of(a, target),
                    window,
                ));
            } else {
                law_insert_adds_one_window(*second, window, target);
                assert(a + b.insert(place_of(b, target), window) =~= (a + b).insert(
                    a.len() + place_of(b, target),
                    window,
                ));
            }
        },
    }
}

/// What is left of a list of windows without those that show `target`.
pub open spec fn without(ws: Seq<Window>, target: u64) -> Seq<Window> {
    ws.filter(|w: Window| !shows(w, target))
}

/// Removing a surface takes out the windows that show it, and no other; the rest
/// keep their order.
pub proof fn law_remove_takes_only_the_surface(node: Node, target: u64)
    ensures
        match removed(node, target) {
            Some(rest) => windows_of(rest) == without(windows_of(node), target),
            None => without(windows_of(node), target) == Seq::<Window>::empty(),
        },
    decreases node,
{
    let keep = |w: Window| !shows(w, target);
    match node {
        Node::Leaf(window) => {
            reveal_with_fuel(Seq::filter, 2);
            let ws = windows_of(node);
            assert(ws.drop_last() =~= seq![]);
            assert(without(ws, target) =~= if shows(window, target) {
                seq![]
            } else {
                seq![window]
            });
        },
        Node::Split { first, second, .. } => {
            law_remove_takes_only_the_surface(*first, target);
            law_remove_takes_only_the_surface(*second, target);
            let (a, b) = (windows_of(*first), windows_of(*second));
            Seq::filter_distributes_over_add(a, b, keep);
            let (ra, rb) = (without(a, target), without(b, target));
            assert(without(a + b, target) == ra + rb);
            if ra == Seq::<Window>::empty() {
                assert(ra + rb =~= rb);
            }
            if rb == Seq::<Window>::empty() {
                assert(ra + rb =~= ra);
            }
        },
    }
}

/// A removed surface is gone, and every other surface stays.
pub proof fn law_remove_keeps_the_others(node: Node, target: u64, other: u64)
    ensures
        match removed(node, target) {
            Some(rest) => holds(rest, other) <==> holds(node, other) && other != target,
            None => holds(node, other) ==> other == target,
        },
        removed(node, target) is None ==> holds(node, target),
    decreases node,
{
    if let Node::Split { first, second, .. } = node {
        law_remove_keeps_the_others(*first, target, other);
        law_remove_keeps_the_others(*second, target, other);
    }
}

proof fn lemma_remove_absent(node: Node, target: u64)
    requires
        !holds(node, target),
    ensures
        removed(node, target) == Some(node),
    decreases node,
{
    if let Node::Split { first, second, .. } = node {
        lemma_remove_absent(*first, target);
        lemma_remove_absent(*second, target);
    }
}

/// Removing a surface that is not tiled changes nothing.
pub proof fn law_remove_of_absent_is_nothing(node: Node, target: u64)
    requires
        !holds(node, target),
    ensures
        removed(node, target) == Some(node),
{
    lemma_remove_absent(node, target);
}

/// Removing a window right after it was inserted restores the tree, its
/// fractions with it.
pub proof fn law_remove_undoes_insert(node: Node, window: Window, target: Option<u64>, surface: u64)
    requires
        shows(window, surface),
        !holds(node, surface),
    ensures
        removed(inserted(node, window, target), surface) == Some(node),
    decreases node,
{
    match node {
        Node::Leaf(existing) => {
            reveal_with_fuel(removed, 2);
        },
        Node::Split { first, second, .. } => {
            if target is Some && holds(*first, target->0) {
                law_remove_undoes_insert(*first, window, target, surface);
                lemma_remove_absent(*second, surface);
            } else {
                law_remove_undoes_insert(*second, window, target, surface);
                lemma_remove_absent(*first, surface);
            }
        },
    }
}

/// Exchanging windows leaves the shape of a tree alone: the windows change one
/// by one, and every leaf keeps its area.
pub proof fn law_relabel_keeps_the_shape(
    node: Node,
    f: spec_fn(Window) -> Window,
    area: Rect,
    bias: SplitBias,
)
    ensures
        windows_of(relabeled(node, f)) == windows_of(node).map_values(f),
        areas_of(relabeled(node, f), area, bias) == areas_of(node, area, bias).map_values(
            |e: (Window, Rect)| (f(e.0), e.1),
        ),
    decreases node,
{
    let g = |e: (Window, Rect)| (f(e.0), e.1);
    match node {
        Node::Leaf(window) => {
            assert(windows_of(relabeled(node, f)) =~= windows_of(node).map_values(f));
            assert(areas_of(relabeled(node, f), area, bias) =~= areas_of(
                node,
                area,
                bias,
            ).map_values(g));
        },
        Node::Split { ratio, first, second } => {
            let (fa, sa) = (first_part(area, ratio, bias), second_part(area, ratio, bias));
            law_relabel_keeps_the_shape(*first, f, fa, bias);
            law_relabel_keeps_the_shape(*second, f, sa, bias);
            assert((windows_of(*first) + windows_of(*second)).map_values(f) =~= windows_of(
                *first,
            ).map_values(f) + windows_of(*second).map_values(f));
            assert((areas_of(*first, fa, bias) + areas_of(*second, sa, bias)).map_values(g)
                =~= areas_of(*first, fa, bias).map_values(g) + areas_of(*second, sa, bias).map_values(
                g,
            ));
        },
    }
}

/// The leaves that show `target` all carry the same window.
pub open spec fn one_window_for(node: Node, target: u64, window: Window) -> bool
    decreases node,
{
    match node {
        Node::Leaf(w) => shows(w, target) ==> w == window,
        Node::Split { first, second, .. } => one_window_for(*first, target, window)
            && one_window_for(*second, target, window),
    }
}

proof fn lemma_exchange_twice(node: Node, a: u64, wa: Window, b: u64, wb: Window)
    requires
        shows(wa, a),
        shows(wb, b),
        a == b ==> wa == wb,
        one_window_for(node, a, wa),
        one_window_for(node, b, wb),
    ensures
        relabeled(relabeled(node, exchange(a, wa, b, wb)), exchange(a, wa, b, wb)) == node,
    decreases node,
{
    if let Node::Split { first, second, .. } = node {
        lemma_exchange_twice(*first, a, wa, b, wb);
        lemma_exchange_twice(*second, a, wa, b, wb);
    }
}

proof fn lemma_found_shows(node: Node, target: u64)
    ensures
        holds(node, target) <==> found(node, target) is Some,
        found(node, target) is Some ==> shows(found(node, target)->0, target),
    decreases node,
{
    if let Node::Split { first, second, .. } = node {
        lemma_found_shows(*first, target);
        lemma_found_shows(*second, target);
    }
}

proof fn lemma_found_after_exchange(node: Node, a: u64, wa: Window, b: u64, wb: Window)
    requires
        shows(wa, a),
        shows(wb, b),
        a == b ==> wa == wb,
        one_window_for(node, a, wa),
        one_window_for(node, b, wb),
    ensures
        holds(relabeled(node, exchange(a, wa, b, wb)), a) <==> holds(node, b),
        holds(relabeled(node, exchange(a, wa, b, wb)), b) <==> holds(node, a),
        holds(node, b) ==> found(relabeled(node, exchange(a, wa, b, wb)), a) == Some(wa),
        holds(node, a) ==> found(relabeled(node, exchange(a, wa, b, wb)), b) == Some(wb),
    decreases node,
{
    if let Node::Split { first, second, .. } = node {
        lemma_found_after_exchange(*first, a, wa, b, wb);
        lemma_found_after_exchange(*second, a, wa, b, wb);
    }
}

/// Swapping two windows twice changes nothing, wherever a surface belongs to one
/// window only.
pub proof fn law_swap_twice_is_nothing(node: Node, a: u64, b: u64)
    requires
        forall|w: Window| found(node, a) == Some(w) ==> one_window_for(node, a, w),
        forall|w: Window| found(node, b) == Some(w) ==> one_window_for(node, b, w),
    ensures
        swapped(swapped(node, a, b), a, b) == node,
{
    lemma_found_shows(node, a);
    lemma_found_shows(node, b);
    match (found(node, a), found(node, b)) {
        (Some(wa), Some(wb)) => {
            lemma_exchange_twice(node, a, wa, b, wb);
            lemma_found_after_exchange(node, a, wa, b, wb);
        },
        _ => {},
    }
}

/// The areas of a tree show its windows, in order.
pub proof fn law_layout_shows_every_window(node: Node, area: Rect, bias: SplitBias)
    ensures
        areas_of(node, area, bias).map_values(|e: (Window, Rect)| e.0) == windows_of(node),
    decreases node,
{
    let f = |e: (Window, Rect)| e.0;
    match node {
        Node::Leaf(window) => {
            assert(areas_of(node, area, bias).map_values(f) =~= seq![window]);
        },
        Node::Split { ratio, first, second } => {
            let (fa, sa) = (first_part(area, ratio, bias), second_part(area, ratio, bias));
            law_layout_shows_every_window(*first, fa, bias);
            law_layout_shows_every_window(*second, sa, bias);
            assert((areas_of(*first, fa, bias) + areas_of(*second, sa, bias)).map_values(f)
                =~= areas_of(*first, fa, bias).map_values(f) + areas_of(*second, sa, bias).map_values(
                f,
            ));
        },
    }
}

/// Before gaps are taken, the areas of a tree lie in its area.
proof fn lemma_areas_within(node: Node, area: Rect, bias: SplitBias)
    requires
        node_wf(node),
        area.fits(),
        area.w >= 0,
        area.h >= 0,
    ensures
        forall|i: int|
            0 <= i < areas_of(node, area, bias).len() ==> {
                let r = (#[trigger] areas_of(node, area, bias)[i]).1;
                r.within(area) && r.w >= 0 && r.h >= 0 && r.fits()
            },
    decreases node,
{
    if let Node::Split { ratio, first, second } = node {
        let (fa, sa) = (first_part(area, ratio, bias), second_part(area, ratio, bias));
        law_split_divides_exactly(area, ratio, bias);
        lemma_areas_within(*first, fa, bias);
        lemma_areas_within(*second, sa, bias);
        let (a, b) = (areas_of(*first, fa, bias), areas_of(*second, sa, bias));
        assert forall|i: int| 0 <= i < (a + b).len() implies {
            let r = (#[trigger] (a + b)[i]).1;
            r.within(area) && r.w >= 0 && r.h >= 0 && r.fits()
        } by {
            if i < a.len() {
                assert((a + b)[i] == a[i]);
            } else {
                assert((a + b)[i] == b[i - a.len()]);
            }
        }
    }
}

/// Before gaps are taken, the windows of a tree tile its area: every pixel of
/// the area belongs to exactly one of them, and they cover nothing else.
pub proof fn law_layout_tiles_the_area(node: Node, area: Rect, bias: SplitBias, px: int, py: int)
    requires
        node_wf(node),
        area.fits(),
        area.w >= 0,
        area.h >= 0,
    ensures
        area.covers(px, py) <==> exists|i: int|
            0 <= i < areas_of(node, area, bias).len() && (#[trigger] areas_of(
                node,
                area,
                bias,
            )[i]).1.covers(px, py),
        forall|i: int, j: int|
            0 <= i < areas_of(node, area, bias).len() && 0 <= j < areas_of(node, area, bias).len()
                && (#[trigger] areas_of(node, area, bias)[i]).1.covers(px, py) && (
            #[trigger] areas_of(node, area, bias)[j]).1.covers(px, py) ==> i == j,
    decreases node,
{
    let all = areas_of(node, area, bias);
    match node {
        Node::Leaf(window) => {
            assert(all[0] == (window, area));
        },
        Node::Split { ratio, first, second } => {
            let (fa, sa) = (first_part(area, ratio, bias), second_part(area, ratio, bias));
            law_split_divides_exactly(area, ratio, bias);
            law_layout_tiles_the_area(*first, fa, bias, px, py);
            law_layout_tiles_the_area(*second, sa, bias, px, py);
            let (a, b) = (areas_of(*first, fa, bias), areas_of(*second, sa, bias));
            assert(area.covers(px, py) <==> fa.covers(px, py) || sa.covers(px, py));
            assert(!(fa.covers(px, py) && sa.covers(px, py)));
            assert forall|i: int| 0 <= i < all.len() implies (#[trigger] all[i]) == if i < a.len() {
                a[i]
            } else {
                b[i - a.len()]
            } by {}
            if fa.covers(px, py) {
                let i = choose|i: int| 0 <= i < a.len() && (#[trigger] a[i]).1.covers(px, py);
                assert(all[i] == a[i]);
            }
            if sa.covers(px, py) {
                let i = choose|i: int| 0 <= i < b.len() && (#[trigger] b[i]).1.covers(px, py);
                assert(all[a.len() + i] == b[i]);
            }
            assert forall|i: int| 0 <= i < all.len() && (#[trigger] all[i]).1.covers(px, py) implies {
                &&& i < a.len() ==> fa.covers(px, py) && a[i].1.covers(px, py)
                &&& i >= a.len() ==> sa.covers(px, py) && b[i - a.len()].1.covers(px, py)
            } by {
                if i < a.len() {
                    assert(a[i].1.covers(px, py));
                } else {
                    assert(b[i - a.len()].1.covers(px, py));
                }
            }
        },
    }
}

/// How many pixels the rectangles have, all together.
pub open spec fn pixels_of(placed: Seq<(Window, Rect)>) -> int
    decreases placed.len(),
{
    if placed.len() == 0 {
        0
    } else {
        pixels_of(placed.drop_last()) + placed.last().1.w * placed.last().1.h
    }
}

proof fn lemma_pixels_add(a: Seq<(Window, Rect)>, b: Seq<(Window, Rect)>)
    ensures
        pixels_of(a + b) == pixels_of(a) + pixels_of(b),
    decreases b.len(),
{
    if b.len() == 0 {
        assert(a + b =~= a);
    } else {
        assert((a + b).drop_last() =~= a + b.drop_last());
        lemma_pixels_add(a, b.drop_last());
    }
}

/// Before gaps are taken, the windows of a tree lie in its area, and their areas add up
/// to the whole.
pub proof fn law_layout_areas_add_up(node: Node, area: Rect, bias: SplitBias)
    requires
        node_wf(node),
        area.fits(),
        area.w >= 0,
        area.h >= 0,
    ensures
        pixels_of(areas_of(node, area, bias)) == area.w * area.h,
        forall|i: int|
            0 <= i < areas_of(node, area, bias).len() ==> (#[trigger] areas_of(
                node,
                area,
                bias,
            )[i]).1.within(area),
    decreases node,
{
    let all = areas_of(node, area, bias);
    match node {
        Node::Leaf(window) => {
            assert(all =~= seq![(window, area)]);
            assert(all.drop_last() =~= seq![]);
            assert(pixels_of(all.drop_last()) == 0);
        },
        Node::Split { ratio, first, second } => {
            let (fa, sa) = (first_part(area, ratio, bias), second_part(area, ratio, bias));
            law_split_divides_exactly(area, ratio, bias);
            crate::ratio::lemma_share_bounds(area.w as nat, ratio.units as nat);
            crate::ratio::lemma_share_bounds(area.h as nat, ratio.units as nat);
            law_layout_areas_add_up(*first, fa, bias);
            law_layout_areas_add_up(*second, sa, bias);
            let (a, b) = (areas_of(*first, fa, bias), areas_of(*second, sa, bias));
            assert(all =~= a + b);
            lemma_pixels_add(a, b);
            assert(fa.w * fa.h + sa.w * sa.h == area.w * area.h) by (nonlinear_arith)
                requires
                    (fa.w + sa.w == area.w && fa.h == area.h && sa.h == area.h) || (fa.h + sa.h
                        == area.h && fa.w == area.w && sa.w == area.w),
            ;
            assert forall|i: int| 0 <= i < all.len() implies (#[trigger] all[i]).1.within(area) by {
                if i < a.len() {
                    assert(a[i].1.within(fa));
                } else {
                    assert(b[i - a.len()].1.within(sa));
                }
            }
        },
    }
}

/// A gap draws every window in by as much on all sides, but leaves it a pixel.
pub proof fn law_gaps_draw_windows_in(placed: Seq<(Window, Rect)>, gap: int, i: int)
    requires
        0 <= i < placed.len(),
        inset_fits(placed[i].1, gap),
    ensures
        ({
            let (before, after) = (placed[i], with_gaps(placed, gap)[i]);
            &&& with_gaps(placed, gap).len() == placed.len()
            &&& after.0 == before.0
            &&& after.1.x == before.1.x + gap
            &&& after.1.y == before.1.y + gap
            &&& after.1.w == at_least_one(before.1.w - 2 * gap)
            &&& after.1.h == at_least_one(before.1.h - 2 * gap)
        }),
{
}

/// The windows of a layout come in the order of the tree. Before gaps are taken they lie in
/// the area, no two of them share a pixel, and their areas add up to the whole; a gap draws
/// each in by as much on all sides, but leaves it a pixel.
pub proof fn law_layout_fills_its_area(node: Node, area: Rect, gap: int, bias: SplitBias)
    requires
        node_wf(node),
        gap_fits(area, gap),
        area.w >= 0,
        area.h >= 0,
    ensures
        ({
            let plain = areas_of(node, area, bias);
            let drawn = with_gaps(plain, gap);
            &&& drawn.map_values(|e: (Window, Rect)| e.0) == windows_of(node)
            &&& pixels_of(plain) == area.w * area.h
            &&& forall|i: int| 0 <= i < plain.len() ==> (#[trigger] plain[i]).1.within(area)
            &&& forall|i: int, j: int, px: int, py: int|
                0 <= i < plain.len() && 0 <= j < plain.len() && #[trigger] plain[i].1.covers(px, py)
                    && #[trigger] plain[j].1.covers(px, py) ==> i == j
            &&& drawn.len() == plain.len()
            &&& forall|i: int|
                0 <= i < plain.len() ==> {
                    let (before, after) = (plain[i].1, (#[trigger] drawn[i]).1);
                    &&& after.x == before.x + gap
                    &&& after.y == before.y + gap
                    &&& after.w == at_least_one(before.w - 2 * gap)
                    &&& after.h == at_least_one(before.h - 2 * gap)
                }
        }),
{
    let plain = areas_of(node, area, bias);
    let drawn = with_gaps(plain, gap);
    law_layout_shows_every_window(node, area, bias);
    assert(drawn.map_values(|e: (Window, Rect)| e.0) =~= plain.map_values(
        |e: (Window, Rect)| e.0,
    ));
    law_layout_areas_add_up(node, area, bias);
    lemma_areas_within(node, area, bias);
    assert forall|i: int, j: int, px: int, py: int|
        0 <= i < plain.len() && 0 <= j < plain.len() && #[trigger] plain[i].1.covers(px, py)
            && #[trigger] plain[j].1.covers(px, py) implies i == j by {
        law_layout_tiles_the_area(node, area, bias, px, py);
    }
    assert forall|i: int| 0 <= i < plain.len() implies {
        let (before, after) = (plain[i].1, (#[trigger] drawn[i]).1);
        &&& after.x == before.x + gap
        &&& after.y == before.y + gap
        &&& after.w == at_least_one(before.w - 2 * gap)
        &&& after.h == at_least_one(before.h - 2 * gap)
    } by {
        assert(plain[i].1.within(area));
        assert(inset_fits(plain[i].1, gap));
        law_gaps_draw_windows_in(plain, gap, i);
    }
}

/// A fraction that is set is the one read back, where the path leads to a split;
/// the windows stay where they are and every other split keeps its fraction.
pub proof fn law_set_ratio_is_read_back(node: Node, path: Seq<Side>, other: Seq<Side>, ratio: Ratio)
    ensures
        ratio_on(node, path) is Some ==> ratio_on(with_ratio(node, path, ratio), path) == Some(ratio),
        ratio_on(node, path) is None ==> with_ratio(node, path, ratio) == node,
        windows_of(with_ratio(node, path, ratio)) == windows_of(node),
        other != path ==> ratio_on(with_ratio(node, path, ratio), other) == ratio_on(node, other),
    decreases node,
{
    if let Node::Split { first, second, .. } = node {
        if path.len() > 0 {
            assert(other.len() > 0 && other[0] == path[0] && other.skip(1) == path.skip(1) ==> other
                =~= path) by {
                if other.len() > 0 && other[0] == path[0] && other.skip(1) == path.skip(1) {
                    assert(other =~= seq![other[0]] + other.skip(1));
                    assert(path =~= seq![path[0]] + path.skip(1));
                }
            }
            if path[0] == Side::First {
                law_set_ratio_is_read_back(*first, path.skip(1), other.skip(1), ratio);
            } else {
                law_set_ratio_is_read_back(*second, path.skip(1), other.skip(1), ratio);
            }
        } else if other.len() == 0 {
            assert(other =~= path);
        }
    }
}

/// A boundary that was hit is addressed by a path to a split of the tree, the one
/// whose fraction it carries.
pub proof fn law_hit_addresses_a_split(
    node: Node,
    area: Rect,
    gap: int,
    p: FinePoint,
    bias: SplitBias,
    prefix: Seq<Side>,
)
    ensures
        border_at(node, area, gap, p, bias, prefix) is Some ==> {
            let c = border_at(node, area, gap, p, bias, prefix)->0;
            &&& c.path.len() >= prefix.len()
            &&& c.path.take(prefix.len() as int) == prefix
            &&& ratio_on(node, c.path.skip(prefix.len() as int)) == Some(c.ratio)
        },
    decreases node,
{
    if let Node::Split { ratio, first, second } = node {
        let (fa, sa) = (first_part(area, ratio, bias), second_part(area, ratio, bias));
        let hit = border_at(node, area, gap, p, bias, prefix);
        let side = if fa.has_point(p) {
            Side::First
        } else {
            Side::Second
        };
        law_hit_addresses_a_split(*first, fa, gap, p, bias, prefix.push(side));
        law_hit_addresses_a_split(*second, sa, gap, p, bias, prefix.push(side));
        if hit is Some {
            let path = hit->0.path;
            let n = prefix.len() as int;
            if path == prefix {
                assert(prefix.take(n) =~= prefix);
                assert(prefix.skip(n) =~= seq![]);
            } else {
                assert(path.take(n + 1) == prefix.push(side));
                assert(path[n] == path.take(n + 1)[n]);
                assert(path.take(n) =~= path.take(n + 1).take(n));
                assert(prefix.push(side).take(n) =~= prefix);
                assert(path.skip(n)[0] == side);
                assert(path.skip(n).skip(1) =~= path.skip(n + 1));
            }
        }
    }
}

/// A crossed split is addressed by a path to a split of the tree, the one whose
/// fraction it carries.
pub proof fn law_crossed_addresses_splits(
    node: Node,
    area: Rect,
    bias: SplitBias,
    path: Seq<Side>,
    prefix: Seq<Side>,
    i: int,
)
    requires
        0 <= i < crossed(node, area, bias, path, prefix).len(),
    ensures
        i <= path.len(),
        crossed(node, area, bias, path, prefix)[i].path == prefix + path.take(i),
        ratio_on(node, path.take(i)) == Some(crossed(node, area, bias, path, prefix)[i].ratio),
    decreases node,
{
    if let Node::Split { ratio, first, second } = node {
        let (fa, sa) = (first_part(area, ratio, bias), second_part(area, ratio, bias));
        if i == 0 {
            assert(path.take(0) =~= seq![]);
            assert(prefix + path.take(0) =~= prefix);
        } else {
            let side = path[0];
            let rest = path.skip(1);
            if side == Side::First {
                law_crossed_addresses_splits(*first, fa, bias, rest, prefix.push(side), i - 1);
            } else {
                law_crossed_addresses_splits(*second, sa, bias, rest, prefix.push(side), i - 1);
            }
            assert(prefix.push(side) + rest.take(i - 1) =~= prefix + path.take(i));
            assert(path.take(i).skip(1) =~= rest.take(i - 1));
            assert(path.take(i)[0] == side);
        }
    }
}

/// Exactly one leaf of the tree shows `target`.
pub open spec fn shown_once(node: Node, target: u64) -> bool
    decreases node,
{
    match node {
        Node::Leaf(window) => shows(window, target),
        Node::Split { first, second, .. } => (shown_once(*first, target) && !holds(*second, target))
            || (!holds(*first, target) && shown_once(*second, target)),
    }
}

proof fn lemma_shown_once_is_held(node: Node, target: u64)
    requires
        shown_once(node, target),
    ensures
        holds(node, target),
    decreases node,
{
    match node {
        Node::Leaf(_) => {},
        Node::Split { first, second, .. } => {
            if shown_once(*first, target) && !holds(*second, target) {
                lemma_shown_once_is_held(*first, target);
            } else {
                lemma_shown_once_is_held(*second, target);
            }
        },
    }
}

proof fn lemma_substitute_absent(node: Node, target: u64, window: Window)
    requires
        !holds(node, target),
    ensures
        relabeled(node, substitute(target, window)) == node,
    decreases node,
{
    match node {
        Node::Leaf(_) => {},
        Node::Split { first, second, .. } => {
            lemma_substitute_absent(*first, target, window);
            lemma_substitute_absent(*second, target, window);
        },
    }
}

/// A window that is put beside another, which then goes, is left with exactly the
/// other's place.
pub proof fn law_successor_takes_the_place(node: Node, window: Window, target: u64)
    requires
        shown_once(node, target),
        !shows(window, target),
    ensures
        removed(inserted(node, window, Some(target)), target) == Some(
            relabeled(node, substitute(target, window)),
        ),
    decreases node,
{
    match node {
        Node::Leaf(existing) => {
            reveal_with_fuel(removed, 2);
        },
        Node::Split { first, second, .. } => {
            if shown_once(*first, target) && !holds(*second, target) {
                lemma_shown_once_is_held(*first, target);
                law_successor_takes_the_place(*first, window, target);
                lemma_remove_absent(*second, target);
                lemma_substitute_absent(*second, target, window);
            } else {
                lemma_shown_once_is_held(*second, target);
                law_successor_takes_the_place(*second, window, target);
                lemma_remove_absent(*first, target);
                lemma_substitute_absent(*first, target, window);
            }
        },
    }
}

/// Inserting a window takes none away.
pub proof fn law_insert_keeps_the_others(
    node: Node,
    window: Window,
    target: Option<u64>,
    other: u64,
)
    requires
        holds(node, other),
    ensures
        holds(inserted(node, window, target), other),
    decreases node,
{
    match node {
        Node::Leaf(existing) => {
            reveal_with_fuel(holds, 2);
        },
        Node::Split { first, second, .. } => {
            if target is Some && holds(*first, target->0) {
                if holds(*first, other) {
                    law_insert_keeps_the_others(*first, window, target, other);
                }
            } else {
                if holds(*second, other) {
                    law_insert_keeps_the_others(*second, window, target, other);
                }
            }
        },
    }
}

} // verus!
