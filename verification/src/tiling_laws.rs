//! What the tiling of a workspace is for: who gets which part of the area, and which
//! boundaries move it.

use vstd::prelude::*;

use crate::bsp::{
    areas_of, crossed, exchange, found, holds, home, inserted, last_along, ratio_on, relabeled,
    resize_hit, resize_hits, shows, substitute, swapped, windows_of, BspLayout, CrossedSplit, Node,
    Side, SplitHitView, Window,
};
use crate::config::{MasterOrientation, SplitBias};
use crate::geometry::{axis_of, first_part, second_part, Axis, Rect};
use crate::layouts::{traded, WorkspaceKey};
use crate::master::{
    law_master_rect_per_window, master_rects, quotient, stack_across, stack_pane, strips,
};
use crate::ratio::{
    clamped_units, lemma_single_error, nudged_units, share_of, single, Ratio, FINE,
    HALF_RATIO, MAX_RATIO, MIN_RATIO, ONE,
};
use crate::resize::{handle_of, handles_of, moves_along, split_limit, EPSILON_BITS};

verus! {

proof fn lemma_strips_are_even(across: bool, area: Rect, n: nat, pos: int, len: int, q: int, i: int)
    requires
        0 <= i < n,
        0 <= q,
        q * n <= len <= (q + 1) * n,
        len <= i32::MAX,
    ensures
        strips(across, area, n, pos, len).len() == n,
        ({
            let s = strips(across, area, n, pos, len)[i];
            q <= (if across {
                s.w
            } else {
                s.h
            }) <= q + 1
        }),
    decreases n,
{
    let own = quotient(len, n as int);
    assert(len >= 0) by (nonlinear_arith)
        requires
            q * n <= len,
            q >= 0,
            n >= 0,
    ;
    assert(own == q || (own == q + 1 && len == (q + 1) * n)) by (nonlinear_arith)
        requires
            own == len / n as int,
            n >= 1,
            q * n <= len <= (q + 1) * n,
    ;
    assert(own == q ==> len < (q + 1) * n) by (nonlinear_arith)
        requires
            own == len / n as int,
            n >= 1,
            q * n <= len <= (q + 1) * n,
    ;
    let m = (n - 1) as nat;
    assert(q * m <= len - own <= (q + 1) * m) by (nonlinear_arith)
        requires
            m == n - 1,
            q * n <= len,
            (own == q && len < (q + 1) * n) || (own == q + 1 && len == (q + 1) * n),
    ;
    assert(own <= i32::MAX) by (nonlinear_arith)
        requires
            own == len / n as int,
            n >= 1,
            0 <= len <= i32::MAX,
    ;
    if m == 0 {
        assert(strips(across, area, 0, pos + own, len - own) =~= seq![]);
    } else {
        lemma_strips_are_even(across, area, m, pos + own, len - own, q, if i > 0 { i - 1 } else { 0 });
    }
}

/// In the master layout the stacked windows share evenly: along the stack, no two of them
/// differ by more than a pixel.
pub proof fn law_stacked_windows_share_evenly(
    count: nat,
    area: Rect,
    ratio: Ratio,
    orientation: MasterOrientation,
    i: int,
    j: int,
)
    requires
        area.fits(),
        area.w >= 0,
        area.h >= 0,
        ratio.wf(),
        1 <= i < count,
        1 <= j < count,
    ensures
        ({
            let all = master_rects(count, area, ratio, orientation);
            let beside = orientation == MasterOrientation::Left || orientation
                == MasterOrientation::Right;
            &&& all.len() == count
            &&& beside ==> -1 <= all[i].h - all[j].h <= 1
            &&& !beside ==> -1 <= all[i].w - all[j].w <= 1
        }),
{
    let n = (count - 1) as nat;
    let pane = stack_pane(area, ratio, orientation);
    let across = stack_across(orientation);
    crate::ratio::lemma_share_bounds(area.w as nat, ratio.units as nat);
    crate::ratio::lemma_share_bounds(area.h as nat, ratio.units as nat);
    let (pos, len) = if across {
        (pane.x as int, pane.w as int)
    } else {
        (pane.y as int, pane.h as int)
    };
    let q = len / n as int;
    assert(0 <= q && q * n <= len <= (q + 1) * n) by (nonlinear_arith)
        requires
            q == len / n as int,
            n >= 1,
            len >= 0,
    ;
    lemma_strips_are_even(across, pane, n, pos, len, q, i - 1);
    lemma_strips_are_even(across, pane, n, pos, len, q, j - 1);
    law_master_rect_per_window(count, area, ratio, orientation);
    let all = master_rects(count, area, ratio, orientation);
    let rest = strips(across, pane, n, pos, len);
    assert(all[i] == rest[i - 1]);
    assert(all[j] == rest[j - 1]);
}

proof fn lemma_strips_follow(across: bool, area: Rect, n: nat, pos: int, len: int, i: int)
    requires
        0 <= i < n,
        0 <= len <= i32::MAX,
        i32::MIN <= pos <= pos + len <= i32::MAX,
    ensures
        strips(across, area, n, pos, len).len() == n,
        ({
            let all = strips(across, area, n, pos, len);
            let (here, end) = if across {
                (all[i].x as int, all[i].x + all[i].w)
            } else {
                (all[i].y as int, all[i].y + all[i].h)
            };
            &&& i == 0 ==> here == pos
            &&& i + 1 < n ==> end == if across {
                all[i + 1].x as int
            } else {
                all[i + 1].y as int
            }
            &&& i + 1 == n ==> end == pos + len
            &&& if across {
                all[i].y == area.y && all[i].h == area.h && all[i].w >= 0
            } else {
                all[i].x == area.x && all[i].w == area.w && all[i].h >= 0
            }
        }),
    decreases n,
{
    let own = quotient(len, n as int);
    assert(0 <= own <= len && (n == 1 ==> own == len)) by (nonlinear_arith)
        requires
            own == len / n as int,
            n >= 1,
            len >= 0,
    ;
    let m = (n - 1) as nat;
    let rest = strips(across, area, m, pos + own, len - own);
    let all = strips(across, area, n, pos, len);
    if m == 0 {
        assert(rest =~= seq![]);
    } else {
        lemma_strips_follow(across, area, m, pos + own, len - own, 0);
        if i > 0 {
            lemma_strips_follow(across, area, m, pos + own, len - own, i - 1);
            assert(all[i] == rest[i - 1]);
            if i + 1 < n {
                assert(all[i + 1] == rest[i]);
            }
        } else {
            assert(all[1] == rest[0]);
        }
    }
}

/// In the master layout the first window has its side of the area, over its whole length.
/// The others follow each other in order in what it leaves, the first at the beginning of
/// it, the last up to its end.
pub proof fn law_master_and_stack_in_order(
    count: nat,
    area: Rect,
    ratio: Ratio,
    orientation: MasterOrientation,
    i: int,
)
    requires
        area.fits(),
        area.w >= 0,
        area.h >= 0,
        ratio.wf(),
        1 <= i < count,
    ensures
        ({
            let all = master_rects(count, area, ratio, orientation);
            let m = all[0];
            &&& all.len() == count
            &&& match orientation {
                MasterOrientation::Left => m.x == area.x,
                MasterOrientation::Right => m.x + m.w == area.x + area.w,
                MasterOrientation::Top => m.y == area.y,
                MasterOrientation::Bottom => m.y + m.h == area.y + area.h,
            }
            &&& match orientation {
                MasterOrientation::Left | MasterOrientation::Right => {
                    &&& m.y == area.y && m.h == area.h
                    &&& all[i].w == area.w - m.w
                    &&& all[i].x == if orientation == MasterOrientation::Left {
                        m.x + m.w
                    } else {
                        area.x as int
                    }
                    &&& i == 1 ==> all[i].y == area.y
                    &&& i + 1 < count ==> all[i + 1].y == all[i].y + all[i].h
                    &&& i + 1 == count ==> all[i].y + all[i].h == area.y + area.h
                },
                MasterOrientation::Top | MasterOrientation::Bottom => {
                    &&& m.x == area.x && m.w == area.w
                    &&& all[i].h == area.h - m.h
                    &&& all[i].y == if orientation == MasterOrientation::Top {
                        m.y + m.h
                    } else {
                        area.y as int
                    }
                    &&& i == 1 ==> all[i].x == area.x
                    &&& i + 1 < count ==> all[i + 1].x == all[i].x + all[i].w
                    &&& i + 1 == count ==> all[i].x + all[i].w == area.x + area.w
                },
            }
        }),
{
    let n = (count - 1) as nat;
    let pane = stack_pane(area, ratio, orientation);
    let across = stack_across(orientation);
    crate::ratio::lemma_share_bounds(area.w as nat, ratio.units as nat);
    crate::ratio::lemma_share_bounds(area.h as nat, ratio.units as nat);
    let (pos, len) = if across {
        (pane.x as int, pane.w as int)
    } else {
        (pane.y as int, pane.h as int)
    };
    lemma_strips_follow(across, pane, n, pos, len, i - 1);
    law_master_rect_per_window(count, area, ratio, orientation);
    let all = master_rects(count, area, ratio, orientation);
    let rest = strips(across, pane, n, pos, len);
    assert(all[i] == rest[i - 1]);
    if i + 1 < count {
        assert(all[i + 1] == rest[i]);
    }
}

/// A lone window has the whole area; without windows there is nothing to place.
pub proof fn law_a_lone_window_has_the_area(area: Rect, ratio: Ratio, orientation: MasterOrientation)
    ensures
        master_rects(0, area, ratio, orientation).len() == 0,
        master_rects(1, area, ratio, orientation) == seq![area],
{
}

/// What a fraction takes of a length is the fraction of it, to within little more than half
/// a pixel.
pub proof fn law_a_share_is_its_fraction(w: nat, units: nat)
    requires
        w <= 0x10_0000,
        units <= ONE,
    ensures
        -0x900_0000 <= share_of(w, units) * ONE - w * units <= 0x900_0000,
{
    lemma_single_error(w);
    let p = w * units;
    lemma_single_error(p);
    assert(p <= 0x10_0000 * 0x1000_0000) by (nonlinear_arith)
        requires
            p == w * units,
            w <= 0x10_0000,
            units <= 0x1000_0000,
    ;
    let s = single(p);
    assert(-0x100_0000 <= s - p <= 0x100_0000);
}

/// The master pane takes its fraction of the area, to within little more than half a pixel.
pub proof fn law_the_master_takes_its_fraction(
    count: nat,
    area: Rect,
    ratio: Ratio,
    orientation: MasterOrientation,
)
    requires
        count >= 2,
        area.fits(),
        0 <= area.w <= 0x10_0000,
        0 <= area.h <= 0x10_0000,
        ratio.wf(),
    ensures
        ({
            let m = master_rects(count, area, ratio, orientation)[0];
            match orientation {
                MasterOrientation::Left | MasterOrientation::Right => -0x900_0000 <= m.w * ONE
                    - area.w * ratio.units <= 0x900_0000,
                MasterOrientation::Top | MasterOrientation::Bottom => -0x900_0000 <= m.h * ONE
                    - area.h * ratio.units <= 0x900_0000,
            }
        }),
{
    crate::ratio::lemma_share_bounds(area.w as nat, ratio.units as nat);
    crate::ratio::lemma_share_bounds(area.h as nat, ratio.units as nat);
    law_a_share_is_its_fraction(area.w as nat, ratio.units as nat);
    law_a_share_is_its_fraction(area.h as nat, ratio.units as nat);
}

/// A split takes its fraction for its first side and leaves the rest to its second, which
/// begins where the first ends. Side by side both have the whole height, one above the other
/// the whole width. An area that is at least as wide as it is high is split side by side, a
/// higher one is stacked, unless one or the other is asked for.
pub proof fn law_a_split_runs_across_the_longer_side(area: Rect, ratio: Ratio, bias: SplitBias)
    requires
        area.fits(),
        0 <= area.w <= 0x10_0000,
        0 <= area.h <= 0x10_0000,
        ratio.wf(),
    ensures
        ({
            let (a, b) = (first_part(area, ratio, bias), second_part(area, ratio, bias));
            let beside = bias == SplitBias::Horizontal || (bias == SplitBias::Auto && area.w
                >= area.h);
            &&& a.x == area.x && a.y == area.y
            &&& beside ==> {
                &&& a.h == area.h && b.h == area.h && b.y == area.y
                &&& b.x == a.x + a.w && a.w + b.w == area.w
                &&& -0x900_0000 <= a.w * ONE - area.w * ratio.units <= 0x900_0000
            }
            &&& !beside ==> {
                &&& a.w == area.w && b.w == area.w && b.x == area.x
                &&& b.y == a.y + a.h && a.h + b.h == area.h
                &&& -0x900_0000 <= a.h * ONE - area.h * ratio.units <= 0x900_0000
            }
            &&& (axis_of(area, bias) == Axis::Horizontal) == beside
        }),
{
    crate::ratio::lemma_share_bounds(area.w as nat, ratio.units as nat);
    crate::ratio::lemma_share_bounds(area.h as nat, ratio.units as nat);
    law_a_share_is_its_fraction(area.w as nat, ratio.units as nat);
    law_a_share_is_its_fraction(area.h as nat, ratio.units as nat);
}

/// A fraction that is asked for is the one that is taken where it lies between a twentieth
/// and nineteen twentieths; else it is the nearer of the two.
pub proof fn law_fractions_are_brought_into_range(raw: int, other: int)
    ensures
        ONE <= 20 * MIN_RATIO <= ONE + 20,
        19 * ONE - 320 <= 20 * MAX_RATIO <= 19 * ONE + 320,
        2 * HALF_RATIO == ONE,
        MIN_RATIO <= clamped_units(raw) <= MAX_RATIO,
        MIN_RATIO <= raw <= MAX_RATIO ==> clamped_units(raw) == raw,
        raw <= other ==> clamped_units(raw) <= clamped_units(other),
{
}

/// A nudge moves a fraction by what it says, to within the last digits that a
/// single-precision number keeps.
pub proof fn law_a_nudge_moves_by_its_amount(units: int, delta: int)
    requires
        0 <= units <= ONE,
        0 <= units * FINE + delta <= 0x10_0000_0000_0000,
    ensures
        -0x100_0000 * 17 <= nudged_units(units, delta) * FINE - (units * FINE + delta) <= 0x100_0000
            * 17,
{
    let n = (units * FINE + delta) as nat;
    lemma_single_error(n);
    let s = single(n);
    assert(-0x1000_0000 <= s - n <= 0x1000_0000);
    assert(0 <= s - (s as int / 0x100_0000) * 0x100_0000 < 0x100_0000);
}

/// `after` is `before`, but that the place of the window at `i` is divided evenly between
/// it and a new one, which comes behind it.
pub open spec fn shares_place(
    before: Seq<(Window, Rect)>,
    after: Seq<(Window, Rect)>,
    i: int,
    new: Window,
    bias: SplitBias,
) -> bool {
    let half = Ratio { units: HALF_RATIO };
    &&& 0 <= i < before.len()
    &&& after == before.take(i) + seq![
        (before[i].0, first_part(before[i].1, half, bias)),
        (new, second_part(before[i].1, half, bias)),
    ] + before.skip(i + 1)
}

proof fn lemma_shares_before(
    a: Seq<(Window, Rect)>,
    c: Seq<(Window, Rect)>,
    b: Seq<(Window, Rect)>,
    i: int,
    new: Window,
    bias: SplitBias,
)
    requires
        shares_place(a, c, i, new, bias),
    ensures
        shares_place(a + b, c + b, i, new, bias),
        (a + b)[i] == a[i],
{
    assert((a + b).skip(i + 1) =~= a.skip(i + 1) + b);
    assert((a + b).take(i) =~= a.take(i));
    let half = Ratio { units: HALF_RATIO };
    let two = seq![
        (a[i].0, first_part(a[i].1, half, bias)),
        (new, second_part(a[i].1, half, bias)),
    ];
    assert(a.take(i) + two + a.skip(i + 1) + b =~= a.take(i) + two + (a.skip(i + 1) + b));
}

proof fn lemma_shares_behind(
    a: Seq<(Window, Rect)>,
    b: Seq<(Window, Rect)>,
    c: Seq<(Window, Rect)>,
    i: int,
    new: Window,
    bias: SplitBias,
)
    requires
        shares_place(b, c, i, new, bias),
    ensures
        shares_place(a + b, a + c, a.len() + i, new, bias),
        (a + b)[a.len() + i] == b[i],
{
    let k = a.len() + i;
    assert((a + b).skip(k + 1) =~= b.skip(i + 1));
    assert((a + b).take(k) =~= a + b.take(i));
    let half = Ratio { units: HALF_RATIO };
    let two = seq![
        (b[i].0, first_part(b[i].1, half, bias)),
        (new, second_part(b[i].1, half, bias)),
    ];
    assert(a + (b.take(i) + two + b.skip(i + 1)) =~= (a + b.take(i)) + two + b.skip(i + 1));
}

/// A new window takes the second half of the place of the window it is put beside, which
/// keeps the first; beside nobody, of the last. Every other window keeps its place.
pub proof fn law_a_new_window_shares_one_place(
    node: Node,
    window: Window,
    target: Option<u64>,
    area: Rect,
    bias: SplitBias,
)
    ensures
        ({
            let before = areas_of(node, area, bias);
            let after = areas_of(inserted(node, window, target), area, bias);
            exists|i: int| #[trigger]
                shares_place(before, after, i, window, bias) && if target is Some && holds(
                    node,
                    target->0,
                ) {
                    shows(before[i].0, target->0)
                } else {
                    i == before.len() - 1
                }
        }),
    decreases node,
{
    let before = areas_of(node, area, bias);
    let after = areas_of(inserted(node, window, target), area, bias);
    match node {
        Node::Leaf(existing) => {
            lemma_leaf_shares(existing, window, target, area, bias);
        },
        Node::Split { ratio, first, second } => {
            let (fa, sa) = (first_part(area, ratio, bias), second_part(area, ratio, bias));
            let (a, b) = (areas_of(*first, fa, bias), areas_of(*second, sa, bias));
            if target is Some && holds(*first, target->0) {
                law_a_new_window_shares_one_place(*first, window, target, fa, bias);
                let c = areas_of(inserted(*first, window, target), fa, bias);
                let i = choose|i: int| #[trigger]
                    shares_place(a, c, i, window, bias) && shows(a[i].0, target->0);
                lemma_shares_before(a, c, b, i, window, bias);
                assert(shares_place(before, after, i, window, bias));
            } else {
                law_a_new_window_shares_one_place(*second, window, target, sa, bias);
                let c = areas_of(inserted(*second, window, target), sa, bias);
                let i = choose|i: int| #[trigger]
                    shares_place(b, c, i, window, bias) && if target is Some && holds(
                        *second,
                        target->0,
                    ) {
                        shows(b[i].0, target->0)
                    } else {
                        i == b.len() - 1
                    };
                lemma_shares_behind(a, b, c, i, window, bias);
                assert(shares_place(before, after, a.len() + i, window, bias));
            }
        },
    }
}

proof fn lemma_leaf_shares(
    existing: Window,
    window: Window,
    target: Option<u64>,
    area: Rect,
    bias: SplitBias,
)
    ensures
        ({
            let node = Node::Leaf(existing);
            let before = areas_of(node, area, bias);
            let after = areas_of(inserted(node, window, target), area, bias);
            shares_place(before, after, 0, window, bias) && before.len() == 1 && before[0].0
                == existing
        }),
{
    reveal_with_fuel(areas_of, 2);
    let half = Ratio { units: HALF_RATIO };
    let before = seq![(existing, area)];
    let two = seq![
        (existing, first_part(area, half, bias)),
        (window, second_part(area, half, bias)),
    ];
    assert(before.take(0) + two + before.skip(1) =~= two);
    assert(seq![two[0]] + seq![two[1]] =~= two);
}

/// The part of a tree that a path leads to.
pub open spec fn part_at(node: Node, path: Seq<Side>) -> Option<Node>
    decreases path.len(),
{
    if path.len() == 0 {
        Some(node)
    } else {
        match node {
            Node::Leaf(_) => None,
            Node::Split { first, second, .. } => if path[0] == Side::First {
                part_at(*first, path.skip(1))
            } else {
                part_at(*second, path.skip(1))
            },
        }
    }
}

proof fn lemma_home_is_on_the_way(node: Node, target: u64, i: int)
    requires
        holds(node, target),
        0 <= i <= home(node, target).len(),
    ensures
        part_at(node, home(node, target).take(i)) is Some,
        holds(part_at(node, home(node, target).take(i))->0, target),
        (part_at(node, home(node, target).take(i))->0 is Leaf) == (i == home(node, target).len()),
    decreases node,
{
    let way = home(node, target);
    if i == 0 {
        assert(way.take(0) =~= seq![]);
    } else if let Node::Split { first, second, .. } = node {
        assert(way.take(i)[0] == way[0]);
        if holds(*first, target) {
            let rest = home(*first, target);
            assert(way.take(i).skip(1) =~= rest.take(i - 1));
            lemma_home_is_on_the_way(*first, target, i - 1);
        } else {
            let rest = home(*second, target);
            assert(way.take(i).skip(1) =~= rest.take(i - 1));
            lemma_home_is_on_the_way(*second, target, i - 1);
        }
    }
}

proof fn lemma_last_along(s: Seq<CrossedSplit>, axis: Axis)
    ensures
        -1 <= last_along(s, axis) < s.len(),
        last_along(s, axis) >= 0 ==> s[last_along(s, axis)].axis == axis,
        forall|j: int| last_along(s, axis) < j < s.len() ==> (#[trigger] s[j]).axis != axis,
    decreases s.len(),
{
    if s.len() > 0 && s.last().axis != axis {
        lemma_last_along(s.drop_last(), axis);
        assert forall|j: int| last_along(s, axis) < j < s.len() implies (#[trigger] s[j]).axis
            != axis by {
            if j < s.len() - 1 {
                assert(s[j] == s.drop_last()[j]);
            }
        }
    }
}

proof fn lemma_crossed_to_home(node: Node, target: u64, area: Rect, bias: SplitBias, prefix: Seq<Side>)
    requires
        holds(node, target),
    ensures
        crossed(node, area, bias, home(node, target), prefix).len() == home(node, target).len(),
    decreases node,
{
    if let Node::Split { ratio, first, second } = node {
        let way = home(node, target);
        if holds(*first, target) {
            assert(way.skip(1) =~= home(*first, target));
            lemma_crossed_to_home(
                *first,
                target,
                first_part(area, ratio, bias),
                bias,
                prefix.push(Side::First),
            );
        } else {
            assert(way.skip(1) =~= home(*second, target));
            lemma_crossed_to_home(
                *second,
                target,
                second_part(area, ratio, bias),
                bias,
                prefix.push(Side::Second),
            );
        }
    }
}

/// The boundary that resizes a window along an axis is that of a split around the window.
/// It names the side that the window is on, and no split between it and the window runs the
/// same way. There is one exactly where some split around the window runs that way.
pub proof fn law_a_window_is_resized_by_the_nearest_split(
    node: Node,
    target: u64,
    area: Rect,
    bias: SplitBias,
    axis: Axis,
)
    requires
        holds(node, target),
    ensures
        ({
            let way = crossed(node, area, bias, home(node, target), seq![]);
            let hits = resize_hit(node, target, area, bias, axis);
            &&& hits.len() <= 1
            &&& hits.len() == 1 <==> exists|j: int| 0 <= j < way.len() && (#[trigger] way[j]).axis == axis
            &&& hits.len() == 1 ==> {
                let hit = hits[0];
                let side = hit.target_side;
                let split = part_at(node, hit.path);
                &&& hit.axis == axis
                &&& hit.root_area == area
                &&& side is Some
                &&& split is Some && split->0 is Split
                &&& holds(
                    if side == Some(Side::First) {
                        *split->0->first
                    } else {
                        *split->0->second
                    },
                    target,
                )
                &&& forall|j: int|
                    hit.path.len() < j < way.len() ==> (#[trigger] way[j]).axis != axis
                &&& hit.path.len() < way.len() && way[hit.path.len() as int].area == hit.area
            }
        }),
{
    let home_way = home(node, target);
    let way = crossed(node, area, bias, home_way, seq![]);
    let i = last_along(way, axis);
    lemma_last_along(way, axis);
    lemma_crossed_to_home(node, target, area, bias, seq![]);
    if i >= 0 {
        crate::bsp_laws::law_crossed_addresses_splits(node, area, bias, home_way, seq![], i);
        assert(seq![] + home_way.take(i) =~= home_way.take(i));
        lemma_home_is_on_the_way(node, target, i);
        lemma_home_is_on_the_way(node, target, i + 1);
        lemma_part_step(node, home_way, i);
        assert(way[i].axis == axis);
    }
}

proof fn lemma_part_step(node: Node, way: Seq<Side>, i: int)
    requires
        0 <= i < way.len(),
        part_at(node, way.take(i)) is Some,
        part_at(node, way.take(i))->0 is Split,
    ensures
        part_at(node, way.take(i + 1)) == Some(
            if way[i] == Side::First {
                *(part_at(node, way.take(i))->0->first)
            } else {
                *(part_at(node, way.take(i))->0->second)
            },
        ),
    decreases way.len(),
{
    reveal_with_fuel(part_at, 2);
    if i == 0 {
        assert(way.take(0) =~= seq![]);
        assert(way.take(1).skip(1) =~= seq![]);
    } else {
        let rest = way.skip(1);
        assert(way.take(i).skip(1) =~= rest.take(i - 1));
        assert(way.take(i + 1).skip(1) =~= rest.take(i));
        assert(way.take(i)[0] == way[0]);
        assert(way.take(i + 1)[0] == way[0]);
        assert(rest[i - 1] == way[i]);
        if let Node::Split { first, second, .. } = node {
            if way[0] == Side::First {
                lemma_part_step(*first, rest, i - 1);
            } else {
                lemma_part_step(*second, rest, i - 1);
            }
        }
    }
}

/// A window is resized by a boundary beside it, if there is one, and by one above or below
/// it, if there is one, in this order; a surface that is not tiled by none.
pub proof fn law_one_boundary_for_each_axis(root: Option<Node>, target: u64, area: Rect, bias: SplitBias)
    ensures
        ({
            let hits = resize_hits(root, target, area, bias);
            &&& hits.len() <= 2
            &&& hits.len() == 2 ==> hits[0].axis == Axis::Horizontal && hits[1].axis == Axis::Vertical
            &&& (root is None || !holds(root->0, target)) ==> hits.len() == 0
            &&& root is Some && holds(root->0, target) ==> hits == resize_hit(
                root->0,
                target,
                area,
                bias,
                Axis::Horizontal,
            ) + resize_hit(root->0, target, area, bias, Axis::Vertical)
        }),
{
    if root is Some && holds(root->0, target) {
        law_a_window_is_resized_by_the_nearest_split(root->0, target, area, bias, Axis::Horizontal);
        law_a_window_is_resized_by_the_nearest_split(root->0, target, area, bias, Axis::Vertical);
    }
}

/// Windows that trade places take over each other's place; every other window stays where
/// it was, and no place changes its size.
pub proof fn law_swapped_windows_trade_places(
    node: Node,
    a: u64,
    b: u64,
    area: Rect,
    bias: SplitBias,
    i: int,
)
    requires
        0 <= i < areas_of(node, area, bias).len(),
    ensures
        ({
            let before = areas_of(node, area, bias);
            let after = areas_of(swapped(node, a, b), area, bias);
            &&& after.len() == before.len()
            &&& after[i].1 == before[i].1
            &&& holds(node, a) && holds(node, b) ==> {
                &&& shows(before[i].0, a) ==> shows(after[i].0, b)
                &&& shows(before[i].0, b) ==> shows(after[i].0, a)
            }
            &&& !shows(before[i].0, a) && !shows(before[i].0, b) ==> after[i].0 == before[i].0
            &&& !holds(node, a) || !holds(node, b) ==> after[i].0 == before[i].0
        }),
{
    lemma_found_shows(node, a);
    lemma_found_shows(node, b);
    if found(node, a) is Some && found(node, b) is Some {
        crate::bsp_laws::law_relabel_keeps_the_shape(
            node,
            exchange(a, found(node, a)->0, b, found(node, b)->0),
            area,
            bias,
        );
    }
}

proof fn lemma_found_shows(node: Node, target: u64)
    ensures
        found(node, target) is Some <==> holds(node, target),
        found(node, target) is Some ==> shows(found(node, target)->0, target) && windows_of(
            node,
        ).contains(found(node, target)->0),
    decreases node,
{
    match node {
        Node::Leaf(window) => {
            assert(windows_of(node)[0] == window);
        },
        Node::Split { first, second, .. } => {
            lemma_found_shows(*first, target);
            lemma_found_shows(*second, target);
            let (a, b) = (windows_of(*first), windows_of(*second));
            if holds(*first, target) {
                let i = choose|i: int| 0 <= i < a.len() && a[i] == found(*first, target)->0;
                assert((a + b)[i] == a[i]);
            } else if holds(*second, target) {
                let i = choose|i: int| 0 <= i < b.len() && b[i] == found(*second, target)->0;
                assert((a + b)[a.len() + i] == b[i]);
            }
        },
    }
}

/// The window that is found for a surface is one of the tree, and shows the surface; it is
/// found exactly where the tree has such a one.
pub proof fn law_the_window_of_a_surface_is_found(node: Node, target: u64)
    ensures
        match found(node, target) {
            Some(window) => window.surface == Some(target) && windows_of(node).contains(window),
            None => forall|i: int|
                0 <= i < windows_of(node).len() ==> (#[trigger] windows_of(node)[i]).surface != Some(
                    target,
                ),
        },
{
    lemma_found_shows(node, target);
    crate::bsp_laws::law_holds_is_membership(node, target);
    let ws = windows_of(node);
    assert forall|i: int| found(node, target) is None && 0 <= i < ws.len() implies (
    #[trigger] ws[i]).surface != Some(target) by {
        assert(!shows(ws[i], target));
    }
}

/// A window that is put in the place of another has exactly that place; the others stay.
pub proof fn law_a_replacement_takes_the_place(
    node: Node,
    gone: u64,
    new: Window,
    area: Rect,
    bias: SplitBias,
    i: int,
)
    requires
        0 <= i < areas_of(node, area, bias).len(),
    ensures
        ({
            let before = areas_of(node, area, bias);
            let after = areas_of(relabeled(node, substitute(gone, new)), area, bias);
            &&& after.len() == before.len()
            &&& after[i].1 == before[i].1
            &&& before[i].0.surface == Some(gone) ==> after[i].0 == new
            &&& before[i].0.surface != Some(gone) ==> after[i].0 == before[i].0
        }),
{
    crate::bsp_laws::law_relabel_keeps_the_shape(node, substitute(gone, new), area, bias);
}

/// What was tiled on one of two workspaces that trade places is then on the other; all other
/// workspaces stay as they were.
pub proof fn law_workspaces_trade_what_they_hold(
    trees: Map<WorkspaceKey, BspLayout>,
    a: WorkspaceKey,
    b: WorkspaceKey,
    k: WorkspaceKey,
)
    ensures
        ({
            let after = traded(trees, a, b);
            &&& after.contains_key(a) == trees.contains_key(b)
            &&& after.contains_key(b) == trees.contains_key(a)
            &&& trees.contains_key(b) ==> after[a] == trees[b]
            &&& trees.contains_key(a) ==> after[b] == trees[a]
            &&& k != a && k != b ==> after.contains_key(k) == trees.contains_key(k) && after[k]
                == trees[k]
        }),
{
}

proof fn lemma_handles_come_from_splits(
    splits: Seq<CrossedSplit>,
    hit: SplitHitView,
    magnitudes: Seq<u32>,
    limit: nat,
    i: int,
)
    requires
        0 <= i < handles_of(splits, hit, magnitudes, limit).len(),
    ensures
        exists|j: int|
            0 <= j < splits.len() && moves_along(#[trigger] splits[j], hit, magnitudes)
                && handles_of(splits, hit, magnitudes, limit)[i] == handle_of(
                splits[j],
                hit,
                magnitudes[hit.path.len() - splits[j].path.len()],
            ),
    decreases splits.len(),
{
    let c = splits.last();
    let rest = splits.drop_last();
    if moves_along(c, hit, magnitudes) {
        if i == 0 {
            assert(splits[splits.len() - 1] == c);
        } else {
            let m = (limit - 1) as nat;
            assert(handles_of(splits, hit, magnitudes, limit)[i] == handles_of(
                rest,
                hit,
                magnitudes,
                m,
            )[i - 1]);
            lemma_handles_come_from_splits(rest, hit, magnitudes, m, i - 1);
            let j = choose|j: int|
                0 <= j < rest.len() && moves_along(#[trigger] rest[j], hit, magnitudes)
                    && handles_of(rest, hit, magnitudes, m)[i - 1] == handle_of(
                    rest[j],
                    hit,
                    magnitudes[hit.path.len() - rest[j].path.len()],
                );
            assert(splits[j] == rest[j]);
        }
    } else {
        lemma_handles_come_from_splits(rest, hit, magnitudes, limit, i);
        let j = choose|j: int|
            0 <= j < rest.len() && moves_along(#[trigger] rest[j], hit, magnitudes) && handles_of(
                rest,
                hit,
                magnitudes,
                limit,
            )[i] == handle_of(rest[j], hit, magnitudes[hit.path.len() - rest[j].path.len()]);
        assert(splits[j] == rest[j]);
    }
}

/// Every split that a resize moves is the dragged one or one around it, runs the same way,
/// and starts from the fraction it has in the tree. Its weight is the one that its distance
/// from the dragged split is given, and counts. A border that is dragged itself takes every
/// split along in the pointer's direction; a window that is resized grows: a split that has
/// the window in its second part moves against the pointer, one that has it in its first
/// part with it.
pub proof fn law_a_resize_moves_the_splits_around(
    node: Node,
    area: Rect,
    bias: SplitBias,
    hit: SplitHitView,
    magnitudes: Seq<u32>,
    limit: nat,
    i: int,
)
    requires
        magnitudes.len() > hit.path.len(),
        0 <= i < handles_of(
            crossed(node, area, bias, hit.path, seq![]),
            hit,
            magnitudes,
            limit,
        ).len(),
    ensures
        ({
            let h = handles_of(
                crossed(node, area, bias, hit.path, seq![]),
                hit,
                magnitudes,
                limit,
            )[i];
            let depth = h.hit.path.len() as int;
            &&& depth <= hit.path.len()
            &&& h.hit.path == hit.path.take(depth)
            &&& h.hit.axis == hit.axis
            &&& h.hit.output == hit.output && h.hit.workspace == hit.workspace
            &&& h.hit.topology_revision == hit.topology_revision
            &&& ratio_on(node, h.hit.path) == Some(h.start_ratio)
            &&& h.weight.magnitude == magnitudes[hit.path.len() - depth]
            &&& h.weight.magnitude > 0
            &&& h.weight.negative == (h.hit.target_side == Some(Side::Second))
            &&& hit.target_side is None ==> h.hit.target_side is None && !h.weight.negative
            &&& hit.target_side is Some ==> {
                &&& depth == hit.path.len() ==> h.weight.negative == (hit.target_side == Some(
                    Side::Second,
                ))
                &&& depth < hit.path.len() ==> h.weight.negative == (hit.path[depth]
                    == Side::Second)
            }
        }),
{
    let splits = crossed(node, area, bias, hit.path, seq![]);
    lemma_handles_come_from_splits(splits, hit, magnitudes, limit, i);
    let j = choose|j: int|
        0 <= j < splits.len() && moves_along(#[trigger] splits[j], hit, magnitudes) && handles_of(
            splits,
            hit,
            magnitudes,
            limit,
        )[i] == handle_of(splits[j], hit, magnitudes[hit.path.len() - splits[j].path.len()]);
    crate::bsp_laws::law_crossed_addresses_splits(node, area, bias, hit.path, seq![], j);
    assert(seq![] + hit.path.take(j) =~= hit.path.take(j));
}

proof fn lemma_handles_are_all_there(
    splits: Seq<CrossedSplit>,
    hit: SplitHitView,
    magnitudes: Seq<u32>,
    limit: nat,
    j: int,
)
    requires
        0 <= j < splits.len(),
        splits[j].axis == hit.axis,
        magnitudes[hit.path.len() - splits[j].path.len()] > EPSILON_BITS,
        handles_of(splits, hit, magnitudes, limit).len() < limit,
    ensures
        exists|i: int|
            0 <= i < handles_of(splits, hit, magnitudes, limit).len() && (#[trigger] handles_of(
                splits,
                hit,
                magnitudes,
                limit,
            )[i]).hit.path == splits[j].path,
    decreases splits.len(),
{
    let c = splits.last();
    let rest = splits.drop_last();
    let all = handles_of(splits, hit, magnitudes, limit);
    if moves_along(c, hit, magnitudes) {
        let m = (limit - 1) as nat;
        let tail = handles_of(rest, hit, magnitudes, m);
        if j == splits.len() - 1 {
            assert(all[0].hit.path == c.path);
        } else {
            assert(rest[j] == splits[j]);
            lemma_handles_are_all_there(rest, hit, magnitudes, m, j);
            let i = choose|i: int|
                0 <= i < tail.len() && (#[trigger] tail[i]).hit.path == rest[j].path;
            assert(all[i + 1] == tail[i]);
        }
    } else {
        assert(j < splits.len() - 1);
        assert(rest[j] == splits[j]);
        lemma_handles_are_all_there(rest, hit, magnitudes, limit, j);
    }
}

/// Where a resize moves fewer splits than it may, it moves every parallel split around the
/// dragged one whose weight counts.
pub proof fn law_a_resize_leaves_no_parallel_split_out(
    node: Node,
    area: Rect,
    bias: SplitBias,
    hit: SplitHitView,
    magnitudes: Seq<u32>,
    limit: nat,
    depth: int,
)
    requires
        0 <= depth < crossed(node, area, bias, hit.path, seq![]).len(),
        crossed(node, area, bias, hit.path, seq![])[depth].axis == hit.axis,
        magnitudes[hit.path.len() - depth] > 0x3400_0000,
        handles_of(
            crossed(node, area, bias, hit.path, seq![]),
            hit,
            magnitudes,
            limit,
        ).len() < limit,
    ensures
        ({
            let all = handles_of(
                crossed(node, area, bias, hit.path, seq![]),
                hit,
                magnitudes,
                limit,
            );
            exists|i: int|
                0 <= i < all.len() && (#[trigger] all[i]).hit.path == hit.path.take(depth)
        }),
{
    let splits = crossed(node, area, bias, hit.path, seq![]);
    crate::bsp_laws::law_crossed_addresses_splits(node, area, bias, hit.path, seq![], depth);
    assert(seq![] + hit.path.take(depth) =~= hit.path.take(depth));
    assert(splits[depth].path.len() == depth);
    lemma_handles_are_all_there(splits, hit, magnitudes, limit, depth);
}

/// At least one split may move, however few are allowed.
pub proof fn law_the_dragged_split_may_always_move(max_splits: u8)
    ensures
        split_limit(max_splits) >= 1,
        max_splits >= 1 ==> split_limit(max_splits) == max_splits,
{
}

} // verus!
