//! The master layout: one pane takes its fraction of the area, the others share
//! the rest evenly.

use vstd::prelude::*;

use crate::bsp::{with_gaps, Window};
use crate::config::MasterOrientation;
use crate::geometry::{gap_fits, inset, inset_fits, Rect};
use crate::ratio::{share, Ratio};

verus! {

/// A whole-number quotient, rounded towards zero.
pub open spec fn quotient(a: int, n: int) -> int {
    if a >= 0 {
        a / n
    } else {
        -((-a) / n)
    }
}

/// A strip of the stack: across it, where it begins and how long it is, with the
/// other extent given.
pub open spec fn strip(across: bool, area: Rect, pos: int, len: int) -> Rect {
    if across {
        Rect { x: pos as i32, w: len as i32, ..area }
    } else {
        Rect { y: pos as i32, h: len as i32, ..area }
    }
}

/// `n` strips of `area`, side by side or one above the other, that begin at `pos`
/// and have `len` to share: each takes its even share of what is still left.
pub open spec fn strips(across: bool, area: Rect, n: nat, pos: int, len: int) -> Seq<Rect>
    decreases n,
{
    if n == 0 {
        seq![]
    } else {
        let own = quotient(len, n as int);
        seq![strip(across, area, pos, own)] + strips(
            across,
            area,
            (n - 1) as nat,
            pos + own,
            len - own,
        )
    }
}

/// The pane of the first window.
pub open spec fn master_pane(area: Rect, ratio: Ratio, orientation: MasterOrientation) -> Rect {
    let w = share(area.w as int, ratio.units as nat);
    let h = share(area.h as int, ratio.units as nat);
    match orientation {
        MasterOrientation::Left => Rect { w: w as i32, ..area },
        MasterOrientation::Right => Rect { x: (area.x + (area.w - w)) as i32, w: w as i32, ..area },
        MasterOrientation::Top => Rect { h: h as i32, ..area },
        MasterOrientation::Bottom => Rect { y: (area.y + (area.h - h)) as i32, h: h as i32, ..area },
    }
}

/// What the master pane leaves to the stack.
pub open spec fn stack_pane(area: Rect, ratio: Ratio, orientation: MasterOrientation) -> Rect {
    let w = share(area.w as int, ratio.units as nat);
    let h = share(area.h as int, ratio.units as nat);
    match orientation {
        MasterOrientation::Left => Rect { x: (area.x + w) as i32, w: (area.w - w) as i32, ..area },
        MasterOrientation::Right => Rect { w: (area.w - w) as i32, ..area },
        MasterOrientation::Top => Rect { y: (area.y + h) as i32, h: (area.h - h) as i32, ..area },
        MasterOrientation::Bottom => Rect { h: (area.h - h) as i32, ..area },
    }
}

/// The stack runs across the area: its strips stand side by side.
pub open spec fn stack_across(orientation: MasterOrientation) -> bool {
    orientation == MasterOrientation::Top || orientation == MasterOrientation::Bottom
}

/// The strips of the whole of `pane`.
pub open spec fn stack_of(pane: Rect, across: bool, n: nat) -> Seq<Rect> {
    if across {
        strips(across, pane, n, pane.x as int, pane.w as int)
    } else {
        strips(across, pane, n, pane.y as int, pane.h as int)
    }
}

/// The rectangles of `count` windows: a lone one has the whole area; else the
/// first has the master pane, and the others share what it leaves.
pub open spec fn master_rects(
    count: nat,
    area: Rect,
    ratio: Ratio,
    orientation: MasterOrientation,
) -> Seq<Rect> {
    if count == 0 {
        seq![]
    } else if count == 1 {
        seq![area]
    } else {
        seq![master_pane(area, ratio, orientation)] + stack_of(
            stack_pane(area, ratio, orientation),
            stack_across(orientation),
            (count - 1) as nat,
        )
    }
}

proof fn lemma_quotient(a: int, n: int)
    requires
        n >= 1,
    ensures
        a >= 0 ==> 0 <= quotient(a, n) <= a,
        a <= 0 ==> a <= quotient(a, n) <= 0,
        n == 1 ==> quotient(a, n) == a,
{
    let m = if a >= 0 {
        a
    } else {
        -a
    };
    assert(0 <= m / n <= m) by (nonlinear_arith)
        requires
            m >= 0,
            n >= 1,
    ;
}

fn divide(a: i32, n: i32) -> (r: i32)
    requires
        n >= 1,
    ensures
        r == quotient(a as int, n as int),
{
    proof {
        lemma_quotient(a as int, n as int);
    }
    if a >= 0 {
        ((a as u32) / (n as u32)) as i32
    } else {
        let m: u32 = (-(a as i64)) as u32;
        let q: u32 = m / (n as u32);
        (-(q as i64)) as i32
    }
}

/// The pure geometry of the master layout: one rectangle per window, the master
/// pane first.
pub fn layout_master_rects(
    count: usize,
    area: Rect,
    master_ratio: Ratio,
    orientation: MasterOrientation,
) -> (r: Vec<Rect>)
    requires
        count <= i32::MAX,
        area.fits(),
        master_ratio.wf(),
    ensures
        r@ == master_rects(count as nat, area, master_ratio, orientation),
{
    let mut out: Vec<Rect> = Vec::new();
    if count == 0 {
        return out;
    }
    if count == 1 {
        out.push(area);
        return out;
    }
    let (across, master, pane) = match orientation {
        MasterOrientation::Left | MasterOrientation::Right => {
            let master_w: i32 = master_ratio.of(area.w);
            let stack_w: i32 = area.w - master_w;
            let (master_x, stack_x): (i32, i32) = if orientation == MasterOrientation::Left {
                (area.x, area.x + master_w)
            } else {
                (area.x + stack_w, area.x)
            };
            (
                false,
                Rect { x: master_x, y: area.y, w: master_w, h: area.h },
                Rect { x: stack_x, y: area.y, w: stack_w, h: area.h },
            )
        },
        MasterOrientation::Top | MasterOrientation::Bottom => {
            let master_h: i32 = master_ratio.of(area.h);
            let stack_h: i32 = area.h - master_h;
            let (master_y, stack_y): (i32, i32) = if orientation == MasterOrientation::Top {
                (area.y, area.y + master_h)
            } else {
                (area.y + stack_h, area.y)
            };
            (
                true,
                Rect { x: area.x, y: master_y, w: area.w, h: master_h },
                Rect { x: area.x, y: stack_y, w: area.w, h: stack_h },
            )
        },
    };
    assert(master == master_pane(area, master_ratio, orientation));
    assert(pane == stack_pane(area, master_ratio, orientation));
    assert(across == stack_across(orientation));
    out.push(master);
    let mut pos: i32 = if across {
        pane.x
    } else {
        pane.y
    };
    let mut remaining: i32 = if across {
        pane.w
    } else {
        pane.h
    };
    let mut left: i32 = (count - 1) as i32;
    let ghost whole = master_rects(count as nat, area, master_ratio, orientation);
    assert(out@ + strips(across, pane, left as nat, pos as int, remaining as int) =~= whole);
    while left > 0
        invariant
            left >= 0,
            i32::MIN <= pos + remaining <= i32::MAX,
            out@ + strips(across, pane, left as nat, pos as int, remaining as int) == whole,
        decreases left,
    {
        proof {
            lemma_quotient(remaining as int, left as int);
        }
        let own: i32 = divide(remaining, left);
        let rect = if across {
            Rect { x: pos, y: pane.y, w: own, h: pane.h }
        } else {
            Rect { x: pane.x, y: pos, w: pane.w, h: own }
        };
        let ghost before = out@;
        out.push(rect);
        proof {
            let rest = strips(across, pane, (left - 1) as nat, pos + own, remaining - own);
            assert(rect == strip(across, pane, pos as int, own as int));
            assert(before + (seq![rect] + rest) =~= before.push(rect) + rest);
        }
        pos = pos + own;
        remaining = remaining - own;
        left = left - 1;
    }
    assert(out@ + seq![] =~= out@);
    out
}

/// Windows and rectangles, one by one.
pub open spec fn paired(windows: Seq<Window>, rects: Seq<Rect>) -> Seq<(Window, Rect)> {
    Seq::new(windows.len(), |i: int| (windows[i], rects[i]))
}

proof fn lemma_strips_len(across: bool, area: Rect, n: nat, pos: int, len: int)
    ensures
        strips(across, area, n, pos, len).len() == n,
    decreases n,
{
    if n > 0 {
        let own = quotient(len, n as int);
        lemma_strips_len(across, area, (n - 1) as nat, pos + own, len - own);
    }
}

/// There is one rectangle per window.
pub proof fn law_master_rect_per_window(
    count: nat,
    area: Rect,
    ratio: Ratio,
    orientation: MasterOrientation,
)
    ensures
        master_rects(count, area, ratio, orientation).len() == count,
{
    if count > 1 {
        let pane = stack_pane(area, ratio, orientation);
        lemma_strips_len(true, pane, (count - 1) as nat, pane.x as int, pane.w as int);
        lemma_strips_len(false, pane, (count - 1) as nat, pane.y as int, pane.h as int);
    }
}

proof fn lemma_strips_gap(across: bool, pane: Rect, n: nat, pos: int, len: int, gap: int, i: int)
    requires
        i32::MIN <= pos <= i32::MAX,
        i32::MIN <= len <= i32::MAX,
        gap_fits(pane, gap),
        i32::MIN <= pos + gap <= i32::MAX,
        i32::MIN <= pos + len + gap <= i32::MAX,
        i32::MIN <= len - 2 * gap <= i32::MAX,
        i32::MIN <= pos + len <= i32::MAX,
        0 <= i < strips(across, pane, n, pos, len).len(),
    ensures
        inset_fits(strips(across, pane, n, pos, len)[i], gap),
    decreases n,
{
    if n > 0 {
        let own = quotient(len, n as int);
        lemma_quotient(len, n as int);
        if i > 0 {
            lemma_strips_gap(across, pane, (n - 1) as nat, pos + own, len - own, gap, i - 1);
        }
    }
}

proof fn lemma_master_gap(
    count: nat,
    area: Rect,
    ratio: Ratio,
    orientation: MasterOrientation,
    gap: int,
    i: int,
)
    requires
        gap_fits(area, gap),
        ratio.wf(),
        0 <= i < master_rects(count, area, ratio, orientation).len(),
    ensures
        inset_fits(master_rects(count, area, ratio, orientation)[i], gap),
{
    let (w, h) = (area.w as int, area.h as int);
    crate::ratio::lemma_share_bounds((if w >= 0 { w } else { -w }) as nat, ratio.units as nat);
    crate::ratio::lemma_share_bounds((if h >= 0 { h } else { -h }) as nat, ratio.units as nat);
    if count > 1 && i > 0 {
        let pane = stack_pane(area, ratio, orientation);
        let across = stack_across(orientation);
        assert(gap_fits(pane, gap));
        if across {
            lemma_strips_gap(
                across,
                pane,
                (count - 1) as nat,
                pane.x as int,
                pane.w as int,
                gap,
                i - 1,
            );
        } else {
            lemma_strips_gap(
                across,
                pane,
                (count - 1) as nat,
                pane.y as int,
                pane.h as int,
                gap,
                i - 1,
            );
        }
    }
}

/// The rectangle of every window within `area`, drawn in by `gap`.
pub fn layout_master(
    windows: &Vec<Window>,
    area: Rect,
    gap: i32,
    master_ratio: Ratio,
    orientation: MasterOrientation,
) -> (r: Vec<(Window, Rect)>)
    requires
        windows@.len() <= i32::MAX,
        gap_fits(area, gap as int),
        master_ratio.wf(),
    ensures
        r@ == with_gaps(
            paired(
                windows@,
                master_rects(windows@.len() as nat, area, master_ratio, orientation),
            ),
            gap as int,
        ),
{
    let rects: Vec<Rect> = layout_master_rects(windows.len(), area, master_ratio, orientation);
    let mut out: Vec<(Window, Rect)> = Vec::new();
    let mut i: usize = 0;
    proof {
        law_master_rect_per_window(windows@.len() as nat, area, master_ratio, orientation);
    }
    while i < windows.len()
        invariant
            i <= windows@.len(),
            rects@.len() == windows@.len(),
            rects@ == master_rects(windows@.len() as nat, area, master_ratio, orientation),
            gap_fits(area, gap as int),
            master_ratio.wf(),
            out@ == with_gaps(paired(windows@, rects@), gap as int).take(i as int),
        decreases windows@.len() - i,
    {
        proof {
            lemma_master_gap(
                windows@.len() as nat,
                area,
                master_ratio,
                orientation,
                gap as int,
                i as int,
            );
        }
        out.push((windows[i], inset(rects[i], gap)));
        i += 1;
        proof {
            let all = with_gaps(paired(windows@, rects@), gap as int);
            assert(all.take(i as int) =~= all.take(i - 1).push(all[i - 1]));
        }
    }
    assert(out@ =~= with_gaps(paired(windows@, rects@), gap as int));
    out
}

proof fn lemma_strips_tile(
    across: bool,
    pane: Rect,
    n: nat,
    pos: int,
    len: int,
    px: int,
    py: int,
)
    requires
        n >= 1,
        0 <= len <= i32::MAX,
        i32::MIN <= pos,
        pos + len <= i32::MAX,
        pane.fits(),
    ensures
        ({
            let all = strips(across, pane, n, pos, len);
            &&& strip(across, pane, pos, len).covers(px, py) <==> exists|i: int|
                0 <= i < all.len() && (#[trigger] all[i]).covers(px, py)
            &&& forall|i: int, j: int|
                0 <= i < all.len() && 0 <= j < all.len() && (#[trigger] all[i]).covers(px, py) && (
                #[trigger] all[j]).covers(px, py) ==> i == j
        }),
    decreases n,
{
    let all = strips(across, pane, n, pos, len);
    let own = quotient(len, n as int);
    lemma_quotient(len, n as int);
    let head = strip(across, pane, pos, own);
    let whole = strip(across, pane, pos, len);
    assert(all[0] == head);
    if n == 1 {
        assert(strips(across, pane, 0, pos + own, len - own) =~= seq![]);
        assert(all.len() == 1);
    } else {
        let rest = strips(across, pane, (n - 1) as nat, pos + own, len - own);
        lemma_strips_tile(across, pane, (n - 1) as nat, pos + own, len - own, px, py);
        let tail = strip(across, pane, pos + own, len - own);
        assert(whole.covers(px, py) <==> head.covers(px, py) || tail.covers(px, py));
        assert(!(head.covers(px, py) && tail.covers(px, py)));
        assert forall|i: int| 1 <= i < all.len() implies (#[trigger] all[i]) == rest[i - 1] by {}
        if tail.covers(px, py) {
            let k = choose|k: int| 0 <= k < rest.len() && (#[trigger] rest[k]).covers(px, py);
            assert(all[k + 1] == rest[k]);
        }
        assert forall|i: int| 1 <= i < all.len() && (#[trigger] all[i]).covers(px, py) implies tail.covers(
            px,
            py,
        ) && rest[i - 1].covers(px, py) by {
            assert(rest[i - 1].covers(px, py));
        }
    }
}

/// Before gaps are taken, the windows of the master layout tile its area: every
/// pixel of the area belongs to exactly one of them, and they cover nothing else.
pub proof fn law_master_tiles_the_area(
    count: nat,
    area: Rect,
    ratio: Ratio,
    orientation: MasterOrientation,
    px: int,
    py: int,
)
    requires
        count >= 1,
        area.fits(),
        area.w >= 0,
        area.h >= 0,
        ratio.wf(),
    ensures
        ({
            let all = master_rects(count, area, ratio, orientation);
            &&& area.covers(px, py) <==> exists|i: int|
                0 <= i < all.len() && (#[trigger] all[i]).covers(px, py)
            &&& forall|i: int, j: int|
                0 <= i < all.len() && 0 <= j < all.len() && (#[trigger] all[i]).covers(px, py) && (
                #[trigger] all[j]).covers(px, py) ==> i == j
        }),
{
    let all = master_rects(count, area, ratio, orientation);
    if count == 1 {
        assert(all[0] == area);
    } else {
        crate::ratio::lemma_share_bounds(area.w as nat, ratio.units as nat);
        crate::ratio::lemma_share_bounds(area.h as nat, ratio.units as nat);
        let master = master_pane(area, ratio, orientation);
        let pane = stack_pane(area, ratio, orientation);
        let across = stack_across(orientation);
        let n = (count - 1) as nat;
        let rest = stack_of(pane, across, n);
        let (pos, len) = if across {
            (pane.x as int, pane.w as int)
        } else {
            (pane.y as int, pane.h as int)
        };
        lemma_strips_tile(across, pane, n, pos, len, px, py);
        assert(strip(across, pane, pos, len) == pane);
        assert(area.covers(px, py) <==> master.covers(px, py) || pane.covers(px, py));
        assert(!(master.covers(px, py) && pane.covers(px, py)));
        assert(all[0] == master);
        assert forall|i: int| 1 <= i < all.len() implies (#[trigger] all[i]) == rest[i - 1] by {}
        if pane.covers(px, py) {
            let k = choose|k: int| 0 <= k < rest.len() && (#[trigger] rest[k]).covers(px, py);
            assert(all[k + 1] == rest[k]);
        }
        assert forall|i: int| 1 <= i < all.len() && (#[trigger] all[i]).covers(px, py) implies pane.covers(
            px,
            py,
        ) && rest[i - 1].covers(px, py) by {
            assert(rest[i - 1].covers(px, py));
        }
    }
}

/// Strips of two panes, that begin alike and share alike, differ only by what the panes
/// give them.
proof fn lemma_strips_of_two(across: bool, a: Rect, b: Rect, n: nat, pos: int, len: int, i: int)
    requires
        0 <= i < n,
    ensures
        strips(across, a, n, pos, len).len() == n,
        strips(across, b, n, pos, len).len() == n,
        ({
            let (s, t) = (strips(across, a, n, pos, len)[i], strips(across, b, n, pos, len)[i]);
            if across {
                s.x == t.x && s.w == t.w && s.y == a.y && s.h == a.h && t.y == b.y && t.h == b.h
            } else {
                s.y == t.y && s.h == t.h && s.x == a.x && s.w == a.w && t.x == b.x && t.w == b.w
            }
        }),
    decreases n,
{
    lemma_strips_len(across, a, n, pos, len);
    lemma_strips_len(across, b, n, pos, len);
    let own = quotient(len, n as int);
    if i > 0 {
        lemma_strips_of_two(across, a, b, (n - 1) as nat, pos + own, len - own, i - 1);
    }
}

/// The master pane on the right mirrors the one on the left: every window keeps its size
/// and its rows, and is as far from the right side as it was from the left. In the same
/// way the one at the bottom mirrors the one at the top.
pub proof fn law_opposite_orientations_mirror(count: nat, area: Rect, ratio: Ratio, i: int)
    requires
        area.fits(),
        ratio.wf(),
        0 <= i < count,
    ensures
        ({
            let left = master_rects(count, area, ratio, MasterOrientation::Left);
            let right = master_rects(count, area, ratio, MasterOrientation::Right);
            &&& left.len() == count && right.len() == count
            &&& right[i].w == left[i].w && right[i].h == left[i].h && right[i].y == left[i].y
            &&& right[i].x - area.x == (area.x + area.w) - (left[i].x + left[i].w)
        }),
        ({
            let top = master_rects(count, area, ratio, MasterOrientation::Top);
            let bottom = master_rects(count, area, ratio, MasterOrientation::Bottom);
            &&& top.len() == count && bottom.len() == count
            &&& bottom[i].w == top[i].w && bottom[i].h == top[i].h && bottom[i].x == top[i].x
            &&& bottom[i].y - area.y == (area.y + area.h) - (top[i].y + top[i].h)
        }),
{
    law_master_rect_per_window(count, area, ratio, MasterOrientation::Left);
    law_master_rect_per_window(count, area, ratio, MasterOrientation::Right);
    law_master_rect_per_window(count, area, ratio, MasterOrientation::Top);
    law_master_rect_per_window(count, area, ratio, MasterOrientation::Bottom);
    if count > 1 {
        let (w, h) = (area.w as int, area.h as int);
        crate::ratio::lemma_share_bounds((if w >= 0 { w } else { -w }) as nat, ratio.units as nat);
        crate::ratio::lemma_share_bounds((if h >= 0 { h } else { -h }) as nat, ratio.units as nat);
        if i > 0 {
            let n = (count - 1) as nat;
            let left = stack_pane(area, ratio, MasterOrientation::Left);
            let right = stack_pane(area, ratio, MasterOrientation::Right);
            lemma_strips_of_two(false, left, right, n, area.y as int, area.h as int, i - 1);
            let top = stack_pane(area, ratio, MasterOrientation::Top);
            let bottom = stack_pane(area, ratio, MasterOrientation::Bottom);
            lemma_strips_of_two(true, top, bottom, n, area.x as int, area.w as int, i - 1);
        }
    }
}

} // verus!
