//! Rectangles, and how one is divided in two.

use vstd::prelude::*;

use crate::config::SplitBias;
use crate::ratio::{share, Ratio};

verus! {

/// A rectangle in logical pixels.
#[derive(Clone, Copy, PartialEq, Eq, Structural, Debug)]
pub struct Rect {
    pub x: i32,
    pub y: i32,
    pub w: i32,
    pub h: i32,
}

/// A position, in steps of which a pixel has 65536. Even steps are exact; whatever lies
/// strictly between two of them counts as the odd one between them.
#[derive(Clone, Copy, PartialEq, Eq, Structural, Debug)]
pub struct FinePoint {
    pub x: i64,
    pub y: i64,
}

/// Which way a split's shared border separates its two sides.
#[derive(Debug, Clone, Copy, PartialEq, Eq, Structural)]
pub enum Axis {
    /// Side by side.
    Horizontal,
    /// One above the other.
    Vertical,
}

impl Rect {
    /// The far corner is a position too.
    pub open spec fn fits(self) -> bool {
        &&& i32::MIN <= self.x + self.w <= i32::MAX
        &&& i32::MIN <= self.y + self.h <= i32::MAX
    }

    /// The pixel at (`px`, `py`) belongs to the rectangle.
    pub open spec fn covers(self, px: int, py: int) -> bool {
        self.x <= px < self.x + self.w && self.y <= py < self.y + self.h
    }

    /// The position belongs to the rectangle.
    pub open spec fn has_point(self, p: FinePoint) -> bool {
        &&& 65536 * self.x <= p.x < 65536 * (self.x + self.w)
        &&& 65536 * self.y <= p.y < 65536 * (self.y + self.h)
    }

    /// The rectangle lies inside `outer`.
    pub open spec fn within(self, outer: Rect) -> bool {
        &&& outer.x <= self.x
        &&& self.x + self.w <= outer.x + outer.w
        &&& outer.y <= self.y
        &&& self.y + self.h <= outer.y + outer.h
    }
}

/// Whether `point` lies in `rect`.
pub fn rect_contains(rect: Rect, point: FinePoint) -> (r: bool)
    ensures
        r == rect.has_point(point),
{
    let (x, y): (i128, i128) = (point.x as i128, point.y as i128);
    x >= 65536 * rect.x as i128 && x < 65536 * (rect.x as i128 + rect.w as i128) && y >= 65536
        * rect.y as i128 && y < 65536 * (rect.y as i128 + rect.h as i128)
}

/// Which way a split of `area` runs.
pub open spec fn axis_of(area: Rect, bias: SplitBias) -> Axis {
    match bias {
        SplitBias::Horizontal => Axis::Horizontal,
        SplitBias::Vertical => Axis::Vertical,
        SplitBias::Auto => if area.w >= area.h {
            Axis::Horizontal
        } else {
            Axis::Vertical
        },
    }
}

/// Which way a split of `area` runs: as `bias` says, and where it leaves the
/// choice open, side by side in a wide area, stacked in a tall one.
pub fn split_axis(area: Rect, bias: SplitBias) -> (r: Axis)
    ensures
        r == axis_of(area, bias),
{
    match bias {
        SplitBias::Horizontal => Axis::Horizontal,
        SplitBias::Vertical => Axis::Vertical,
        SplitBias::Auto => if area.w >= area.h {
            Axis::Horizontal
        } else {
            Axis::Vertical
        },
    }
}

/// The part of `area` that the first side of a split takes.
pub open spec fn first_part(area: Rect, ratio: Ratio, bias: SplitBias) -> Rect {
    match axis_of(area, bias) {
        Axis::Horizontal => Rect { w: share(area.w as int, ratio.units as nat) as i32, ..area },
        Axis::Vertical => Rect { h: share(area.h as int, ratio.units as nat) as i32, ..area },
    }
}

/// The part of `area` that the first side leaves to the second.
pub open spec fn second_part(area: Rect, ratio: Ratio, bias: SplitBias) -> Rect {
    let first = first_part(area, ratio, bias);
    match axis_of(area, bias) {
        Axis::Horizontal => Rect {
            x: (area.x + first.w) as i32,
            w: (area.w - first.w) as i32,
            ..area
        },
        Axis::Vertical => Rect {
            y: (area.y + first.h) as i32,
            h: (area.h - first.h) as i32,
            ..area
        },
    }
}

/// Divides `area` in two: the first side takes `ratio` of its width or height,
/// whichever the split runs across, the second side the rest.
pub fn split(area: Rect, ratio: Ratio, bias: SplitBias) -> (r: (Rect, Rect))
    requires
        area.fits(),
        ratio.wf(),
    ensures
        r.0 == first_part(area, ratio, bias),
        r.1 == second_part(area, ratio, bias),
        r.0.fits(),
        r.1.fits(),
{
    match split_axis(area, bias) {
        Axis::Horizontal => {
            let first_w: i32 = ratio.of(area.w);
            (
                Rect { x: area.x, y: area.y, w: first_w, h: area.h },
                Rect { x: area.x + first_w, y: area.y, w: area.w - first_w, h: area.h },
            )
        },
        Axis::Vertical => {
            let first_h: i32 = ratio.of(area.h);
            (
                Rect { x: area.x, y: area.y, w: area.w, h: first_h },
                Rect { x: area.x, y: area.y + first_h, w: area.w, h: area.h - first_h },
            )
        },
    }
}

/// A split divides an area exactly: both parts lie in it and have no negative
/// extent, and each of its pixels belongs to one part and to one only.
pub proof fn law_split_divides_exactly(area: Rect, ratio: Ratio, bias: SplitBias)
    requires
        area.fits(),
        area.w >= 0,
        area.h >= 0,
        ratio.wf(),
    ensures
        ({
            let first = first_part(area, ratio, bias);
            let second = second_part(area, ratio, bias);
            &&& first.fits() && first.w >= 0 && first.h >= 0 && first.within(area)
            &&& second.fits() && second.w >= 0 && second.h >= 0 && second.within(area)
            &&& forall|px: int, py: int| #[trigger]
                area.covers(px, py) <==> first.covers(px, py) || second.covers(px, py)
            &&& forall|px: int, py: int| !(#[trigger] first.covers(px, py) && second.covers(px, py))
        }),
{
    crate::ratio::lemma_share_bounds(area.w as nat, ratio.units as nat);
    crate::ratio::lemma_share_bounds(area.h as nat, ratio.units as nat);
}

/// The larger of two numbers.
pub open spec fn at_least(a: int, low: int) -> int {
    if a < low {
        low
    } else {
        a
    }
}

/// A rectangle drawn in by `gap` on every edge, never thinner than one pixel.
pub open spec fn inset_rect(rect: Rect, gap: int) -> Rect {
    Rect {
        x: (rect.x + gap) as i32,
        y: (rect.y + gap) as i32,
        w: at_least(rect.w - 2 * gap, 1) as i32,
        h: at_least(rect.h - 2 * gap, 1) as i32,
    }
}

/// Drawing `rect` in by `gap` stays within what a coordinate can hold.
pub open spec fn inset_fits(rect: Rect, gap: int) -> bool {
    &&& i32::MIN <= 2 * gap <= i32::MAX
    &&& i32::MIN <= rect.x + gap <= i32::MAX
    &&& i32::MIN <= rect.y + gap <= i32::MAX
    &&& i32::MIN <= rect.w - 2 * gap <= i32::MAX
    &&& i32::MIN <= rect.h - 2 * gap <= i32::MAX
}

/// Shrinks `rect` by `gap` on every edge, to no less than one pixel.
pub fn inset(rect: Rect, gap: i32) -> (r: Rect)
    requires
        inset_fits(rect, gap as int),
    ensures
        r == inset_rect(rect, gap as int),
{
    let w: i32 = rect.w - gap * 2;
    let h: i32 = rect.h - gap * 2;
    Rect {
        x: rect.x + gap,
        y: rect.y + gap,
        w: if w < 1 { 1 } else { w },
        h: if h < 1 { 1 } else { h },
    }
}

/// Every rectangle that dividing `area` can give may be drawn in by `gap`.
pub open spec fn gap_fits(area: Rect, gap: int) -> bool {
    &&& area.fits()
    &&& i32::MIN <= 2 * gap <= i32::MAX
    &&& -2 * gap <= i32::MAX
    &&& i32::MIN <= area.x + gap <= i32::MAX
    &&& i32::MIN <= area.x + area.w + gap <= i32::MAX
    &&& i32::MIN <= area.y + gap <= i32::MAX
    &&& i32::MIN <= area.y + area.h + gap <= i32::MAX
    &&& i32::MIN <= area.w - 2 * gap <= i32::MAX
    &&& i32::MIN <= area.h - 2 * gap <= i32::MAX
}

/// What may be drawn in by `gap` still may after a division.
pub proof fn lemma_gap_fits_parts(area: Rect, ratio: Ratio, bias: SplitBias, gap: int)
    requires
        gap_fits(area, gap),
        ratio.wf(),
    ensures
        gap_fits(first_part(area, ratio, bias), gap),
        gap_fits(second_part(area, ratio, bias), gap),
        inset_fits(area, gap),
{
    let (w, h) = (area.w as int, area.h as int);
    crate::ratio::lemma_share_bounds((if w >= 0 { w } else { -w }) as nat, ratio.units as nat);
    crate::ratio::lemma_share_bounds((if h >= 0 { h } else { -h }) as nat, ratio.units as nat);
}

/// A half, rounded towards zero.
pub open spec fn half(n: int) -> int {
    if n >= 0 {
        n / 2
    } else {
        -((-n) / 2)
    }
}

/// How far something of this extent lies from the edge of a room that it is in the
/// middle of.
pub fn middle(room: i32, extent: i32) -> (r: i32)
    requires
        1 <= extent,
        i32::MIN <= room - extent,
    ensures
        r == half(room - extent),
{
    let gap: i64 = room as i64 - extent as i64;
    if gap >= 0 {
        (gap / 2) as i32
    } else {
        (-((-gap) / 2)) as i32
    }
}

/// The greater of a number and one.
pub open spec fn at_least_one(n: int) -> int {
    if n < 1 {
        1
    } else {
        n
    }
}

/// `rect` with the size that it comes to where it is scaled, at least one pixel either
/// way, in the middle of where it was.
pub fn scale_centered(rect: Rect, scaled: (i32, i32)) -> (r: Rect)
    requires
        i32::MIN <= rect.w - at_least_one(scaled.0 as int),
        i32::MIN <= rect.h - at_least_one(scaled.1 as int),
        i32::MIN <= rect.x + half(rect.w - at_least_one(scaled.0 as int)),
        rect.x + half(rect.w - at_least_one(scaled.0 as int)) <= i32::MAX,
        i32::MIN <= rect.y + half(rect.h - at_least_one(scaled.1 as int)),
        rect.y + half(rect.h - at_least_one(scaled.1 as int)) <= i32::MAX,
    ensures
        r.w == at_least_one(scaled.0 as int),
        r.h == at_least_one(scaled.1 as int),
        r.x == rect.x + half(rect.w - r.w),
        r.y == rect.y + half(rect.h - r.h),
{
    let w: i32 = if scaled.0 < 1 {
        1
    } else {
        scaled.0
    };
    let h: i32 = if scaled.1 < 1 {
        1
    } else {
        scaled.1
    };
    Rect { x: rect.x + middle(rect.w, w), y: rect.y + middle(rect.h, h), w, h }
}

} // verus!
