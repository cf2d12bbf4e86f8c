//! A binary space partition: each new window splits a leaf in two, and each
//! window that leaves hands its place back to its sibling.

use vstd::prelude::*;
use vstd::slice::slice_subrange;

use crate::config::SplitBias;
use crate::geometry::{
    axis_of, first_part, gap_fits, inset, inset_rect, lemma_gap_fits_parts, rect_contains,
    second_part, split, split_axis, Axis, FinePoint, Rect,
};
use crate::ratio::Ratio;

verus! {

/// A window, known by its number and by the surface of its toplevel role, if
/// it has one.
#[derive(Clone, Copy, PartialEq, Eq, Structural, Debug)]
pub struct Window {
    pub id: u64,
    pub surface: Option<u64>,
}

/// Whether `window` shows the surface `target`.
pub open spec fn shows(window: Window, target: u64) -> bool {
    window.surface == Some(target)
}

fn is_window(window: &Window, target: u64) -> (r: bool)
    ensures
        r == shows(*window, target),
{
    match window.surface {
        Some(s) => s == target,
        None => false,
    }
}

/// Which child of a split a path goes on into.
#[derive(Debug, Clone, Copy, PartialEq, Eq, Structural)]
pub enum Side {
    First,
    Second,
}

/// A partition: a window, or two partitions side by side.
pub enum Node {
    Leaf(Window),
    Split {
        /// The fraction of the split's area given to `first`.
        ratio: Ratio,
        first: Box<Node>,
        second: Box<Node>,
    },
}

/// Every fraction in the tree is in range.
pub open spec fn node_wf(node: Node) -> bool
    decreases node,
{
    match node {
        Node::Leaf(_) => true,
        Node::Split { ratio, first, second } => ratio.wf() && node_wf(*first) && node_wf(*second),
    }
}

/// The windows of a tree, from left to right.
pub open spec fn windows_of(node: Node) -> Seq<Window>
    decreases node,
{
    match node {
        Node::Leaf(window) => seq![window],
        Node::Split { first, second, .. } => windows_of(*first) + windows_of(*second),
    }
}

/// Some window of the tree shows `target`.
pub open spec fn holds(node: Node, target: u64) -> bool
    decreases node,
{
    match node {
        Node::Leaf(window) => shows(window, target),
        Node::Split { first, second, .. } => holds(*first, target) || holds(*second, target),
    }
}

/// The first window of the tree that shows `target`.
pub open spec fn found(node: Node, target: u64) -> Option<Window>
    decreases node,
{
    match node {
        Node::Leaf(window) => if shows(window, target) {
            Some(window)
        } else {
            None
        },
        Node::Split { first, second, .. } => if holds(*first, target) {
            found(*first, target)
        } else {
            found(*second, target)
        },
    }
}

/// The tree in which the first leaf that shows `target`, or the last leaf where
/// none does, is split evenly between its window and `window`.
pub open spec fn inserted(node: Node, window: Window, target: Option<u64>) -> Node
    decreases node,
{
    match node {
        Node::Leaf(existing) => Node::Split {
            ratio: Ratio { units: crate::ratio::HALF_RATIO },
            first: Box::new(Node::Leaf(existing)),
            second: Box::new(Node::Leaf(window)),
        },
        Node::Split { ratio, first, second } => if target is Some && holds(*first, target->0) {
            Node::Split { ratio, first: Box::new(inserted(*first, window, target)), second }
        } else {
            Node::Split { ratio, first, second: Box::new(inserted(*second, window, target)) }
        },
    }
}

/// The tree without the leaves that show `target`; a split that loses one side
/// becomes its other side.
pub open spec fn removed(node: Node, target: u64) -> Option<Node>
    decreases node,
{
    match node {
        Node::Leaf(window) => if shows(window, target) {
            None
        } else {
            Some(node)
        },
        Node::Split { ratio, first, second } => match (
            removed(*first, target),
            removed(*second, target),
        ) {
            (Some(a), Some(b)) => Some(
                Node::Split { ratio, first: Box::new(a), second: Box::new(b) },
            ),
            (Some(a), None) => Some(a),
            (None, Some(b)) => Some(b),
            (None, None) => None,
        },
    }
}

/// The same tree with the windows at its leaves exchanged.
pub open spec fn relabeled(node: Node, f: spec_fn(Window) -> Window) -> Node
    decreases node,
{
    match node {
        Node::Leaf(window) => Node::Leaf(f(window)),
        Node::Split { ratio, first, second } => Node::Split {
            ratio,
            first: Box::new(relabeled(*first, f)),
            second: Box::new(relabeled(*second, f)),
        },
    }
}

/// Exchanges the windows that show `a` and `b`.
pub open spec fn exchange(a: u64, window_a: Window, b: u64, window_b: Window) -> spec_fn(
    Window,
) -> Window {
    |w: Window|
        if shows(w, a) {
            window_b
        } else if shows(w, b) {
            window_a
        } else {
            w
        }
}

/// Puts `new_window` where a window shows `old`.
pub open spec fn substitute(old: u64, new_window: Window) -> spec_fn(Window) -> Window {
    |w: Window|
        if shows(w, old) {
            new_window
        } else {
            w
        }
}

/// The tree after its windows for `a` and `b` traded places; unchanged where
/// one of them is missing.
pub open spec fn swapped(node: Node, a: u64, b: u64) -> Node {
    match (found(node, a), found(node, b)) {
        (Some(wa), Some(wb)) => relabeled(node, exchange(a, wa, b, wb)),
        _ => node,
    }
}

/// The area of every window, from left to right.
pub open spec fn areas_of(node: Node, area: Rect, bias: SplitBias) -> Seq<(Window, Rect)>
    decreases node,
{
    match node {
        Node::Leaf(window) => seq![(window, area)],
        Node::Split { ratio, first, second } => areas_of(*first, first_part(area, ratio, bias), bias)
            + areas_of(*second, second_part(area, ratio, bias), bias),
    }
}

/// Each area drawn in by `gap`.
pub open spec fn with_gaps(areas: Seq<(Window, Rect)>, gap: int) -> Seq<(Window, Rect)> {
    areas.map_values(|e: (Window, Rect)| (e.0, inset_rect(e.1, gap)))
}

/// The fraction of the split that `path` leads to.
pub open spec fn ratio_on(node: Node, path: Seq<Side>) -> Option<Ratio>
    decreases node,
{
    match node {
        Node::Leaf(_) => None,
        Node::Split { ratio, first, second } => if path.len() == 0 {
            Some(ratio)
        } else if path[0] == Side::First {
            ratio_on(*first, path.skip(1))
        } else {
            ratio_on(*second, path.skip(1))
        },
    }
}

/// The tree with the fraction of the split that `path` leads to replaced.
pub open spec fn with_ratio(node: Node, path: Seq<Side>, new: Ratio) -> Node
    decreases node,
{
    match node {
        Node::Leaf(_) => node,
        Node::Split { ratio, first, second } => if path.len() == 0 {
            Node::Split { ratio: new, first, second }
        } else if path[0] == Side::First {
            Node::Split { ratio, first: Box::new(with_ratio(*first, path.skip(1), new)), second }
        } else {
            Node::Split { ratio, first, second: Box::new(with_ratio(*second, path.skip(1), new)) }
        },
    }
}

/// A split crossed on the way along a path.
pub struct CrossedSplit {
    pub path: Seq<Side>,
    pub axis: Axis,
    pub area: Rect,
    pub ratio: Ratio,
}

/// The splits crossed from `node`, reached by `prefix`, along `path`, the one
/// that `path` ends at with them.
pub open spec fn crossed(
    node: Node,
    area: Rect,
    bias: SplitBias,
    path: Seq<Side>,
    prefix: Seq<Side>,
) -> Seq<CrossedSplit>
    decreases node,
{
    match node {
        Node::Leaf(_) => seq![],
        Node::Split { ratio, first, second } => {
            let here = CrossedSplit { path: prefix, axis: axis_of(area, bias), area, ratio };
            if path.len() == 0 {
                seq![here]
            } else if path[0] == Side::First {
                seq![here] + crossed(
                    *first,
                    first_part(area, ratio, bias),
                    bias,
                    path.skip(1),
                    prefix.push(Side::First),
                )
            } else {
                seq![here] + crossed(
                    *second,
                    second_part(area, ratio, bias),
                    bias,
                    path.skip(1),
                    prefix.push(Side::Second),
                )
            }
        },
    }
}

/// The way to the first leaf that shows `target`.
pub open spec fn home(node: Node, target: u64) -> Seq<Side>
    decreases node,
{
    match node {
        Node::Leaf(_) => seq![],
        Node::Split { first, second, .. } => if holds(*first, target) {
            seq![Side::First] + home(*first, target)
        } else {
            seq![Side::Second] + home(*second, target)
        },
    }
}

/// How near, in pixels, a position has to be to a border to be on it.
pub open spec fn reach(gap: int) -> int {
    if gap > 4 {
        gap
    } else {
        4
    }
}

/// `point` lies on the border between the two sides of a split of `area`.
pub open spec fn on_border(area: Rect, ratio: Ratio, bias: SplitBias, gap: int, p: FinePoint) -> bool {
    let off = border_distance(area, ratio, bias, p);
    match axis_of(area, bias) {
        Axis::Horizontal => {
            &&& off <= 65536 * reach(gap)
            &&& 65536 * area.y <= p.y <= 65536 * (area.y + area.h)
        },
        Axis::Vertical => {
            &&& off <= 65536 * reach(gap)
            &&& 65536 * area.x <= p.x <= 65536 * (area.x + area.w)
        },
    }
}

/// How far, in steps, `p` is from the border between the two sides of a split of `area`.
pub open spec fn border_distance(area: Rect, ratio: Ratio, bias: SplitBias, p: FinePoint) -> int {
    let first = first_part(area, ratio, bias);
    let off = match axis_of(area, bias) {
        Axis::Horizontal => p.x - 65536 * (first.x + first.w),
        Axis::Vertical => p.y - 65536 * (first.y + first.h),
    };
    if off < 0 {
        -off
    } else {
        off
    }
}

/// The splits that the areas holding `p` lead to, from `node`, reached by `prefix`, down.
pub open spec fn around(
    node: Node,
    area: Rect,
    p: FinePoint,
    bias: SplitBias,
    prefix: Seq<Side>,
) -> Seq<CrossedSplit>
    decreases node,
{
    match node {
        Node::Leaf(_) => seq![],
        Node::Split { ratio, first, second } => {
            let here = CrossedSplit { path: prefix, axis: axis_of(area, bias), area, ratio };
            if first_part(area, ratio, bias).has_point(p) {
                seq![here] + around(
                    *first,
                    first_part(area, ratio, bias),
                    p,
                    bias,
                    prefix.push(Side::First),
                )
            } else {
                seq![here] + around(
                    *second,
                    second_part(area, ratio, bias),
                    p,
                    bias,
                    prefix.push(Side::Second),
                )
            }
        },
    }
}

/// `p` lies on the border of the split.
pub open spec fn touches(c: CrossedSplit, bias: SplitBias, gap: int, p: FinePoint) -> bool {
    on_border(c.area, c.ratio, bias, gap, p)
}

/// How far `p` is from the border of the split.
pub open spec fn distance_to(c: CrossedSplit, bias: SplitBias, p: FinePoint) -> int {
    border_distance(c.area, c.ratio, bias, p)
}

/// `p` lies on the border of the split `i` of `way`, and no other border that it lies on
/// is nearer; of borders equally near, this is the outermost.
pub open spec fn is_nearest(
    way: Seq<CrossedSplit>,
    i: int,
    gap: int,
    p: FinePoint,
    bias: SplitBias,
) -> bool {
    &&& 0 <= i < way.len()
    &&& touches(way[i], bias, gap, p)
    &&& forall|j: int|
        0 <= j < way.len() && touches(#[trigger] way[j], bias, gap, p) ==> distance_to(
            way[i],
            bias,
            p,
        ) <= distance_to(way[j], bias, p) && (j < i ==> distance_to(way[i], bias, p)
            < distance_to(way[j], bias, p))
}

/// The split with the border nearest `p`, among those that the areas holding `p` lead to
/// and whose border `p` lies on.
pub open spec fn border_at(
    node: Node,
    area: Rect,
    gap: int,
    p: FinePoint,
    bias: SplitBias,
    prefix: Seq<Side>,
) -> Option<CrossedSplit>
    decreases node,
{
    match node {
        Node::Leaf(_) => None,
        Node::Split { ratio, first, second } => {
            let here = CrossedSplit { path: prefix, axis: axis_of(area, bias), area, ratio };
            let deeper = if first_part(area, ratio, bias).has_point(p) {
                border_at(
                    *first,
                    first_part(area, ratio, bias),
                    gap,
                    p,
                    bias,
                    prefix.push(Side::First),
                )
            } else {
                border_at(
                    *second,
                    second_part(area, ratio, bias),
                    gap,
                    p,
                    bias,
                    prefix.push(Side::Second),
                )
            };
            if touches(here, bias, gap, p) && !(deeper is Some && distance_to(deeper->0, bias, p)
                < distance_to(here, bias, p)) {
                Some(here)
            } else {
                deeper
            }
        },
    }
}

/// A boundary that was found is the nearest on the way down to `p`; none is found only
/// where `p` lies on none.
pub open spec fn hits_nearest(
    way: Seq<CrossedSplit>,
    root_area: Rect,
    gap: int,
    p: FinePoint,
    bias: SplitBias,
    hit: Option<SplitHitView>,
) -> bool {
    match hit {
        Some(hit) => exists|i: int| #[trigger]
            is_nearest(way, i, gap, p, bias) && hit == hit_on(way[i], root_area, None),
        None => forall|i: int|
            0 <= i < way.len() ==> !touches(#[trigger] way[i], bias, gap, p),
    }
}

/// Of the borders on the way down to a point that the point lies on, the nearest is hit;
/// none is hit only where the point lies on none.
pub proof fn law_the_nearest_border_is_hit(
    node: Node,
    area: Rect,
    gap: int,
    p: FinePoint,
    bias: SplitBias,
    prefix: Seq<Side>,
)
    ensures
        ({
            let way = around(node, area, p, bias, prefix);
            match border_at(node, area, gap, p, bias, prefix) {
                Some(c) => exists|i: int| #[trigger]
                    is_nearest(way, i, gap, p, bias) && c == way[i],
                None => forall|i: int|
                    0 <= i < way.len() ==> !touches(#[trigger] way[i], bias, gap, p),
            }
        }),
    decreases node,
{
    if let Node::Split { ratio, first, second } = node {
        let way = around(node, area, p, bias, prefix);
        let here = CrossedSplit { path: prefix, axis: axis_of(area, bias), area, ratio };
        let in_first = first_part(area, ratio, bias).has_point(p);
        let (child, part, side) = if in_first {
            (*first, first_part(area, ratio, bias), Side::First)
        } else {
            (*second, second_part(area, ratio, bias), Side::Second)
        };
        law_the_nearest_border_is_hit(child, part, gap, p, bias, prefix.push(side));
        let rest = around(child, part, p, bias, prefix.push(side));
        let deeper = border_at(child, part, gap, p, bias, prefix.push(side));
        assert(way == seq![here] + rest);
        assert forall|j: int| 1 <= j < way.len() implies #[trigger] way[j] == rest[j - 1] by {}
        assert(way[0] == here);
        let k = match deeper {
            Some(c) => choose|i: int| #[trigger]
                is_nearest(rest, i, gap, p, bias) && c == rest[i],
            None => 0,
        };
        match border_at(node, area, gap, p, bias, prefix) {
            Some(c) => {
                if deeper is Some && c == deeper->0 && !(touches(here, bias, gap, p)
                    && !(distance_to(deeper->0, bias, p) < distance_to(here, bias, p))) {
                    assert(way[k + 1] == c);
                    assert(is_nearest(way, k + 1, gap, p, bias));
                } else {
                    assert(way[0] == c);
                    assert(is_nearest(way, 0, gap, p, bias));
                }
            },
            None => {},
        }
    }
}

fn insert_into(root: Node, window: Window, target: Option<u64>) -> (r: Node)
    requires
        node_wf(root),
    ensures
        r == inserted(root, window, target),
        node_wf(r),
    decreases root,
{
    proof {
        reveal_with_fuel(node_wf, 2);
    }
    match root {
        Node::Leaf(existing) => Node::Split {
            ratio: Ratio::half(),
            first: Box::new(Node::Leaf(existing)),
            second: Box::new(Node::Leaf(window)),
        },
        Node::Split { ratio, first, second } => {
            let in_first = match target {
                Some(t) => node_contains(&first, t),
                None => false,
            };
            if in_first {
                Node::Split { ratio, first: Box::new(insert_into(*first, window, target)), second }
            } else {
                Node::Split { ratio, first, second: Box::new(insert_into(*second, window, target)) }
            }
        },
    }
}

fn remove_from(node: Node, target: u64) -> (r: Option<Node>)
    requires
        node_wf(node),
    ensures
        r == removed(node, target),
        r is Some ==> node_wf(r->0),
    decreases node,
{
    match node {
        Node::Leaf(window) => if is_window(&window, target) {
            None
        } else {
            Some(Node::Leaf(window))
        },
        Node::Split { ratio, first, second } => {
            let first = remove_from(*first, target);
            let second = remove_from(*second, target);
            match (first, second) {
                (Some(first), Some(second)) => Some(
                    Node::Split { ratio, first: Box::new(first), second: Box::new(second) },
                ),
                (Some(surviving), None) => Some(surviving),
                (None, Some(surviving)) => Some(surviving),
                (None, None) => None,
            }
        },
    }
}

fn node_contains(node: &Node, target: u64) -> (r: bool)
    ensures
        r == holds(*node, target),
    decreases node,
{
    match node {
        Node::Leaf(window) => is_window(window, target),
        Node::Split { first, second, .. } => node_contains(first, target) || node_contains(
            second,
            target,
        ),
    }
}

fn find_window(node: &Node, target: u64) -> (r: Option<Window>)
    ensures
        r == found(*node, target),
        r is Some <==> holds(*node, target),
    decreases node,
{
    match node {
        Node::Leaf(window) => if is_window(window, target) {
            Some(*window)
        } else {
            None
        },
        Node::Split { first, second, .. } => match find_window(first, target) {
            Some(window) => Some(window),
            None => find_window(second, target),
        },
    }
}

fn swap_leaves(node: Node, a: u64, window_a: &Window, b: u64, window_b: &Window) -> (r: Node)
    requires
        node_wf(node),
    ensures
        r == relabeled(node, exchange(a, *window_a, b, *window_b)),
        node_wf(r),
    decreases node,
{
    match node {
        Node::Leaf(window) => if is_window(&window, a) {
            Node::Leaf(*window_b)
        } else if is_window(&window, b) {
            Node::Leaf(*window_a)
        } else {
            Node::Leaf(window)
        },
        Node::Split { ratio, first, second } => Node::Split {
            ratio,
            first: Box::new(swap_leaves(*first, a, window_a, b, window_b)),
            second: Box::new(swap_leaves(*second, a, window_a, b, window_b)),
        },
    }
}

fn replace_in(node: Node, old_surface: u64, new_window: &Window) -> (r: Node)
    requires
        node_wf(node),
    ensures
        r == relabeled(node, substitute(old_surface, *new_window)),
        node_wf(r),
    decreases node,
{
    match node {
        Node::Leaf(window) => if is_window(&window, old_surface) {
            Node::Leaf(*new_window)
        } else {
            Node::Leaf(window)
        },
        Node::Split { ratio, first, second } => Node::Split {
            ratio,
            first: Box::new(replace_in(*first, old_surface, new_window)),
            second: Box::new(replace_in(*second, old_surface, new_window)),
        },
    }
}

fn collect(node: &Node, area: Rect, gap: i32, bias: SplitBias, out: &mut Vec<(Window, Rect)>)
    requires
        node_wf(*node),
        gap_fits(area, gap as int),
    ensures
        final(out)@ == old(out)@ + with_gaps(areas_of(*node, area, bias), gap as int),
    decreases node,
{
    match node {
        Node::Leaf(window) => {
            proof {
                lemma_gap_fits_parts(area, Ratio { units: crate::ratio::HALF_RATIO }, bias, gap as int);
            }
            out.push((*window, inset(area, gap)));
            assert(with_gaps(areas_of(*node, area, bias), gap as int) =~= seq![
                (*window, inset_rect(area, gap as int)),
            ]);
        },
        Node::Split { ratio, first, second } => {
            proof {
                lemma_gap_fits_parts(area, *ratio, bias, gap as int);
            }
            let (first_area, second_area) = split(area, *ratio, bias);
            collect(first, first_area, gap, bias, out);
            collect(second, second_area, gap, bias, out);
            assert(with_gaps(areas_of(*node, area, bias), gap as int) =~= with_gaps(
                areas_of(**first, first_area, bias),
                gap as int,
            ) + with_gaps(areas_of(**second, second_area, bias), gap as int));
        },
    }
}

fn collect_windows(node: &Node, out: &mut Vec<Window>)
    ensures
        final(out)@ == old(out)@ + windows_of(*node),
    decreases node,
{
    match node {
        Node::Leaf(window) => {
            out.push(*window);
        },
        Node::Split { first, second, .. } => {
            collect_windows(first, out);
            collect_windows(second, out);
        },
    }
}

fn ratio_in(node: &Node, path: &[Side]) -> (r: Option<Ratio>)
    ensures
        r == ratio_on(*node, path@),
    decreases node,
{
    match node {
        Node::Leaf(_) => None,
        Node::Split { ratio, first, second } => {
            if path.len() == 0 {
                return Some(*ratio);
            }
            let rest = slice_subrange(path, 1, path.len());
            assert(rest@ =~= path@.skip(1));
            match path[0] {
                Side::First => ratio_in(first, rest),
                Side::Second => ratio_in(second, rest),
            }
        },
    }
}

fn set_ratio_in(node: Node, path: &[Side], new: Ratio) -> (r: Node)
    requires
        node_wf(node),
        new.wf(),
    ensures
        r == with_ratio(node, path@, new),
        node_wf(r),
    decreases node,
{
    match node {
        Node::Leaf(window) => Node::Leaf(window),
        Node::Split { ratio, first, second } => {
            if path.len() == 0 {
                return Node::Split { ratio: new, first, second };
            }
            let rest = slice_subrange(path, 1, path.len());
            assert(rest@ =~= path@.skip(1));
            match path[0] {
                Side::First => Node::Split {
                    ratio,
                    first: Box::new(set_ratio_in(*first, rest, new)),
                    second,
                },
                Side::Second => Node::Split {
                    ratio,
                    first,
                    second: Box::new(set_ratio_in(*second, rest, new)),
                },
            }
        },
    }
}

/// A split boundary, addressed by the way to it from the root of its tree.
pub struct SplitHit {
    pub output: String,
    pub workspace: u32,
    pub path: Vec<Side>,
    pub axis: Axis,
    /// The split's own area when the boundary was found.
    pub area: Rect,
    /// The whole tiling area when the boundary was found.
    pub root_area: Rect,
    /// The child that holds the resized window; none where a border itself is
    /// dragged.
    pub target_side: Option<Side>,
    pub topology_revision: u64,
}

/// What a `SplitHit` says.
pub struct SplitHitView {
    pub output: Seq<char>,
    pub workspace: u32,
    pub path: Seq<Side>,
    pub axis: Axis,
    pub area: Rect,
    pub root_area: Rect,
    pub target_side: Option<Side>,
    pub topology_revision: u64,
}

impl View for SplitHit {
    type V = SplitHitView;

    open spec fn view(&self) -> SplitHitView {
        SplitHitView {
            output: self.output@,
            workspace: self.workspace,
            path: self.path@,
            axis: self.axis,
            area: self.area,
            root_area: self.root_area,
            target_side: self.target_side,
            topology_revision: self.topology_revision,
        }
    }
}

/// What a boundary says, where there is one.
pub open spec fn hit_view(hit: Option<SplitHit>) -> Option<SplitHitView> {
    match hit {
        Some(hit) => Some(hit@),
        None => None,
    }
}

/// The boundary of a crossed split, in a tree that belongs to no output yet.
pub open spec fn hit_on(c: CrossedSplit, root_area: Rect, target_side: Option<Side>) -> SplitHitView {
    SplitHitView {
        output: seq![],
        workspace: 0,
        path: c.path,
        axis: c.axis,
        area: c.area,
        root_area,
        target_side,
        topology_revision: 0,
    }
}

/// The index of the last split that runs along `axis`, -1 where none does.
pub open spec fn last_along(s: Seq<CrossedSplit>, axis: Axis) -> int
    decreases s.len(),
{
    if s.len() == 0 {
        -1
    } else if s.last().axis == axis {
        s.len() - 1
    } else {
        last_along(s.drop_last(), axis)
    }
}

/// The boundary that resizes the window of `target` along `axis`: the nearest
/// split around it that runs that way.
pub open spec fn resize_hit(
    node: Node,
    target: u64,
    area: Rect,
    bias: SplitBias,
    axis: Axis,
) -> Seq<SplitHitView> {
    let way = home(node, target);
    let splits = crossed(node, area, bias, way, seq![]);
    let i = last_along(splits, axis);
    if i >= 0 {
        seq![hit_on(splits[i], area, Some(way[i]))]
    } else {
        seq![]
    }
}

/// The boundaries that resize the window of `target`: at most one side by side,
/// then at most one stacked.
pub open spec fn resize_hits(root: Option<Node>, target: u64, area: Rect, bias: SplitBias) -> Seq<
    SplitHitView,
> {
    match root {
        Some(node) => if holds(node, target) {
            resize_hit(node, target, area, bias, Axis::Horizontal) + resize_hit(
                node,
                target,
                area,
                bias,
                Axis::Vertical,
            )
        } else {
            seq![]
        },
        None => seq![],
    }
}

/// What a list of boundaries says.
pub open spec fn hit_views(hits: Seq<SplitHit>) -> Seq<SplitHitView> {
    hits.map_values(|h: SplitHit| h@)
}

/// A crossed split with its way from the root.
pub struct PathSplit {
    pub path: Vec<Side>,
    pub axis: Axis,
    pub area: Rect,
    pub ratio: Ratio,
}

impl View for PathSplit {
    type V = CrossedSplit;

    open spec fn view(&self) -> CrossedSplit {
        CrossedSplit { path: self.path@, axis: self.axis, area: self.area, ratio: self.ratio }
    }
}

/// What a list of crossed splits says.
pub open spec fn split_views(splits: Seq<PathSplit>) -> Seq<CrossedSplit> {
    splits.map_values(|p: PathSplit| p@)
}

/// A second copy of a path.
pub fn copy_path(path: &Vec<Side>) -> (r: Vec<Side>)
    ensures
        r@ == path@,
{
    let mut out: Vec<Side> = Vec::new();
    let mut i: usize = 0;
    while i < path.len()
        invariant
            i <= path@.len(),
            out@ == path@.take(i as int),
        decreases path@.len() - i,
    {
        out.push(path[i]);
        i += 1;
        assert(path@.take(i as int) =~= path@.take(i - 1).push(path@[i - 1]));
    }
    assert(path@.take(i as int) =~= path@);
    out
}

/// Records every split from `node` along `path`.
fn collect_split_path(
    node: &Node,
    area: Rect,
    bias: SplitBias,
    path: &[Side],
    prefix: Vec<Side>,
    out: &mut Vec<PathSplit>,
)
    requires
        node_wf(*node),
        area.fits(),
    ensures
        split_views(final(out)@) == split_views(old(out)@) + crossed(
            *node,
            area,
            bias,
            path@,
            prefix@,
        ),
    decreases node,
{
    match node {
        Node::Leaf(_) => {
            assert(split_views(out@) =~= split_views(out@) + seq![]);
        },
        Node::Split { ratio, first, second } => {
            let ghost before = out@;
            out.push(
                PathSplit {
                    path: copy_path(&prefix),
                    axis: split_axis(area, bias),
                    area,
                    ratio: *ratio,
                },
            );
            let ghost here = CrossedSplit {
                path: prefix@,
                axis: axis_of(area, bias),
                area,
                ratio: *ratio,
            };
            assert(split_views(out@) =~= split_views(before) + seq![here]);
            if path.len() == 0 {
                return ;
            }
            let (first_area, second_area) = split(area, *ratio, bias);
            let rest = slice_subrange(path, 1, path.len());
            assert(rest@ =~= path@.skip(1));
            let mut child_path = prefix;
            let side = path[0];
            child_path.push(side);
            match side {
                Side::First => collect_split_path(first, first_area, bias, rest, child_path, out),
                Side::Second => collect_split_path(second, second_area, bias, rest, child_path, out),
            }
            proof {
                let tail = match side {
                    Side::First => crossed(**first, first_area, bias, rest@, prefix@.push(side)),
                    Side::Second => crossed(**second, second_area, bias, rest@, prefix@.push(side)),
                };
                assert(split_views(before) + seq![here] + tail =~= split_views(before) + (
                seq![here] + tail));
            }
        },
    }
}

fn path_to(node: &Node, target: u64, prefix: Vec<Side>) -> (r: Vec<Side>)
    ensures
        r@ == prefix@ + home(*node, target),
    decreases node,
{
    match node {
        Node::Leaf(_) => {
            assert(prefix@ + seq![] =~= prefix@);
            prefix
        },
        Node::Split { first, second, .. } => {
            let mut path = prefix;
            if node_contains(first, target) {
                path.push(Side::First);
                assert(prefix@.push(Side::First) + home(**first, target) =~= prefix@ + (
                seq![Side::First] + home(**first, target)));
                path_to(first, target, path)
            } else {
                path.push(Side::Second);
                assert(prefix@.push(Side::Second) + home(**second, target) =~= prefix@ + (
                seq![Side::Second] + home(**second, target)));
                path_to(second, target, path)
            }
        },
    }
}

/// The way to a window crosses one split per step.
pub proof fn lemma_home_crosses(
    node: Node,
    target: u64,
    area: Rect,
    bias: SplitBias,
    prefix: Seq<Side>,
)
    ensures
        crossed(node, area, bias, home(node, target), prefix).len() == home(node, target).len(),
    decreases node,
{
    match node {
        Node::Leaf(_) => {},
        Node::Split { ratio, first, second } => {
            let way = home(node, target);
            if holds(*first, target) {
                assert(way.skip(1) =~= home(*first, target));
                lemma_home_crosses(
                    *first,
                    target,
                    first_part(area, ratio, bias),
                    bias,
                    prefix.push(Side::First),
                );
            } else {
                assert(way.skip(1) =~= home(*second, target));
                lemma_home_crosses(
                    *second,
                    target,
                    second_part(area, ratio, bias),
                    bias,
                    prefix.push(Side::Second),
                );
            }
        },
    }
}

fn hit_test(
    node: &Node,
    area: Rect,
    root_area: Rect,
    gap: i32,
    point: FinePoint,
    bias: SplitBias,
    prefix: Vec<Side>,
) -> (r: Option<(SplitHit, i128)>)
    requires
        node_wf(*node),
        area.fits(),
    ensures
        match (r, border_at(*node, area, gap as int, point, bias, prefix@)) {
            (Some((hit, distance)), Some(c)) => hit@ == hit_on(c, root_area, None) && distance
                == distance_to(c, bias, point),
            (None, None) => true,
            _ => false,
        },
    decreases node,
{
    match node {
        Node::Leaf(_) => None,
        Node::Split { ratio, first, second } => {
            let (first_area, second_area) = split(area, *ratio, bias);
            let axis = split_axis(area, bias);
            let threshold: i128 = if gap > 4 {
                gap as i128
            } else {
                4
            };
            let (px, py): (i128, i128) = (point.x as i128, point.y as i128);
            let off: i128 = match axis {
                Axis::Horizontal => px - 65536 * (first_area.x as i128 + first_area.w as i128),
                Axis::Vertical => py - 65536 * (first_area.y as i128 + first_area.h as i128),
            };
            let distance: i128 = if off < 0 {
                -off
            } else {
                off
            };
            let on_border = distance <= 65536 * threshold && match axis {
                Axis::Horizontal => py >= 65536 * area.y as i128 && py <= 65536 * (area.y as i128
                    + area.h as i128),
                Axis::Vertical => px >= 65536 * area.x as i128 && px <= 65536 * (area.x as i128
                    + area.w as i128),
            };
            let mut path = copy_path(&prefix);
            let deeper = if rect_contains(first_area, point) {
                path.push(Side::First);
                hit_test(first, first_area, root_area, gap, point, bias, path)
            } else {
                path.push(Side::Second);
                hit_test(second, second_area, root_area, gap, point, bias, path)
            };
            if on_border {
                let nearer = match &deeper {
                    Some((_, other)) => *other < distance,
                    None => false,
                };
                if !nearer {
                    let hit = SplitHit {
                        output: String::new(),
                        workspace: 0,
                        path: prefix,
                        axis,
                        area,
                        root_area,
                        target_side: None,
                        topology_revision: 0,
                    };
                    assert(hit@.output =~= seq![]);
                    return Some((hit, distance));
                }
            }
            deeper
        },
    }
}

fn last_split_along(splits: &Vec<PathSplit>, axis: Axis) -> (r: Option<usize>)
    ensures
        match r {
            Some(i) => i < splits@.len() && i == last_along(split_views(splits@), axis),
            None => last_along(split_views(splits@), axis) < 0,
        },
{
    let mut i: usize = splits.len();
    assert(split_views(splits@).take(i as int) =~= split_views(splits@));
    while i > 0
        invariant
            i <= splits@.len(),
            last_along(split_views(splits@).take(i as int), axis) == last_along(
                split_views(splits@),
                axis,
            ),
        decreases i,
    {
        let ghost upto = split_views(splits@).take(i as int);
        assert(upto.drop_last() =~= split_views(splits@).take(i - 1));
        assert(upto.last() == splits@[i - 1]@);
        i -= 1;
        if splits[i].axis == axis {
            return Some(i);
        }
    }
    None
}

/// The tiling tree of one workspace.
pub struct BspLayout {
    pub root: Option<Node>,
}

/// A tree, where there is one, with every fraction in range.
pub open spec fn root_wf(root: Option<Node>) -> bool {
    root is Some ==> node_wf(root->0)
}

/// The windows of a tree that may be missing.
pub open spec fn root_windows(root: Option<Node>) -> Seq<Window> {
    match root {
        Some(node) => windows_of(node),
        None => seq![],
    }
}

/// Some window of the tree, where there is one, shows `target`.
pub open spec fn root_holds(root: Option<Node>, target: u64) -> bool {
    root is Some && holds(root->0, target)
}

impl Default for BspLayout {
    fn default() -> (r: Self)
        ensures
            r.root is None,
            r.wf(),
    {
        BspLayout { root: None }
    }
}

impl BspLayout {
    pub open spec fn wf(&self) -> bool {
        root_wf(self.root)
    }

    /// Whether the tree has no window.
    pub fn is_empty(&self) -> (r: bool)
        ensures
            r == (self.root is None),
            r == (root_windows(self.root).len() == 0),
    {
        proof {
            if self.root is Some {
                lemma_windows_nonempty(self.root->0);
            }
        }
        self.root.is_none()
    }

    /// Adds `window`, splitting the leaf that shows `target`; the last leaf
    /// where there is no such target.
    pub fn insert(&mut self, window: Window, target: Option<u64>)
        requires
            old(self).wf(),
        ensures
            final(self).wf(),
            final(self).root == Some(
                match old(self).root {
                    None => Node::Leaf(window),
                    Some(root) => inserted(root, window, target),
                },
            ),
    {
        let root = match self.root.take() {
            None => Node::Leaf(window),
            Some(root) => insert_into(root, window, target),
        };
        self.root = Some(root);
    }

    /// Takes the window that shows `surface` out; its sibling takes the place
    /// of their split.
    pub fn remove(&mut self, surface: u64)
        requires
            old(self).wf(),
        ensures
            final(self).wf(),
            final(self).root == match old(self).root {
                None => None,
                Some(root) => removed(root, surface),
            },
    {
        let root = match self.root.take() {
            None => None,
            Some(root) => remove_from(root, surface),
        };
        self.root = root;
    }

    /// Whether some window of the tree shows `surface`.
    pub fn contains(&self, surface: u64) -> (r: bool)
        ensures
            r == root_holds(self.root, surface),
    {
        match &self.root {
            Some(root) => node_contains(root, surface),
            None => false,
        }
    }

    /// The first window of the tree that shows `surface`.
    pub fn window(&self, surface: u64) -> (r: Option<Window>)
        ensures
            r == match self.root {
                Some(root) => found(root, surface),
                None => None,
            },
            r is Some <==> root_holds(self.root, surface),
    {
        match &self.root {
            Some(root) => find_window(root, surface),
            None => None,
        }
    }

    /// Every window of the tree, from left to right.
    pub fn windows(&self) -> (r: Vec<Window>)
        ensures
            r@ == root_windows(self.root),
    {
        let mut out: Vec<Window> = Vec::new();
        if let Some(root) = &self.root {
            collect_windows(root, &mut out);
            assert(out@ =~= windows_of(*root));
        }
        out
    }

    /// Lets the windows that show `a` and `b` trade places. Nothing happens
    /// where one of them is not in the tree.
    pub fn swap(&mut self, a: u64, b: u64)
        requires
            old(self).wf(),
        ensures
            final(self).wf(),
            final(self).root == match old(self).root {
                Some(root) => Some(swapped(root, a, b)),
                None => None,
            },
    {
        if let Some(root) = self.root.take() {
            let window_a = find_window(&root, a);
            let window_b = find_window(&root, b);
            self.root = match (window_a, window_b) {
                (Some(wa), Some(wb)) => Some(swap_leaves(root, a, &wa, b, &wb)),
                _ => Some(root),
            };
        }
    }

    /// Puts `new_window` where a window shows `old_surface`.
    pub fn replace_leaf(&mut self, old_surface: u64, new_window: &Window)
        requires
            old(self).wf(),
        ensures
            final(self).wf(),
            final(self).root == match old(self).root {
                Some(root) => Some(relabeled(root, substitute(old_surface, *new_window))),
                None => None,
            },
    {
        if let Some(root) = self.root.take() {
            self.root = Some(replace_in(root, old_surface, new_window));
        }
    }

    /// The rectangle of every window within `area`, drawn in by `gap`.
    pub fn layout(&self, area: Rect, gap: i32, bias: SplitBias) -> (r: Vec<(Window, Rect)>)
        requires
            self.wf(),
            gap_fits(area, gap as int),
        ensures
            r@ == match self.root {
                Some(root) => with_gaps(areas_of(root, area, bias), gap as int),
                None => seq![],
            },
    {
        let mut out: Vec<(Window, Rect)> = Vec::new();
        if let Some(root) = &self.root {
            collect(root, area, gap, bias, &mut out);
            assert(out@ =~= with_gaps(areas_of(*root, area, bias), gap as int));
        }
        out
    }

    /// The split boundary nearest `point`, among those within `gap` pixels of it, or
    /// within four where that is more, of the splits that the areas holding `point`
    /// lead to.
    pub fn hit_test_split(&self, area: Rect, gap: i32, point: FinePoint, bias: SplitBias) -> (r:
        Option<SplitHit>)
        requires
            self.wf(),
            area.fits(),
        ensures
            match self.root {
                Some(root) => match (r, border_at(root, area, gap as int, point, bias, seq![])) {
                    (Some(hit), Some(c)) => hit@ == hit_on(c, area, None),
                    (None, None) => true,
                    _ => false,
                },
                None => r is None,
            },
            self.root is Some ==> hits_nearest(
                around(self.root->0, area, point, bias, seq![]),
                area,
                gap as int,
                point,
                bias,
                hit_view(r),
            ),
    {
        match &self.root {
            Some(root) => {
                let start: Vec<Side> = Vec::new();
                assert(start@ =~= seq![]);
                proof {
                    law_the_nearest_border_is_hit(*root, area, gap as int, point, bias, seq![]);
                }
                match hit_test(root, area, area, gap, point, bias, start) {
                    Some((hit, _)) => Some(hit),
                    None => None,
                }
            },
            None => None,
        }
    }

    /// The boundaries that resize the window of `target`: the nearest split
    /// around it that runs side by side, then the nearest that is stacked.
    pub fn resize_splits(&self, target: u64, area: Rect, bias: SplitBias) -> (r: Vec<SplitHit>)
        requires
            self.wf(),
            area.fits(),
        ensures
            hit_views(r@) == resize_hits(self.root, target, area, bias),
    {
        let mut out: Vec<SplitHit> = Vec::new();
        assert(hit_views(out@) =~= seq![]);
        if let Some(root) = &self.root {
            if node_contains(root, target) {
                let start: Vec<Side> = Vec::new();
                let way = path_to(root, target, start);
                assert(way@ =~= home(*root, target));
                let start: Vec<Side> = Vec::new();
                assert(start@ =~= seq![]);
                let mut splits: Vec<PathSplit> = Vec::new();
                collect_split_path(root, area, bias, way.as_slice(), start, &mut splits);
                let ghost cs = crossed(*root, area, bias, way@, seq![]);
                assert(split_views(splits@) =~= cs);
                proof {
                    lemma_home_crosses(*root, target, area, bias, seq![]);
                }
                push_hit(&splits, &way, area, Axis::Horizontal, &mut out);
                push_hit(&splits, &way, area, Axis::Vertical, &mut out);
                assert(hit_views(out@) =~= resize_hits(self.root, target, area, bias));
            }
        }
        out
    }

    /// The fraction of the split that `path` leads to.
    pub fn ratio_at(&self, path: &[Side]) -> (r: Option<Ratio>)
        ensures
            r == match self.root {
                Some(root) => ratio_on(root, path@),
                None => None,
            },
    {
        match &self.root {
            Some(root) => ratio_in(root, path),
            None => None,
        }
    }

    /// Gives the split that `path` leads to the fraction of `raw` steps of
    /// 2^-28, brought between 0.05 and 0.95 so that neither side collapses.
    pub fn set_ratio(&mut self, path: &[Side], raw: i64)
        requires
            old(self).wf(),
        ensures
            final(self).wf(),
            final(self).root == match old(self).root {
                Some(root) => Some(
                    with_ratio(
                        root,
                        path@,
                        Ratio { units: crate::ratio::clamped_units(raw as int) as u32 },
                    ),
                ),
                None => None,
            },
    {
        if let Some(root) = self.root.take() {
            self.root = Some(set_ratio_in(root, path, Ratio::clamped(raw)));
        }
    }

    /// The splits crossed from the root along `path`.
    pub fn path_splits(&self, area: Rect, bias: SplitBias, path: &[Side]) -> (r: Vec<PathSplit>)
        requires
            self.wf(),
            area.fits(),
        ensures
            split_views(r@) == match self.root {
                Some(root) => crossed(root, area, bias, path@, seq![]),
                None => seq![],
            },
    {
        let mut out: Vec<PathSplit> = Vec::new();
        assert(split_views(out@) =~= seq![]);
        if let Some(root) = &self.root {
            let start: Vec<Side> = Vec::new();
            assert(start@ =~= seq![]);
            collect_split_path(root, area, bias, path, start, &mut out);
            assert(split_views(out@) =~= crossed(*root, area, bias, path@, seq![]));
        }
        out
    }
}

fn push_hit(
    splits: &Vec<PathSplit>,
    way: &Vec<Side>,
    area: Rect,
    axis: Axis,
    out: &mut Vec<SplitHit>,
)
    requires
        splits@.len() == way@.len(),
    ensures
        ({
            let i = last_along(split_views(splits@), axis);
            hit_views(final(out)@) == hit_views(old(out)@) + if i >= 0 {
                seq![hit_on(split_views(splits@)[i], area, Some(way@[i]))]
            } else {
                seq![]
            }
        }),
{
    let ghost before = hit_views(out@);
    match last_split_along(splits, axis) {
        Some(i) => {
            let hit = SplitHit {
                output: String::new(),
                workspace: 0,
                path: copy_path(&splits[i].path),
                axis: splits[i].axis,
                area: splits[i].area,
                root_area: area,
                target_side: Some(way[i]),
                topology_revision: 0,
            };
            assert(hit@.output =~= seq![]);
            out.push(hit);
            assert(hit_views(out@) =~= before + seq![hit@]);
        },
        None => {
            assert(before + seq![] =~= before);
        },
    }
}

/// A tree has at least one window.
pub proof fn lemma_windows_nonempty(node: Node)
    ensures
        windows_of(node).len() >= 1,
    decreases node,
{
    if let Node::Split { first, second, .. } = node {
        lemma_windows_nonempty(*first);
    }
}

} // verus!
