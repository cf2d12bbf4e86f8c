//! What holds of points: where they lie, and which border of a tree they are on.

use vstd::prelude::*;

use crate::bsp::{around, border_at, distance_to, node_wf, touches, CrossedSplit, Node, Side};
use crate::cast_registry::{object_path_of, valid_path, ObjectKind};
use crate::config::SplitBias;
use crate::geometry::{axis_of, first_part, law_split_divides_exactly, second_part, FinePoint, Rect};
use crate::text::decimal;

verus! {

/// A point lies in a rectangle where the pixel that it is on does.
pub proof fn law_a_point_lies_where_its_pixel_does(rect: Rect, p: FinePoint)
    ensures
        rect.has_point(p) <==> rect.covers(p.x as int / 65536, p.y as int / 65536),
{
}

/// A rectangle covers the pixels from its left and top edges up to, but not onto, its right
/// and bottom edges, and is within another that covers all of them.
pub proof fn law_rectangles_are_half_open(rect: Rect, outer: Rect, px: int, py: int)
    ensures
        rect.covers(px, py) <==> rect.x <= px && px < rect.x + rect.w && rect.y <= py && py < rect.y
            + rect.h,
        rect.within(outer) && rect.covers(px, py) ==> outer.covers(px, py),
        rect.fits() <==> i32::MIN <= rect.x + rect.w <= i32::MAX && i32::MIN <= rect.y + rect.h
            <= i32::MAX,
{
}

/// The way down a tree to a point goes through parts around the point, from the whole tree
/// on, each split with the axis that its part has.
pub proof fn law_the_way_to_a_point_stays_around_it(
    node: Node,
    area: Rect,
    p: FinePoint,
    bias: SplitBias,
    prefix: Seq<Side>,
    i: int,
)
    requires
        node_wf(node),
        area.fits(),
        area.w >= 0,
        area.h >= 0,
        area.has_point(p),
        0 <= i < around(node, area, p, bias, prefix).len(),
    ensures
        ({
            let way = around(node, area, p, bias, prefix);
            &&& way[i].area.has_point(p)
            &&& way[i].axis == axis_of(way[i].area, bias)
            &&& way[i].path.len() == prefix.len() + i
            &&& way[0].area == area
            &&& node matches Node::Split { ratio, .. } ==> way[0].ratio == ratio
        }),
    decreases node,
{
    if let Node::Split { ratio, first, second } = node {
        let a = first_part(area, ratio, bias);
        let b = second_part(area, ratio, bias);
        law_split_divides_exactly(area, ratio, bias);
        let (px, py) = (p.x as int / 65536, p.y as int / 65536);
        law_a_point_lies_where_its_pixel_does(area, p);
        law_a_point_lies_where_its_pixel_does(a, p);
        law_a_point_lies_where_its_pixel_does(b, p);
        assert(area.covers(px, py));
        let way = around(node, area, p, bias, prefix);
        if i > 0 {
            if a.has_point(p) {
                let rest = around(*first, a, p, bias, prefix.push(Side::First));
                assert(way[i] == rest[i - 1]);
                law_the_way_to_a_point_stays_around_it(
                    *first,
                    a,
                    p,
                    bias,
                    prefix.push(Side::First),
                    i - 1,
                );
            } else {
                let rest = around(*second, b, p, bias, prefix.push(Side::Second));
                assert(way[i] == rest[i - 1]);
                law_the_way_to_a_point_stays_around_it(
                    *second,
                    b,
                    p,
                    bias,
                    prefix.push(Side::Second),
                    i - 1,
                );
            }
        }
    }
}

/// A split on the way is the nearest that the point is on: none that it is on is nearer, and
/// none further out is as near.
pub open spec fn nearest_on(
    way: Seq<CrossedSplit>,
    i: int,
    gap: int,
    p: FinePoint,
    bias: SplitBias,
) -> bool {
    &&& 0 <= i < way.len()
    &&& touches(way[i], bias, gap, p)
    &&& forall|j: int|
        0 <= j < way.len() && touches(#[trigger] way[j], bias, gap, p) ==> distance_to(
            way[i],
            bias,
            p,
        ) <= distance_to(way[j], bias, p)
    &&& forall|j: int|
        0 <= j < i && touches(#[trigger] way[j], bias, gap, p) ==> distance_to(way[i], bias, p)
            < distance_to(way[j], bias, p)
}

/// The border that is hit is the nearest on the way that the point is on, and none is hit
/// only where it is on none.
pub proof fn law_the_nearest_border_on_the_way_is_hit(
    node: Node,
    area: Rect,
    gap: int,
    p: FinePoint,
    bias: SplitBias,
    prefix: Seq<Side>,
)
    ensures
        ({
            let way = around(node, area, p, bias, prefix);
            let hit = border_at(node, area, gap, p, bias, prefix);
            &&& hit is Some ==> exists|i: int| #[trigger]
                nearest_on(way, i, gap, p, bias) && hit->0 == way[i]
            &&& hit is None ==> forall|i: int|
                0 <= i < way.len() ==> !touches(#[trigger] way[i], bias, gap, p)
        }),
{
    let way = around(node, area, p, bias, prefix);
    let hit = border_at(node, area, gap, p, bias, prefix);
    crate::bsp::law_the_nearest_border_is_hit(node, area, gap, p, bias, prefix);
    if hit is Some {
        let i = choose|i: int| #[trigger]
            crate::bsp::is_nearest(way, i, gap, p, bias) && hit->0 == way[i];
        assert(nearest_on(way, i, gap, p, bias));
    }
}

/// The path of an object starts with a slash, holds letters, digits, underscores and
/// slashes, and has no empty part.
pub proof fn law_paths_are_made_of_names(path: Seq<char>, name: Seq<char>, i: int)
    ensures
        valid_path(path) ==> path.len() > 0 && path[0] == '/',
        valid_path(path) && 0 <= i < path.len() ==> ('a' <= path[i] <= 'z') || ('A' <= path[i]
            <= 'Z') || ('0' <= path[i] <= '9') || path[i] == '_' || path[i] == '/',
        valid_path(path) && 0 <= i < path.len() - 1 && path[i] == '/' ==> path[i + 1] != '/',
        valid_path(path) && path.len() > 1 ==> path.last() != '/',
        valid_path(seq!['/']),
        valid_path(path) && path.len() > 1 && name.len() > 0 && (forall|j: int|
            0 <= j < name.len() ==> ('a' <= #[trigger] name[j] <= 'z') || ('A' <= name[j] <= 'Z')
                || ('0' <= name[j] <= '9') || name[j] == '_') ==> valid_path(
            path + seq!['/'] + name,
        ),
{
    if 0 <= i < path.len() && valid_path(path) {
        assert(crate::cast_registry::path_char(path[i]));
    }
    let long = path + seq!['/'] + name;
    if valid_path(path) && path.len() > 1 && name.len() > 0 && (forall|j: int|
        0 <= j < name.len() ==> ('a' <= #[trigger] name[j] <= 'z') || ('A' <= name[j] <= 'Z') || (
        '0' <= name[j] <= '9') || name[j] == '_') {
        let n = path.len() as int;
        assert(long.last() == name[name.len() - 1]);
        assert forall|k: int| 0 <= k < long.len() implies crate::cast_registry::path_char(
            #[trigger] long[k],
        ) by {
            if k < n {
                assert(long[k] == path[k]);
            } else if k > n {
                assert(long[k] == name[k - n - 1]);
            }
        }
        assert forall|k: int| 0 <= k < long.len() - 1 && #[trigger] long[k] == '/' implies long[k
            + 1] != '/' by {
            if k < n - 1 {
                assert(path[k] == long[k] && path[k + 1] == long[k + 1]);
            } else if k == n - 1 {
                assert(path[n - 1] == long[k]);
            } else {
                assert(long[k + 1] == name[k - n]);
            }
        }
    }
}

/// Sessions and streams have their own places, and a number each.
pub proof fn law_objects_are_numbered_in_their_place(id: nat)
    ensures
        object_path_of(ObjectKind::Session, id) == "/org/gnome/Mutter/ScreenCast/Session/u"@
            + decimal(id),
        object_path_of(ObjectKind::Stream, id) == "/org/gnome/Mutter/ScreenCast/Stream/u"@
            + decimal(id),
{
}

} // verus!
