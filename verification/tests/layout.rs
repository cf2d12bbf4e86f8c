use tidewm::bsp::{BspLayout, Side, SplitHit, Window};
use tidewm::config::{LayoutAlgorithm, MasterOrientation, SplitBias};
use tidewm::geometry::{
    inset, rect_contains, scale_centered, split, split_axis, Axis, FinePoint, Rect,
};
use tidewm::layouts::{prune_orphaned, Layouts};
use tidewm::master::{layout_master, layout_master_rects};
use tidewm::ratio::{to_single, Ratio, MAX_RATIO, MIN_RATIO};
use tidewm::resize::{signed_resize_weight, ResizeWeight, EPSILON_BITS};
use tidewm::Assoc;

fn area(w: i32, h: i32) -> Rect {
    Rect { x: 0, y: 0, w, h }
}

fn rect(x: i32, y: i32, w: i32, h: i32) -> Rect {
    Rect { x, y, w, h }
}

/// A fraction from its single-precision value.
fn ratio(value: f32) -> Ratio {
    Ratio { units: (value as f64 * 268435456.0) as u32 }
}

/// A change of a fraction from its single-precision value.
fn delta(value: f32) -> i64 {
    (value as f64 * 4503599627370496.0) as i64
}

fn value(ratio: Ratio) -> f32 {
    ratio.units as f32 / 268435456.0
}

fn window(id: u64) -> Window {
    Window { id, surface: Some(id) }
}

fn at(x: i64, y: i64) -> FinePoint {
    FinePoint { x: 65536 * x, y: 65536 * y }
}

#[test]
fn swapping_empty_active_workspaces_does_not_allocate_layout_trees() {
    let mut layouts = Layouts::default();
    layouts.set_active_workspace("DP-1", 4_000_000_001);
    layouts.set_active_workspace("HDMI-A-1", 4_000_000_002);

    layouts.swap_active("DP-1", "HDMI-A-1");

    assert!(layouts.trees.entries.is_empty());
    assert_eq!(layouts.topology_revision, 0);
}

#[test]
fn split_axis_auto_follows_aspect_ratio_but_bias_overrides_it() {
    let wide = area(1000, 500);
    let tall = area(500, 1000);

    assert_eq!(split_axis(wide, SplitBias::Auto), Axis::Horizontal);
    assert_eq!(split_axis(tall, SplitBias::Auto), Axis::Vertical);

    assert_eq!(split_axis(tall, SplitBias::Horizontal), Axis::Horizontal);
    assert_eq!(split_axis(wide, SplitBias::Vertical), Axis::Vertical);
}

#[test]
fn layout_master_rects_handles_zero_one_and_many_windows() {
    assert_eq!(
        layout_master_rects(0, area(1000, 1000), ratio(0.5), MasterOrientation::Left),
        Vec::new()
    );
    assert_eq!(
        layout_master_rects(1, area(1000, 1000), ratio(0.5), MasterOrientation::Left),
        vec![area(1000, 1000)]
    );

    let rects = layout_master_rects(3, area(1200, 900), ratio(0.5), MasterOrientation::Left);
    assert_eq!(rects.len(), 3);
    assert_eq!(rects[0], rect(0, 0, 600, 900));
    assert_eq!(rects[1], rect(600, 0, 600, 450));
    assert_eq!(rects[2], rect(600, 450, 600, 450));
}

#[test]
fn layout_master_rects_stack_division_has_no_rounding_gap_with_an_odd_split() {
    let rects = layout_master_rects(5, area(1000, 901), ratio(0.6), MasterOrientation::Left);
    let stack: Vec<Rect> = rects[1..].to_vec();
    let total_h: i32 = stack.iter().map(|r| r.h).sum();
    assert_eq!(total_h, 901);
    let mut y = 0;
    for rect in &stack {
        assert_eq!(rect.y, y);
        y += rect.h;
    }
}

#[test]
fn layout_master_rects_right_orientation_mirrors_left() {
    let rects = layout_master_rects(3, area(1200, 900), ratio(0.5), MasterOrientation::Right);
    assert_eq!(rects.len(), 3);
    assert_eq!(rects[0], rect(600, 0, 600, 900));
    assert_eq!(rects[1], rect(0, 0, 600, 450));
    assert_eq!(rects[2], rect(0, 450, 600, 450));
}

#[test]
fn layout_master_rects_top_bottom_stack_horizontally_not_vertically() {
    let top = layout_master_rects(3, area(1200, 900), ratio(0.5), MasterOrientation::Top);
    assert_eq!(top.len(), 3);
    assert_eq!(top[0], rect(0, 0, 1200, 450));
    assert_eq!(top[1], rect(0, 450, 600, 450));
    assert_eq!(top[2], rect(600, 450, 600, 450));

    let bottom = layout_master_rects(2, area(1000, 800), ratio(0.25), MasterOrientation::Bottom);
    assert_eq!(bottom.len(), 2);
    assert_eq!(bottom[0], rect(0, 600, 1000, 200));
    assert_eq!(bottom[1], rect(0, 0, 1000, 600));
}

#[test]
fn prune_orphaned_drops_only_keys_with_no_live_tree() {
    let mut overrides: Assoc<(String, u32), LayoutAlgorithm> = Assoc::new();
    overrides.insert(("DP-1".to_string(), 1), LayoutAlgorithm::Master);
    overrides.insert(("DP-1".to_string(), 2), LayoutAlgorithm::Master);
    let live_keys = vec![("DP-1".to_string(), 2)];

    prune_orphaned(&mut overrides, &live_keys);

    assert_eq!(overrides.entries.len(), 1);
    assert!(overrides.contains(&("DP-1".to_string(), 2)));
}

#[test]
fn layouts_algorithm_and_master_ratio_default_until_overridden() {
    let mut layouts = Layouts::default();
    assert_eq!(layouts.algorithm("DP-1", 1), LayoutAlgorithm::Bsp);
    assert!((value(layouts.master_ratio("DP-1", 1)) - 0.5).abs() < f32::EPSILON);

    layouts.set_algorithm("DP-1", 1, LayoutAlgorithm::Master);
    layouts.adjust_master_ratio("DP-1", 1, delta(0.1));
    assert_eq!(layouts.algorithm("DP-1", 1), LayoutAlgorithm::Master);
    assert!((value(layouts.master_ratio("DP-1", 1)) - 0.6).abs() < f32::EPSILON);

    assert_eq!(layouts.algorithm("DP-1", 2), LayoutAlgorithm::Bsp);

    layouts.set_default_algorithm(LayoutAlgorithm::Master);
    assert_eq!(layouts.algorithm("DP-1", 2), LayoutAlgorithm::Master);
}

/// A weight as a single-precision number.
fn weight_value(weight: ResizeWeight) -> f32 {
    let magnitude = f32::from_bits(weight.magnitude);
    if weight.negative {
        -magnitude
    } else {
        magnitude
    }
}

#[test]
fn connected_resize_falloff_is_geometric_and_side_aware() {
    let mut layouts = Layouts::default();
    layouts.set_split_bias(SplitBias::Horizontal);
    for id in 1..=5 {
        layouts.insert("DP-1", 1, window(id), Some(id - 1));
    }
    let hits = layouts.resize_splits("DP-1", 1, area(1600, 500), 4);
    assert_eq!(hits[0].path, vec![Side::Second; 3]);
    let falloff: Vec<u32> = (0..4).map(|distance| 0.5f32.powi(distance).to_bits()).collect();
    let handles = layouts.connected_resize_handles(&hits[0], &falloff, 8);
    let weight = |distance: usize| weight_value(handles[distance].weight).abs();
    assert!((weight(0) - 1.0).abs() < f32::EPSILON);
    assert!((weight(1) - 0.5).abs() < f32::EPSILON);
    assert!((weight(3) - 0.125).abs() < f32::EPSILON);

    let signed = |side| weight_value(signed_resize_weight(0.5f32.to_bits(), side));
    assert_eq!(signed(None), 0.5);
    assert_eq!(signed(Some(Side::First)), 0.5);
    assert_eq!(signed(Some(Side::Second)), -0.5);
    assert_eq!(EPSILON_BITS, f32::EPSILON.to_bits());
}

#[test]
fn fractions_of_lengths_follow_single_precision() {
    for units in [MIN_RATIO, 100_000_000, 161_061_280, MAX_RATIO, 134_217_728] {
        let value = units as f32 / 268435456.0;
        for length in [0, 1, 2, 7, 99, 1080, 1919, 65_535, 16_777_217, 2_147_483_647] {
            let expected = (length as f32 * value).round() as i32;
            assert_eq!(Ratio { units }.of(length), expected, "{units} of {length}");
        }
    }
}

#[test]
fn nudged_fractions_follow_single_precision() {
    for units in [MIN_RATIO, 100_000_000, 161_061_280, MAX_RATIO] {
        for step in [0.05f32, -0.05, 0.1, 0.3, -0.9] {
            let start = units as f32 / 268435456.0;
            let expected = (start + step).clamp(0.05, 0.95);
            assert_eq!(
                value(Ratio { units }.nudged(delta(step))),
                expected,
                "{units} by {step}"
            );
        }
    }
}

#[test]
fn single_precision_rounds_ties_to_even() {
    assert_eq!(to_single(16_777_216), 16_777_216);
    assert_eq!(to_single(16_777_217), 16_777_216);
    assert_eq!(to_single(16_777_219), 16_777_220);
    assert_eq!(to_single(33_554_434), 33_554_432);
}

#[test]
fn clamped_fractions_stay_within_their_bounds() {
    assert_eq!(Ratio::clamped(0).units, MIN_RATIO);
    assert_eq!(Ratio::clamped(i64::MAX).units, MAX_RATIO);
    assert_eq!(Ratio::half().units, 1 << 27);
}

#[test]
fn splits_fill_their_area() {
    let (a, b) = split(area(1001, 500), ratio(0.5), SplitBias::Auto);
    assert_eq!(a, rect(0, 0, 501, 500));
    assert_eq!(b, rect(501, 0, 500, 500));
    let (a, b) = split(rect(10, 20, 300, 900), ratio(0.25), SplitBias::Auto);
    assert_eq!(a, rect(10, 20, 300, 225));
    assert_eq!(b, rect(10, 245, 300, 675));
}

#[test]
fn insets_never_turn_inside_out() {
    assert_eq!(inset(area(100, 80), 5), rect(5, 5, 90, 70));
    let tiny = inset(area(4, 4), 5);
    assert!(tiny.w >= 1 && tiny.h >= 1);
}

#[test]
fn a_point_on_the_far_edge_is_outside() {
    let r = rect(10, 10, 5, 5);
    assert!(rect_contains(r, at(10, 10)));
    assert!(rect_contains(r, FinePoint { x: 65536 * 15 - 1, y: 65536 * 15 - 1 }));
    assert!(!rect_contains(r, at(15, 10)));
    assert!(!rect_contains(r, FinePoint { x: 65536 * 10 - 1, y: 65536 * 10 }));
}

#[test]
fn new_windows_split_the_focused_one() {
    let mut tree = BspLayout::default();
    assert!(tree.is_empty());
    tree.insert(window(1), None);
    tree.insert(window(2), Some(1));
    tree.insert(window(3), Some(1));
    let ids: Vec<u64> = tree.windows().iter().map(|w| w.id).collect();
    assert_eq!(ids, vec![1, 3, 2]);

    let placed = tree.layout(area(1000, 500), 0, SplitBias::Auto);
    assert_eq!(placed[0], (window(1), rect(0, 0, 250, 500)));
    assert_eq!(placed[1], (window(3), rect(250, 0, 250, 500)));
    assert_eq!(placed[2], (window(2), rect(500, 0, 500, 500)));
}

#[test]
fn a_removed_window_leaves_its_room_to_its_sibling() {
    let mut tree = BspLayout::default();
    tree.insert(window(1), None);
    tree.insert(window(2), Some(1));
    tree.insert(window(3), Some(1));
    tree.remove(1);
    assert!(!tree.contains(1));
    let placed = tree.layout(area(1000, 500), 0, SplitBias::Auto);
    assert_eq!(placed, vec![
        (window(3), rect(0, 0, 500, 500)),
        (window(2), rect(500, 0, 500, 500)),
    ]);
    tree.remove(2);
    tree.remove(3);
    assert!(tree.is_empty());
}

#[test]
fn a_window_that_takes_over_a_leaf_keeps_its_place() {
    let mut tree = BspLayout::default();
    tree.insert(window(1), None);
    tree.insert(window(2), Some(1));
    let before = tree.layout(area(1000, 500), 3, SplitBias::Auto);
    tree.replace_leaf(1, &window(9));
    let after = tree.layout(area(1000, 500), 3, SplitBias::Auto);
    assert_eq!(after[0], (window(9), before[0].1));
    assert_eq!(after[1], before[1]);
}

#[test]
fn swapping_twice_changes_nothing() {
    let mut tree = BspLayout::default();
    for id in 1..6 {
        tree.insert(window(id), Some(id - 1));
    }
    let before = tree.layout(area(1920, 1080), 6, SplitBias::Auto);
    tree.swap(2, 5);
    assert_ne!(tree.layout(area(1920, 1080), 6, SplitBias::Auto), before);
    tree.swap(2, 5);
    assert_eq!(tree.layout(area(1920, 1080), 6, SplitBias::Auto), before);
}

#[test]
fn borders_are_hit_within_reach_of_the_gap() {
    let mut tree = BspLayout::default();
    tree.insert(window(1), None);
    tree.insert(window(2), Some(1));
    let hit = |x: i64| {
        tree.hit_test_split(area(1000, 500), 10, at(x, 250), SplitBias::Auto)
    };
    assert!(hit(500).is_some());
    assert!(hit(510).is_some());
    assert!(hit(511).is_none());
    let found = hit(495).unwrap();
    assert_eq!(found.axis, Axis::Horizontal);
    assert!(found.path.is_empty());
    assert!(found.target_side.is_none());
}

#[test]
fn the_nearest_border_is_hit() {
    let mut tree = BspLayout::default();
    tree.insert(window(1), None);
    tree.insert(window(2), Some(1));
    tree.insert(window(3), Some(1));
    let hit = |x: i64, y: i64| {
        tree.hit_test_split(area(1000, 1000), 0, at(x, y), SplitBias::Auto).unwrap().path
    };
    assert_eq!(hit(497, 500), vec![Side::First]);
    assert_eq!(hit(499, 503), Vec::<Side>::new());
    assert_eq!(hit(498, 502), Vec::<Side>::new());
    assert_eq!(hit(503, 500), Vec::<Side>::new());
    assert!(tree
        .hit_test_split(area(1000, 1000), 0, at(400, 300), SplitBias::Auto)
        .is_none());
}

#[test]
fn a_written_fraction_is_read_back() {
    let mut layouts = Layouts::default();
    layouts.insert("DP-1", 1, window(1), None);
    layouts.insert("DP-1", 1, window(2), Some(1));
    assert_eq!(layouts.ratio_at("DP-1", 1, &[]), Some(Ratio::half()));
    layouts.set_ratio("DP-1", 1, &[], ratio(0.75).units as i64);
    assert_eq!(layouts.ratio_at("DP-1", 1, &[]), Some(ratio(0.75)));
    assert_eq!(layouts.ratio_at("DP-1", 1, &[Side::First]), None);
}

#[test]
fn a_border_is_outdated_once_the_tree_changes() {
    let mut layouts = Layouts::default();
    layouts.insert("DP-1", 1, window(1), None);
    layouts.insert("DP-1", 1, window(2), Some(1));
    let hit: SplitHit = layouts
        .hit_test_split("DP-1", 1, area(1000, 500), 10, at(500, 250))
        .unwrap();
    assert!(layouts.split_is_current(&hit));
    layouts.set_ratio("DP-1", 1, &[], 100_000_000);
    assert!(layouts.split_is_current(&hit));
    layouts.insert("DP-1", 1, window(3), Some(2));
    assert!(!layouts.split_is_current(&hit));
}

#[test]
fn connected_borders_move_with_their_weight() {
    let mut layouts = Layouts::default();
    layouts.set_split_bias(SplitBias::Horizontal);
    layouts.insert("DP-1", 1, window(1), None);
    layouts.insert("DP-1", 1, window(2), Some(1));
    layouts.insert("DP-1", 1, window(3), Some(2));
    let hits = layouts.resize_splits("DP-1", 1, area(1200, 500), 3);
    assert_eq!(hits.len(), 1);
    assert_eq!(hits[0].path, vec![Side::Second]);
    assert_eq!(hits[0].target_side, Some(Side::Second));
    let weights: Vec<u32> = (0..2).map(|d| 0.5f32.powi(d).to_bits()).collect();
    let handles = layouts.connected_resize_handles(&hits[0], &weights, 8);
    assert_eq!(handles.len(), 2);
    assert_eq!(handles[0].hit.path, vec![Side::Second]);
    assert_eq!(
        handles[0].weight,
        ResizeWeight { magnitude: 1.0f32.to_bits(), negative: true }
    );
    assert!(handles[1].hit.path.is_empty());
    assert_eq!(
        handles[1].weight,
        ResizeWeight { magnitude: 0.5f32.to_bits(), negative: true }
    );
    assert_eq!(layouts.connected_resize_handles(&hits[0], &weights, 1).len(), 1);
}

#[test]
fn windows_are_found_where_they_were_put() {
    let mut layouts = Layouts::default();
    layouts.insert("DP-1", 3, window(7), None);
    assert!(layouts.contains(7));
    assert_eq!(layouts.output_of(7), Some("DP-1".to_string()));
    assert_eq!(layouts.workspace_of(7), Some(3));
    assert_eq!(layouts.window_of(7), Some(window(7)));
    assert_eq!(layouts.populated_workspaces(), vec![("DP-1".to_string(), 3)]);
    layouts.remove(7);
    assert!(!layouts.contains(7));
    assert!(layouts.populated_workspaces().is_empty());
}

#[test]
fn an_emptied_workspace_forgets_its_overrides() {
    let mut layouts = Layouts::default();
    layouts.insert("DP-1", 1, window(1), None);
    layouts.set_algorithm("DP-1", 1, LayoutAlgorithm::Master);
    layouts.remove(1);
    assert_eq!(layouts.algorithm("DP-1", 1), LayoutAlgorithm::Bsp);
}

#[test]
fn outputs_swap_the_workspaces_they_show() {
    let mut layouts = Layouts::default();
    layouts.insert("DP-1", 1, window(1), None);
    layouts.insert("HDMI-A-1", 2, window(2), None);
    layouts.set_active_workspace("HDMI-A-1", 2);
    layouts.swap_active("DP-1", "HDMI-A-1");
    assert_eq!(layouts.output_of(1), Some("HDMI-A-1".to_string()));
    assert_eq!(layouts.output_of(2), Some("DP-1".to_string()));
    layouts.swap_active("DP-1", "HDMI-A-1");
    assert_eq!(layouts.output_of(1), Some("DP-1".to_string()));
    assert_eq!(layouts.output_of(2), Some("HDMI-A-1".to_string()));
}

#[test]
fn the_master_layout_is_inset_by_the_gap() {
    let windows = vec![window(1), window(2)];
    let placed =
        layout_master(&windows, area(1000, 500), 10, ratio(0.5), MasterOrientation::Left);
    assert_eq!(placed[0], (window(1), rect(10, 10, 480, 480)));
    assert_eq!(placed[1], (window(2), rect(510, 10, 480, 480)));
}

#[test]
fn scaled_rectangles_keep_their_middle() {
    let rect = Rect { x: 10, y: 20, w: 100, h: 50 };
    assert_eq!(scale_centered(rect, (50, 25)), Rect { x: 35, y: 32, w: 50, h: 25 });
    assert_eq!(scale_centered(rect, (105, 50)), Rect { x: 8, y: 20, w: 105, h: 50 });
    assert_eq!(scale_centered(rect, (0, 0)), Rect { x: 59, y: 44, w: 1, h: 1 });
}

#[test]
fn the_master_window_is_where_the_orientation_says() {
    let mut layouts = Layouts::default();
    layouts.insert("DP-1", 1, window(1), None);
    layouts.insert("DP-1", 1, window(2), Some(1));
    layouts.set_algorithm("DP-1", 1, LayoutAlgorithm::Master);
    layouts.set_master_orientation(MasterOrientation::Right);
    let placed = layouts.layout("DP-1", 1, area(1000, 500), 0);
    assert_eq!(placed.len(), 2);
    assert_eq!(placed[0].1.x, 500);
    assert_eq!(placed[1].1.x, 0);
    layouts.set_master_orientation(MasterOrientation::Left);
    assert_eq!(layouts.layout("DP-1", 1, area(1000, 500), 0)[0].1.x, 0);
}

#[test]
fn removing_what_is_tiled_nowhere_changes_nothing() {
    let mut layouts = Layouts::default();
    layouts.set_algorithm("DP-1", 1, LayoutAlgorithm::Master);
    layouts.remove(7);
    assert_eq!(layouts.algorithm("DP-1", 1), LayoutAlgorithm::Master);
    layouts.insert("DP-2", 1, window(7), None);
    layouts.remove(7);
    assert_eq!(layouts.algorithm("DP-1", 1), LayoutAlgorithm::Bsp);
}

#[test]
fn opposite_master_panes_mirror_each_other() {
    let place = rect(7, 11, 1001, 901);
    let of = |orientation| layout_master_rects(4, place, ratio(0.37), orientation);
    let (left, right) = (of(MasterOrientation::Left), of(MasterOrientation::Right));
    let (top, bottom) = (of(MasterOrientation::Top), of(MasterOrientation::Bottom));
    for i in 0..4 {
        assert_eq!((right[i].w, right[i].h, right[i].y), (left[i].w, left[i].h, left[i].y));
        assert_eq!(right[i].x - 7, 7 + 1001 - (left[i].x + left[i].w));
        assert_eq!((bottom[i].w, bottom[i].h, bottom[i].x), (top[i].w, top[i].h, top[i].x));
        assert_eq!(bottom[i].y - 11, 11 + 901 - (top[i].y + top[i].h));
    }
}

#[test]
fn the_areas_of_a_layout_add_up() {
    let mut tree = BspLayout::default();
    tree.insert(window(1), None);
    tree.insert(window(2), Some(1));
    tree.insert(window(3), Some(2));
    tree.insert(window(4), Some(1));
    let placed = tree.layout(area(1003, 501), 0, SplitBias::Auto);
    assert_eq!(placed.iter().map(|p| p.1.w * p.1.h).sum::<i32>(), 1003 * 501);
    let drawn_in = tree.layout(area(1003, 501), 5, SplitBias::Auto);
    for (wide, narrow) in placed.iter().zip(&drawn_in) {
        assert_eq!(narrow.1, rect(wide.1.x + 5, wide.1.y + 5, wide.1.w - 10, wide.1.h - 10));
    }
}
