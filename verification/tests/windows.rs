use tidewm::ancestors::{ancestor_pids, parent_pid, AncestorWalk, MAX_ANCESTORS};
use tidewm::bsp::Window;
use tidewm::compositor::{
    committed_window, dmabuf_blocker_admitted, pre_commit, surface_root, PreCommit,
    MAX_PENDING_DMABUF_BLOCKERS_PER_CLIENT, MAX_PENDING_DMABUF_BLOCKERS_TOTAL,
};
use tidewm::config::WindowRule;
use tidewm::desk::{
    Desk, DeskFacts, DeskOutput, HomeOutput, SizeReply, Toggled, VisibleWindow, WindowModes,
};
use tidewm::geometry::Rect;
use tidewm::layer_shell::{
    exclusive_layer, handle_commit, layer_home, layer_lifecycle_transition, layer_output,
    KeyboardInteractivity, Layer, LayerCommit, LayerFocus, LayerSurfaces, LayerTracking,
    LayerTransition, StackedLayer,
};
use tidewm::layouts::Layouts;
use tidewm::looks::{LookRule, WindowLooks};
use tidewm::popups::{
    popup_grab, unconstrain_popup, update_reactive_popups, DeviceGrab, HangingPopup, LayerPlace,
    PopupGrabReply, PopupStep, Popups,
};
use tidewm::toplevels::{
    check_grab, identity_changed, CommitFacts, MapFacts, MapOutcome, Toplevels,
};
use tidewm::wlr_foreign_toplevel::{toplevel_request, ToplevelAction, ToplevelRequest};
use tidewm::xdg_shell::{
    is_dimension_pinned, lifecycle_transition, skips_first_tile_configure, RefusalFacts,
    TilingRefusals, ToplevelTracking, ToplevelTransition,
};
use tidewm::Assoc;

fn rect(x: i32, y: i32, w: i32, h: i32) -> Rect {
    Rect { x, y, w, h }
}

fn window(id: u64) -> Window {
    Window { id, surface: Some(id) }
}

fn desk() -> Desk {
    Desk {
        facts: DeskFacts {
            layouts: Layouts::default(),
            outputs: vec![
                DeskOutput {
                    id: 1,
                    name: "DP-1".to_string(),
                    geometry: Some(rect(0, 0, 1920, 1080)),
                    tiling_area: Some(rect(0, 30, 1920, 1050)),
                    gaps: 6,
                },
                DeskOutput {
                    id: 2,
                    name: "HDMI-A-1".to_string(),
                    geometry: Some(rect(1920, 0, 1280, 1024)),
                    tiling_area: Some(rect(1920, 0, 1280, 1024)),
                    gaps: 6,
                },
            ],
            primary: Some(1),
            unmapped: Assoc::new(),
            visible: Assoc::new(),
            ocean: Assoc::new(),
            parked: Assoc::new(),
            next_tab: Assoc::new(),
            put_away: Assoc::new(),
            tiled_rects: Assoc::new(),
        },
        modes: WindowModes {
            fullscreen: Assoc::new(),
            maximized: Assoc::new(),
            floating_workspace: Assoc::new(),
            pinned: Assoc::new(),
        },
    }
}

fn toplevels() -> Toplevels {
    Toplevels {
        desk: desk(),
        refusals: TilingRefusals::new(),
        pseudo_tiled: Assoc::new(),
        urgent: Assoc::new(),
        expected_tiled_size: Assoc::new(),
        focus_history: Vec::new(),
        swallowed: Assoc::new(),
        numeric_ids: Assoc::new(),
        next_numeric_id: 1,
        looks: WindowLooks::new(),
    }
}

const PLAIN: LookRule = LookRule { opacity: None, glass: None };

fn map_facts() -> MapFacts {
    MapFacts {
        rule: WindowRule::default(),
        looks: PLAIN,
        has_parent: false,
        min_size: (0, 0),
        max_size: (0, 0),
        focused: None,
        ocean: false,
        swallow_rules: false,
        pids: Assoc::new(),
        swallowers: Assoc::new(),
        ancestors: Vec::new(),
    }
}

fn show(desk: &mut Desk, s: u64, place: Rect, output: u64) {
    desk.facts.visible.insert(
        s,
        VisibleWindow { window: window(s), rect: place, output: Some(output) },
    );
}

#[test]
fn dmabuf_blocker_caps_accept_below_and_reject_at_each_limit() {
    assert!(dmabuf_blocker_admitted(0, 0));
    assert!(dmabuf_blocker_admitted(
        MAX_PENDING_DMABUF_BLOCKERS_PER_CLIENT - 1,
        MAX_PENDING_DMABUF_BLOCKERS_TOTAL - 1,
    ));
    assert!(!dmabuf_blocker_admitted(MAX_PENDING_DMABUF_BLOCKERS_PER_CLIENT, 0));
    assert!(!dmabuf_blocker_admitted(0, MAX_PENDING_DMABUF_BLOCKERS_TOTAL));
}

#[test]
fn commits_wait_for_buffers_within_the_limits() {
    assert_eq!(pre_commit(false, false, true, 0, 0), PreCommit::Proceed);
    assert_eq!(pre_commit(true, true, true, 0, 0), PreCommit::Proceed);
    assert_eq!(pre_commit(true, false, false, 0, 0), PreCommit::Proceed);
    assert_eq!(pre_commit(true, false, true, 63, 1023), PreCommit::Block);
    assert_eq!(pre_commit(true, false, true, 64, 64), PreCommit::Disconnect);
}

#[test]
fn commits_belong_to_the_root_of_their_tree() {
    assert_eq!(surface_root(3, &vec![]), 3);
    assert_eq!(surface_root(3, &vec![2, 1]), 1);
    assert_eq!(committed_window(true, Some(1), None, 1), None);
    assert_eq!(committed_window(false, Some(1), None, 1), Some((1, true)));
    assert_eq!(committed_window(false, None, Some(1), 2), Some((1, false)));
    assert_eq!(committed_window(false, None, None, 2), None);
}

#[test]
fn layer_role_without_buffer_stays_unmapped() {
    assert_eq!(
        layer_lifecycle_transition(LayerTracking::Unmapped, false),
        LayerTransition::NoChange
    );
}

#[test]
fn layer_maps_once_and_unmaps_on_null_buffer() {
    assert_eq!(
        layer_lifecycle_transition(LayerTracking::Unmapped, true),
        LayerTransition::ToMapped
    );
    assert_eq!(
        layer_lifecycle_transition(LayerTracking::Mapped, true),
        LayerTransition::NoChange
    );
    assert_eq!(
        layer_lifecycle_transition(LayerTracking::Mapped, false),
        LayerTransition::ToUnmapped
    );
}

#[test]
fn layer_remap_requires_unmapped_phase_before_buffer() {
    assert_eq!(
        layer_lifecycle_transition(LayerTracking::Unmapped, false),
        LayerTransition::NoChange
    );
    assert_eq!(
        layer_lifecycle_transition(LayerTracking::Unmapped, true),
        LayerTransition::ToMapped
    );
}

#[test]
fn layer_commits_map_focus_and_configure() {
    let mut state = LayerSurfaces::new();
    state.track(5);
    let first = handle_commit(
        &mut state,
        5,
        &vec![],
        true,
        false,
        false,
        KeyboardInteractivity::Exclusive,
    );
    assert!(matches!(
        first,
        LayerCommit::Committed { transition: LayerTransition::NoChange, send_configure: true, .. }
    ));
    let mapped =
        handle_commit(&mut state, 5, &vec![], true, true, true, KeyboardInteractivity::Exclusive);
    assert_eq!(
        mapped,
        LayerCommit::Committed {
            transition: LayerTransition::ToMapped,
            send_configure: false,
            focus: LayerFocus::Take,
        }
    );
    assert!(!state.unmapped.contains(&5));
    let other =
        handle_commit(&mut state, 9, &vec![], false, true, true, KeyboardInteractivity::Refused);
    assert_eq!(other, LayerCommit::NotALayer);
    state.track(6);
    state.forget(6);
    assert!(!state.unmapped.contains(&6));
}

#[test]
fn the_highest_layer_gets_the_keyboard() {
    let layer = |surface, layer, interactivity| StackedLayer {
        surface,
        layer,
        mapped: true,
        interactivity,
    };
    let outputs = vec![
        vec![
            layer(1, Layer::Top, KeyboardInteractivity::Exclusive),
            layer(2, Layer::Top, KeyboardInteractivity::Exclusive),
            layer(3, Layer::Overlay, KeyboardInteractivity::OnDemand),
        ],
        vec![layer(4, Layer::Overlay, KeyboardInteractivity::Exclusive)],
    ];
    assert_eq!(exclusive_layer(&outputs), Some(4));
    assert_eq!(exclusive_layer(&vec![outputs[0].clone()]), Some(2));
    assert_eq!(exclusive_layer(&vec![]), None);
    assert_eq!(layer_home(&outputs, 4), Some(1));
    assert_eq!(layer_home(&outputs, 9), None);
    assert_eq!(layer_output(Some(7), &vec![1, 7], Some(1)), Some(7));
    assert_eq!(layer_output(Some(8), &vec![1, 7], Some(1)), Some(1));
    assert_eq!(layer_output(None, &vec![1, 7], None), None);
}

#[test]
fn role_without_buffer_stays_unmapped() {
    assert_eq!(
        lifecycle_transition(ToplevelTracking::Unmapped, false),
        ToplevelTransition::NoChange
    );
}

#[test]
fn first_buffer_maps_and_repeated_buffer_does_not_map_twice() {
    assert_eq!(
        lifecycle_transition(ToplevelTracking::Unmapped, true),
        ToplevelTransition::ToMapped
    );
    assert_eq!(
        lifecycle_transition(ToplevelTracking::Mapped, true),
        ToplevelTransition::NoChange
    );
}

#[test]
fn null_buffer_unmaps_and_a_later_buffer_remaps() {
    assert_eq!(
        lifecycle_transition(ToplevelTracking::Mapped, false),
        ToplevelTransition::ToUnmapped
    );
    assert_eq!(
        lifecycle_transition(ToplevelTracking::Unmapped, false),
        ToplevelTransition::NoChange
    );
    assert_eq!(
        lifecycle_transition(ToplevelTracking::Unmapped, true),
        ToplevelTransition::ToMapped
    );
}

#[test]
fn unrelated_surface_never_enters_toplevel_lifecycle() {
    assert_eq!(
        lifecycle_transition(ToplevelTracking::Unknown, false),
        ToplevelTransition::NoChange
    );
    assert_eq!(
        lifecycle_transition(ToplevelTracking::Unknown, true),
        ToplevelTransition::NoChange
    );
}

#[test]
fn plain_float_conversion_without_a_size_rule_keeps_the_tile_configure() {
    let mut rule = WindowRule::default();
    assert!(!skips_first_tile_configure(&rule, false));
    rule.float = true;
    assert!(!skips_first_tile_configure(&rule, false));
    rule.float = false;
    rule.pin = true;
    assert!(!skips_first_tile_configure(&rule, false));
    rule.pin = false;
    assert!(!skips_first_tile_configure(&rule, true));
}

#[test]
fn conversions_with_a_guaranteed_second_configure_skip_the_first() {
    let maximize = WindowRule { maximize: true, ..Default::default() };
    assert!(skips_first_tile_configure(&maximize, false));

    let fullscreen = WindowRule { fullscreen: true, ..Default::default() };
    assert!(skips_first_tile_configure(&fullscreen, false));

    let pseudo_tile = WindowRule { pseudo_tile: true, ..Default::default() };
    assert!(skips_first_tile_configure(&pseudo_tile, false));

    let sized_float = WindowRule { float: true, size: Some((640, 480)), ..Default::default() };
    assert!(skips_first_tile_configure(&sized_float, false));

    let positioned_pin = WindowRule { pin: true, position: Some((0, 0)), ..Default::default() };
    assert!(skips_first_tile_configure(&positioned_pin, false));

    let positioned = WindowRule { position: Some((10, 10)), ..Default::default() };
    assert!(skips_first_tile_configure(&positioned, true));
}

#[test]
fn pinned_dimension_matches_sways_wants_floating() {
    assert!(!is_dimension_pinned((0, 0), (0, 0)));
    assert!(!is_dimension_pinned((200, 200), (1600, 1200)));
    assert!(is_dimension_pinned((400, 300), (400, 300)));
    assert!(is_dimension_pinned((400, 300), (400, 800)));
    assert!(is_dimension_pinned((400, 300), (900, 300)));
    assert!(!is_dimension_pinned((400, 0), (400, 800)));
}

#[test]
fn ancestor_pids_walks_up_without_including_self() {
    let status = |ppid: i32| Some(format!("Name:\tx\nPid:\t1\nPPid:\t{ppid}\nUid:\t0\n"));
    let own_pid = 300;
    let ancestors = ancestor_pids(own_pid, &vec![status(200), status(1)]);
    assert!(!ancestors.is_empty());
    assert!(!ancestors.contains(&own_pid));
    assert_eq!(ancestors, vec![200]);
    // No process has this number.
    assert!(ancestor_pids(-1, &vec![None]).is_empty());
}

#[test]
fn ancestor_walks_end() {
    assert_eq!(parent_pid("PPid:\t42\n"), Some(42));
    assert_eq!(parent_pid("PPid:\tx\n"), None);
    assert_eq!(parent_pid("Pid:\t42\n"), None);
    let mut walk = AncestorWalk::new(100);
    let mut steps = 0;
    while let Some(pid) = walk.wanted() {
        assert_eq!(pid, 100 + steps);
        steps += 1;
        walk.step(&Some(format!("PPid:\t{}\n", 100 + steps)));
    }
    assert_eq!(walk.found.len(), MAX_ANCESTORS);
}

#[test]
fn fluttering_windows_are_left_to_float() {
    let mut refusals = TilingRefusals::new();
    let alive = vec![7];
    let mut now = 0;
    for _ in 0..3 {
        refusals.note_toplevel_flutter(7, false, now, &alive);
        now += 10_000_000;
        refusals.note_toplevel_flutter(7, true, now, &alive);
        now += 10_000_000;
    }
    assert!(refusals.floated.contains(&7));

    let mut calm = TilingRefusals::new();
    let mut now = 0;
    for _ in 0..10 {
        calm.note_toplevel_flutter(7, false, now, &alive);
        now += 1_000_000_001;
        calm.note_toplevel_flutter(7, true, now, &alive);
    }
    assert!(!calm.floated.contains(&7));
}

#[test]
fn windows_that_keep_refusing_their_tile_float() {
    let facts = RefusalFacts {
        expected: Some((800, 600)),
        tiled: true,
        fullscreen: false,
        grabbed: false,
        actual: Some((640, 480)),
    };
    let mut refusals = TilingRefusals::new();
    assert!(!refusals.note_tiled_size_refusal(7, &facts, 0));
    assert!(!refusals.note_tiled_size_refusal(7, &facts, 100_000_000));
    assert!(!refusals.note_tiled_size_refusal(7, &facts, 200_000_000));
    assert!(refusals.note_tiled_size_refusal(7, &facts, 600_000_000));

    let close = RefusalFacts { actual: Some((795, 608)), ..facts };
    let mut refusals = TilingRefusals::new();
    for i in 0..10 {
        assert!(!refusals.note_tiled_size_refusal(7, &close, i * 1_000_000_000));
    }
}

#[test]
fn a_window_lives_from_its_first_buffer_to_its_last() {
    let mut top = toplevels();
    top.new_toplevel(7, window(7));
    let facts = |has_buffer, now| CommitFacts {
        has_buffer,
        now,
        focused: None,
        grabbed: false,
        actual: None,
        initial_configure_sent: false,
        restored_looks: PLAIN,
        map: map_facts(),
    };
    let first = top.handle_commit(7, &facts(false, 0));
    assert_eq!(first.transition, ToplevelTransition::NoChange);
    assert!(first.configure);

    let mapped = top.handle_commit(7, &facts(true, 1));
    assert_eq!(mapped.transition, ToplevelTransition::ToMapped);
    let Some(MapOutcome::Shown(plan)) = mapped.shown else {
        panic!("the window is shown");
    };
    assert_eq!((plan.output, plan.workspace), (1, 1));
    assert!(!plan.float && plan.focus);
    assert!(top.desk.facts.layouts.contains(7));
    assert_eq!(top.numeric_ids.get(&7), Some(&1));

    let gone = top.handle_commit(7, &facts(false, 2));
    assert_eq!(gone.transition, ToplevelTransition::ToUnmapped);
    assert_eq!(gone.unmapped.unwrap().gone.numeric_id, Some(1));
    assert!(!top.desk.facts.layouts.contains(7));
    assert!(top.desk.facts.unmapped.contains(&7));
    assert!(!top.numeric_ids.contains(&7));
}

#[test]
fn windows_look_as_their_rules_say_with_every_commit() {
    let mut top = toplevels();
    top.new_toplevel(7, window(7));
    let facts = |has_buffer, looks| CommitFacts {
        has_buffer,
        now: 0,
        focused: None,
        grabbed: false,
        actual: None,
        initial_configure_sent: false,
        restored_looks: PLAIN,
        map: MapFacts { looks, ..map_facts() },
    };
    let both = LookRule { opacity: Some(80), glass: Some(2) };
    top.handle_commit(7, &facts(false, both));
    assert_eq!(top.looks.opacity.get(&7), None);
    top.handle_commit(7, &facts(true, both));
    assert_eq!(top.looks.opacity.get(&7), Some(&80));
    assert_eq!(top.looks.glass.get(&7), Some(&2));
    top.handle_commit(7, &facts(true, LookRule { opacity: Some(90), glass: None }));
    assert_eq!(top.looks.opacity.get(&7), Some(&90));
    assert_eq!(top.looks.glass.get(&7), None);
    top.handle_commit(7, &facts(false, both));
    assert_eq!(top.looks.opacity.get(&7), None);
}

#[test]
fn the_next_tab_takes_the_place_of_one_that_goes() {
    let mut top = toplevels();
    for s in [1, 2] {
        top.new_toplevel(s, window(s));
        top.map_toplevel(s, &map_facts());
    }
    top.desk.facts.parked.insert(3, window(3));
    top.desk.facts.next_tab.insert(1, window(3));
    let before = top.desk.facts.layouts.windows_in("DP-1", 1);
    top.toplevel_destroyed(1, None, &PLAIN);
    assert!(!top.desk.facts.layouts.contains(1));
    assert!(top.desk.facts.layouts.contains(2) && top.desk.facts.layouts.contains(3));
    assert!(!top.desk.facts.parked.contains(&3));
    assert!(!top.desk.facts.next_tab.contains(&1));
    let place = before.iter().position(|w| *w == window(1));
    let after = top.desk.facts.layouts.windows_in("DP-1", 1);
    assert_eq!(after.iter().position(|w| *w == window(3)), place);
    assert_eq!(after.len(), before.len());
}

#[test]
fn a_window_without_an_output_is_closed() {
    let mut top = toplevels();
    top.desk.facts.outputs.clear();
    top.new_toplevel(7, window(7));
    assert!(matches!(
        top.map_toplevel(7, &map_facts()),
        MapOutcome::NoOutput { close: true }
    ));
    assert!(matches!(
        toplevels().map_toplevel(8, &map_facts()),
        MapOutcome::Gone
    ));
}

#[test]
fn a_child_takes_the_place_of_its_terminal_and_gives_it_back() {
    let mut top = toplevels();
    top.new_toplevel(1, window(1));
    top.map_toplevel(1, &map_facts());
    top.new_toplevel(2, window(2));
    let mut facts = map_facts();
    facts.swallow_rules = true;
    facts.pids.insert(1, 100);
    facts.pids.insert(2, 200);
    facts.swallowers.insert(1, ());
    facts.ancestors = vec![150, 100];
    let MapOutcome::Shown(plan) = top.map_toplevel(2, &facts) else {
        panic!("the window is shown");
    };
    assert_eq!(plan.swallows, Some(1));
    assert!(!top.desk.facts.layouts.contains(1));
    assert!(top.swallowed.contains(&2));

    let dim = LookRule { opacity: Some(80), glass: None };
    assert_eq!(top.looks.opacity.get(&1), None);
    let outcome = top.toplevel_destroyed(2, Some(2), &dim);
    assert_eq!(top.looks.opacity.get(&1), Some(&80));
    assert_eq!(outcome.restored, Some((window(1), true)));
    assert!(top.desk.facts.layouts.contains(1));
    assert!(!top.desk.facts.layouts.contains(2));
}

#[test]
fn windows_that_cannot_be_resized_float() {
    let mut top = toplevels();
    top.new_toplevel(7, window(7));
    let mut facts = map_facts();
    facts.min_size = (400, 300);
    facts.max_size = (400, 300);
    let MapOutcome::Shown(mut plan) = top.map_toplevel(7, &facts) else {
        panic!("the window is shown");
    };
    assert!(plan.float);
    assert!(!plan.pin);
    top.floated_by_plan(7, &plan);
    assert!(!top.desk.modes.pinned.contains(&7));
    plan.pin = true;
    top.floated_by_plan(7, &plan);
    assert!(top.desk.modes.pinned.contains(&7));
}

#[test]
fn numbers_are_given_once() {
    let mut top = toplevels();
    assert_eq!(top.announce_foreign_toplevel(4), 1);
    assert_eq!(top.announce_foreign_toplevel(5), 2);
    top.detach_mapped_toplevel(4);
    assert_eq!(top.announce_foreign_toplevel(4), 3);
}

#[test]
fn dragging_needs_a_click_on_a_floating_window() {
    let mut top = toplevels();
    show(&mut top.desk, 7, rect(5, 6, 70, 80), 1);
    assert_eq!(top.drag_start(7, true, Some(7)), Some(rect(5, 6, 70, 80)));
    assert_eq!(top.drag_start(7, true, Some(8)), None);
    assert_eq!(top.drag_start(7, false, Some(7)), None);
    top.desk.facts.layouts.insert("DP-1", 1, window(7), None);
    assert_eq!(top.drag_start(7, true, Some(7)), None);
    assert!(check_grab(true, Some(7), 7));
    assert!(!check_grab(true, Some(8), 7));
    assert!(!check_grab(false, Some(7), 7));
}

#[test]
fn titles_are_told_when_they_change() {
    let told = Some(("a".to_string(), "b".to_string()));
    let same = (Some("a".to_string()), Some("b".to_string()));
    assert!(!identity_changed(ToplevelTransition::NoChange, &told, &same.0, &same.1));
    assert!(identity_changed(
        ToplevelTransition::NoChange,
        &told,
        &Some("c".to_string()),
        &same.1
    ));
}

#[test]
fn fullscreen_windows_go_back_where_they_came_from() {
    let mut desk = desk();
    show(&mut desk, 7, rect(100, 100, 640, 480), 1);
    let entered = desk.do_fullscreen_request(7, None);
    assert_eq!(entered.reply.fullscreen, Some(true));
    assert_eq!(entered.reply.size, SizeReply::Fixed(1920, 1080));
    assert_eq!(desk.shown_modes(7), (false, true));
    let left = desk.do_unfullscreen(7);
    assert_eq!(left.fullscreen, Some(false));
    assert_eq!(left.size, SizeReply::Fixed(640, 480));
    assert_eq!(left.place, Some((100, 100)));
    assert_eq!(desk.shown_modes(7), (false, false));
}

#[test]
fn an_output_has_one_fullscreen_window() {
    let mut desk = desk();
    show(&mut desk, 7, rect(100, 100, 640, 480), 1);
    show(&mut desk, 8, rect(200, 200, 640, 480), 1);
    desk.do_fullscreen_request(7, None);
    let second = desk.do_fullscreen_request(8, None);
    assert_eq!(second.preempted.map(|p| p.surface), Some(7));
    assert!(!desk.modes.fullscreen.contains(&7));
    assert!(desk.modes.fullscreen.contains(&8));
}

#[test]
fn maximized_windows_fill_the_tiling_area() {
    let mut desk = desk();
    show(&mut desk, 7, rect(100, 100, 640, 480), 1);
    let reply = desk.do_maximize_request(7, true);
    assert_eq!(reply.maximized, Some(true));
    assert_eq!(reply.size, SizeReply::Fixed(1908, 1038));
    assert_eq!(reply.place, Some((6, 36)));
    let back = desk.do_unmaximize_request(7);
    assert_eq!(back.maximized, Some(false));
    assert_eq!(back.size, SizeReply::Fixed(640, 480));
    assert_eq!(back.place, Some((100, 100)));
}

#[test]
fn fullscreen_hides_the_maximized_mode_and_gives_it_back() {
    let mut desk = desk();
    show(&mut desk, 7, rect(100, 100, 640, 480), 1);
    desk.do_maximize_request(7, true);
    desk.do_fullscreen_request(7, None);
    assert_eq!(desk.shown_modes(7), (false, true));
    let reply = desk.do_unfullscreen(7);
    assert_eq!(reply.maximized, Some(true));
    assert_eq!(desk.shown_modes(7), (true, false));
}

#[test]
fn toggles_act_on_the_focused_window_that_is_seen() {
    let mut desk = desk();
    show(&mut desk, 7, rect(100, 100, 640, 480), 1);
    assert_eq!(desk.toggle_fullscreen(None, false), Toggled::Nothing);
    assert_eq!(desk.toggle_fullscreen(Some(9), false), Toggled::Nothing);
    assert_eq!(desk.toggle_fullscreen(Some(7), true), Toggled::Nothing);
    assert!(matches!(desk.toggle_fullscreen(Some(7), false), Toggled::Entered(7, _)));
    assert!(matches!(desk.toggle_fullscreen(Some(7), false), Toggled::Changed(7, _)));
    assert!(matches!(desk.toggle_maximize(Some(7), false, true), Toggled::Changed(7, _)));
}

#[test]
fn a_toggle_tells_only_the_window_that_makes_room() {
    let mut desk = desk();
    show(&mut desk, 7, rect(100, 100, 640, 480), 1);
    show(&mut desk, 8, rect(200, 200, 640, 480), 1);
    show(&mut desk, 9, rect(2000, 100, 640, 480), 2);
    desk.do_fullscreen_request(9, None);
    let Toggled::Entered(7, first) = desk.toggle_fullscreen(Some(7), false) else {
        panic!("the window goes fullscreen");
    };
    assert_eq!(first.preempted, None);
    let Toggled::Entered(8, second) = desk.toggle_fullscreen(Some(8), false) else {
        panic!("the window goes fullscreen");
    };
    let room = second.preempted.unwrap();
    assert_eq!(room.surface, 7);
    let told = room.reply.unwrap();
    assert_eq!(told.fullscreen, Some(false));
    assert_eq!(told.place, Some((100, 100)));
    assert!(!desk.modes.fullscreen.contains(&7));
    assert!(desk.modes.fullscreen.contains(&9));
}

#[test]
fn windows_on_outputs_that_are_gone_keep_their_name() {
    let mut top = toplevels();
    top.desk.facts.layouts.insert("DP-9", 1, window(3), None);
    let gone = top.toplevel_destroyed(3, None, &PLAIN);
    assert!(matches!(gone.preferred, Some(HomeOutput::Name(name)) if name == "DP-9"));
    top.desk.facts.layouts.insert("HDMI-A-1", 1, window(4), None);
    let gone = top.toplevel_destroyed(4, None, &PLAIN);
    assert!(matches!(gone.preferred, Some(HomeOutput::Number(2))));
}

#[test]
fn popups_show_with_their_buffer() {
    let mut popups = Popups::new();
    popups.new_popup(9);
    assert_eq!(popups.commit(9, true, false, false), PopupStep::Configure);
    assert_eq!(popups.commit(9, true, true, true), PopupStep::Shown);
    assert_eq!(popups.commit(9, true, true, true), PopupStep::NoChange);
    assert_eq!(popups.commit(9, true, false, true), PopupStep::Hidden);
    popups.popup_destroyed(9);
    assert!(!popups.unmapped.contains(&9));
}

#[test]
fn popups_grab_only_what_is_theirs() {
    let free = DeviceGrab { grabbed: false, by_serial: false, by_previous: false };
    let foreign = DeviceGrab { grabbed: true, by_serial: false, by_previous: false };
    assert_eq!(popup_grab(false, Some(true), true, free, free), PopupGrabReply::Ignored);
    assert!(matches!(
        popup_grab(true, Some(true), true, free, free),
        PopupGrabReply::Granted { .. }
    ));
    assert_eq!(popup_grab(true, Some(true), true, foreign, free), PopupGrabReply::Ended);
}

#[test]
fn popups_are_fitted_into_their_output() {
    let mut desk = desk();
    show(&mut desk, 7, rect(100, 200, 640, 480), 1);
    assert_eq!(
        unconstrain_popup(&desk, &vec![], 7, (10, 20)),
        Some(rect(-110, -220, 1920, 1080))
    );
    let panel = LayerPlace { surface: 8, output: 2, rect: Some(rect(5, 5, 100, 30)) };
    assert_eq!(
        unconstrain_popup(&desk, &vec![panel], 8, (0, 0)),
        Some(rect(-5, -5, 1280, 1024))
    );
    assert_eq!(unconstrain_popup(&desk, &vec![], 9, (0, 0)), None);
}

#[test]
fn only_reactive_popups_are_placed_anew() {
    let popup = |surface, positioned, reactive| HangingPopup { surface, positioned, reactive };
    assert_eq!(
        update_reactive_popups(&vec![
            popup(1, true, true),
            popup(2, true, false),
            popup(3, false, true),
            popup(4, true, true),
        ]),
        vec![popup(1, true, true), popup(4, true, true)]
    );
}

#[test]
fn taskbars_change_only_what_is_not_so_yet() {
    let mut desk = desk();
    show(&mut desk, 7, rect(100, 200, 640, 480), 1);
    assert_eq!(
        toplevel_request(&desk, Some(7), ToplevelRequest::SetMaximized),
        ToplevelAction::Maximize(7)
    );
    assert_eq!(
        toplevel_request(&desk, Some(7), ToplevelRequest::UnsetFullscreen),
        ToplevelAction::Nothing
    );
    assert_eq!(
        toplevel_request(&desk, Some(9), ToplevelRequest::Close),
        ToplevelAction::Nothing
    );
    assert_eq!(toplevel_request(&desk, None, ToplevelRequest::Activate), ToplevelAction::Nothing);
    desk.do_fullscreen_request(7, None);
    assert_eq!(
        toplevel_request(&desk, Some(7), ToplevelRequest::UnsetFullscreen),
        ToplevelAction::Unfullscreen(7)
    );
    assert_eq!(
        toplevel_request(&desk, Some(7), ToplevelRequest::SetFullscreen),
        ToplevelAction::Nothing
    );
}

#[test]
fn windows_are_known_before_they_are_mapped() {
    let mut desk = desk();
    assert_eq!(desk.toplevel_window(7), None);
    desk.facts.unmapped.insert(7, window(7));
    assert_eq!(desk.toplevel_window(7), Some(window(7)));
    assert_eq!(desk.mapped_toplevel_window(7), None);
    show(&mut desk, 8, rect(0, 0, 10, 10), 1);
    assert_eq!(desk.toplevel_window(8), Some(window(8)));
}
