use tidewm::actions::{
    action_step, spawn_failure, Action, ActionFacts, ActionStep, Direction, MASTER_STEP,
};
use tidewm::bsp::{Side, Window};
use tidewm::config::LayoutAlgorithm;
use tidewm::desk::{Desk, DeskFacts, DeskOutput, Toggled, VisibleWindow, WindowModes};
use tidewm::ext_workspace::ExtWorkspaceState;
use tidewm::geometry::{FinePoint, Rect};
use tidewm::keyboard::{
    process_key, vt_switch, KbMonBlock, KeyContext, KeyEvent, KeyOutcome, Keybind, Modifiers,
};
use tidewm::layouts::Layouts;
use tidewm::looks::WindowLooks;
use tidewm::pointer::{
    axis_part, constraint_activates, floating_resize_edge, pointer_motion, process_button,
    region_contains, AxisSample, WheelSteps, ButtonContext, Constraint, FocusChange, Grab, LayerUnder,
    MotionTarget, RegionPart, ResizeEdge, Switch, SwitchChange, Switches, WindowUnder, BTN_LEFT,
    BTN_RIGHT,
};
use tidewm::ratio::Ratio;
use tidewm::screencast::{OutputMode, ScreencastState, WindowSnapshot};
use tidewm::smallvil::{
    ActionOutcome, AnnouncedWindow, Gesture, InputEvent, InputStep, Smallvil, SwitchEvents,
    TitledWindow, Touch,
};
use tidewm::source_picker::{KEY_DOWN, KEY_RETURN, MONITOR, WINDOW};
use tidewm::toplevels::Toplevels;
use tidewm::touchpad::{
    apply_touchpad_config, AccelProfile, DragLockState, ScrollMethod, TouchpadConfig,
    TouchpadSetting,
};
use tidewm::wlr_foreign_toplevel::WlrForeignToplevelState;
use tidewm::xdg_shell::TilingRefusals;
use tidewm::Assoc;

fn window_rect() -> Rect {
    Rect { x: 100, y: 100, w: 200, h: 200 }
}

fn at(x: i64, y: i64) -> FinePoint {
    FinePoint { x: 65536 * x, y: 65536 * y }
}

fn edges(left: bool, right: bool, top: bool, bottom: bool) -> Option<ResizeEdge> {
    Some(ResizeEdge { left, right, top, bottom })
}

#[test]
fn interior_click_is_not_a_resize() {
    assert_eq!(floating_resize_edge(window_rect(), at(200, 200), 4), None);
}

#[test]
fn near_each_single_edge_hits_only_that_edge() {
    let r = window_rect();
    assert_eq!(floating_resize_edge(r, at(101, 200), 4), edges(true, false, false, false));
    assert_eq!(floating_resize_edge(r, at(299, 200), 4), edges(false, true, false, false));
    assert_eq!(floating_resize_edge(r, at(200, 101), 4), edges(false, false, true, false));
    assert_eq!(floating_resize_edge(r, at(200, 299), 4), edges(false, false, false, true));
}

#[test]
fn corner_hits_both_adjacent_edges() {
    assert_eq!(
        floating_resize_edge(window_rect(), at(101, 101), 4),
        edges(true, false, true, false)
    );
    assert_eq!(
        floating_resize_edge(window_rect(), at(299, 299), 4),
        edges(false, true, false, true)
    );
}

fn key(modified: u32, raw: u32) -> KeyEvent {
    KeyEvent {
        pressed: true,
        modified,
        raw: Some(raw),
        modifiers: Modifiers { ctrl: false, alt: false, shift: false, logo: false },
    }
}

fn bind(keysym: u32, action: u64) -> Keybind {
    Keybind { keysym, mods_match: true, action }
}

fn keys() -> KeyContext {
    let mut submaps = Assoc::new();
    submaps.insert("resize".to_string(), vec![bind(0x72, 5)]);
    KeyContext {
        monitor: KbMonBlock::Pass,
        session_locked: false,
        shortcuts_inhibited: false,
        active_submap: None,
        keybinds: vec![
            Keybind { keysym: 0x71, mods_match: false, action: 1 },
            bind(0x71, 2),
            bind(0x71, 3),
        ],
        submaps,
    }
}

#[test]
fn the_first_binding_that_fits_fires() {
    assert_eq!(process_key(&key(0x71, 0x71), &keys()), KeyOutcome::Run(2));
    assert_eq!(process_key(&key(0x72, 0x72), &keys()), KeyOutcome::Forward);
    let mut released = key(0x71, 0x71);
    released.pressed = false;
    assert_eq!(process_key(&released, &keys()), KeyOutcome::Forward);
}

#[test]
fn a_submap_replaces_the_base_bindings() {
    let mut context = keys();
    context.active_submap = Some("resize".to_string());
    assert_eq!(process_key(&key(0x72, 0x72), &context), KeyOutcome::Run(5));
    assert_eq!(process_key(&key(0x71, 0x71), &context), KeyOutcome::Forward);
    context.active_submap = Some("gone".to_string());
    assert_eq!(process_key(&key(0x72, 0x72), &context), KeyOutcome::Forward);
}

#[test]
fn consoles_can_always_be_switched() {
    let mut context = keys();
    context.session_locked = true;
    context.shortcuts_inhibited = true;
    context.monitor = KbMonBlock::Block;
    assert_eq!(process_key(&key(0x1008FE03, 0xffc0), &context), KeyOutcome::SwitchVt(3));
    let mut chord = key(0xffbe, 0xffbe);
    assert_eq!(vt_switch(&chord), None);
    chord.modifiers.ctrl = true;
    chord.modifiers.alt = true;
    assert_eq!(vt_switch(&chord), Some(1));
    assert_eq!(process_key(&chord, &context), KeyOutcome::SwitchVt(1));
    context.monitor = KbMonBlock::ModifierFirstPress;
    assert_eq!(process_key(&chord, &context), KeyOutcome::Dropped);
}

#[test]
fn watched_keys_are_kept_from_clients() {
    let mut context = keys();
    context.monitor = KbMonBlock::Block;
    assert_eq!(process_key(&key(0x71, 0x71), &context), KeyOutcome::Intercept);
    let mut shift = key(0xffe1, 0xffe1);
    shift.pressed = false;
    assert_eq!(process_key(&shift, &context), KeyOutcome::Forward);
}

#[test]
fn no_binding_fires_while_the_session_is_locked() {
    let mut context = keys();
    context.session_locked = true;
    assert_eq!(process_key(&key(0x71, 0x71), &context), KeyOutcome::Forward);
    context.session_locked = false;
    context.shortcuts_inhibited = true;
    assert_eq!(process_key(&key(0x71, 0x71), &context), KeyOutcome::Forward);
}

fn under() -> WindowUnder {
    WindowUnder {
        surface: 7,
        tiled: false,
        fullscreen: false,
        maximized: false,
        rect: window_rect(),
        has_tile: false,
        has_resize_splits: false,
    }
}

fn press() -> ButtonContext {
    ButtonContext {
        button: BTN_LEFT,
        pressed: true,
        session_locked: false,
        grabbed: false,
        popup_grab: false,
        layer: None,
        exclusive_layer: false,
        logo: false,
        window: Some(under()),
        point: at(200, 200),
        gaps: 0,
        on_split: false,
    }
}

#[test]
fn clicks_focus_and_raise() {
    let click = process_button(&press());
    assert_eq!(click.raise, Some(7));
    assert_eq!(click.focus, FocusChange::Window(7));
    assert!(click.grab.is_none() && click.forward);
    let mut tiled = press();
    tiled.window = Some(WindowUnder { tiled: true, ..under() });
    assert_eq!(process_button(&tiled).raise, None);
    let mut nothing = press();
    nothing.window = None;
    assert_eq!(process_button(&nothing).focus, FocusChange::Clear);
    nothing.on_split = true;
    assert_eq!(process_button(&nothing).grab, Some(Grab::TileResize));
    let mut locked = press();
    locked.session_locked = true;
    assert_eq!(process_button(&locked).focus, FocusChange::Keep);
}

#[test]
fn the_logo_key_drags_windows() {
    let mut ctx = press();
    ctx.logo = true;
    assert_eq!(process_button(&ctx).grab, Some(Grab::Move));
    ctx.button = BTN_RIGHT;
    assert_eq!(
        process_button(&ctx).grab,
        Some(Grab::Resize(ResizeEdge { left: false, right: true, top: false, bottom: true }))
    );
    ctx.window = Some(WindowUnder { tiled: true, has_resize_splits: true, ..under() });
    assert_eq!(process_button(&ctx).grab, Some(Grab::TileWindowResize));
    ctx.button = BTN_LEFT;
    ctx.window = Some(WindowUnder { tiled: true, has_tile: true, ..under() });
    let drag = process_button(&ctx);
    assert_eq!(drag.grab, Some(Grab::TileMove));
    assert!(!drag.forward);
    ctx.window = Some(WindowUnder { fullscreen: true, ..under() });
    assert_eq!(process_button(&ctx).grab, None);
}

#[test]
fn edges_of_floating_windows_are_dragged() {
    let mut ctx = press();
    ctx.point = at(101, 200);
    assert_eq!(
        process_button(&ctx).grab,
        Some(Grab::Resize(ResizeEdge { left: true, right: false, top: false, bottom: false }))
    );
    ctx.button = BTN_RIGHT;
    assert_eq!(process_button(&ctx).grab, None);
}

#[test]
fn layers_and_popups_come_first() {
    let mut ctx = press();
    ctx.layer = Some(LayerUnder { surface: 3, interactive: true });
    assert_eq!(process_button(&ctx).focus, FocusChange::Layer(3));
    ctx.layer = Some(LayerUnder { surface: 3, interactive: false });
    assert_eq!(process_button(&ctx).focus, FocusChange::Keep);
    ctx.layer = None;
    ctx.exclusive_layer = true;
    assert_eq!(process_button(&ctx).focus, FocusChange::Keep);
    ctx.exclusive_layer = false;
    ctx.grabbed = true;
    assert_eq!(process_button(&ctx).focus, FocusChange::Keep);
    ctx.popup_grab = true;
    assert_eq!(process_button(&ctx).focus, FocusChange::Window(7));
}

fn part(add: bool, x: i32, w: i32) -> RegionPart {
    RegionPart { add, rect: Rect { x, y: 0, w, h: 10 } }
}

#[test]
fn confined_pointers_stay_inside() {
    let region = vec![part(true, 0, 100), part(false, 40, 20), part(true, 50, 5)];
    assert!(region_contains(&region, 10, 5));
    assert!(!region_contains(&region, 45, 5));
    assert!(region_contains(&region, 52, 5));
    assert!(!region_contains(&region, 10, 10));
    let target = |x, root| MotionTarget { x, y: 5, root };
    assert!(pointer_motion(&Constraint::Free, None, target(45, None)));
    assert!(!pointer_motion(&Constraint::Locked, Some(1), target(10, Some(1))));
    assert!(!pointer_motion(&Constraint::Confined(Some(region)), Some(1), target(45, Some(1))));
    assert!(pointer_motion(&Constraint::Confined(None), Some(1), target(0, Some(1))));
    assert!(!pointer_motion(&Constraint::Confined(None), Some(1), target(0, Some(2))));
    assert!(constraint_activates(false, &None, 0, 0));
    assert!(!constraint_activates(true, &None, 0, 0));
    assert!(!constraint_activates(false, &Some(vec![]), 0, 0));
}

#[test]
fn scrolling_hands_on_what_moved() {
    let sample = |amount_is_zero, v120| AxisSample { amount_is_zero, v120 };
    let steps = |whole| Some(WheelSteps { zero: whole == 0, whole });
    let moved = axis_part(sample(Some(false), steps(120)), false);
    assert!(moved.value && moved.v120 == Some(120) && !moved.stop);
    let still = axis_part(sample(Some(true), steps(120)), true);
    assert!(!still.value && still.v120.is_none() && still.stop);
    assert!(axis_part(sample(None, steps(-15)), false).value);
    assert!(!axis_part(sample(None, steps(0)), false).value);
    let fraction = axis_part(sample(None, Some(WheelSteps { zero: false, whole: 0 })), false);
    assert!(fraction.value && fraction.v120 == Some(0));
    assert!(!axis_part(sample(None, None), true).value);
}

#[test]
fn switches_report_changes_only() {
    let mut switches = Switches { is_lid_closed: false, is_tablet_mode: false };
    assert_eq!(switches.toggle(Switch::Lid, false), None);
    assert_eq!(switches.toggle(Switch::Lid, true), Some(SwitchChange::LidClose));
    assert_eq!(switches.toggle(Switch::Lid, true), None);
    assert_eq!(switches.toggle(Switch::TabletMode, true), Some(SwitchChange::TabletModeOn));
    assert_eq!(switches.toggle(Switch::Lid, false), Some(SwitchChange::LidOpen));
}

#[test]
fn touchpads_get_the_settings_that_are_set() {
    let mut cfg = TouchpadConfig {
        tap_to_click: Some(true),
        tap_and_drag: None,
        drag_lock: Some(true),
        disable_while_typing: None,
        natural_scroll: Some(false),
        left_handed: None,
        middle_emulation: None,
        accel_speed: None,
        accel_profile: Some("flat".to_string()),
        click_method: Some("nonsense".to_string()),
        scroll_method: Some("edge".to_string()),
    };
    assert_eq!(
        apply_touchpad_config(&cfg, 2),
        vec![
            TouchpadSetting::TapToClick(true),
            TouchpadSetting::DragLock(DragLockState::EnabledTimeout),
            TouchpadSetting::NaturalScroll(false),
            TouchpadSetting::Profile(AccelProfile::Flat),
            TouchpadSetting::Scroll(ScrollMethod::Edge),
        ]
    );
    assert!(apply_touchpad_config(&cfg, 0).is_empty());
    cfg.drag_lock = Some(false);
    assert!(apply_touchpad_config(&cfg, 1)
        .contains(&TouchpadSetting::DragLock(DragLockState::Disabled)));
}

fn window(id: u64) -> Window {
    Window { id, surface: Some(id) }
}

fn smallvil() -> Smallvil {
    let mut visible = Assoc::new();
    visible.insert(
        7,
        VisibleWindow { window: window(7), rect: window_rect(), output: Some(1) },
    );
    let output = |id, name: &str| DeskOutput {
        id,
        name: name.to_string(),
        geometry: Some(Rect { x: 0, y: 0, w: 1920, h: 1080 }),
        tiling_area: None,
        gaps: 0,
    };
    let mut submaps = Assoc::new();
    submaps.insert("resize".to_string(), ());
    Smallvil {
        top: Toplevels {
            desk: Desk {
                facts: DeskFacts {
                    layouts: Layouts::default(),
                    outputs: vec![output(1, "DP-1"), output(2, "DP-2")],
                    primary: Some(1),
                    unmapped: Assoc::new(),
                    visible,
                    ocean: Assoc::new(),
                    parked: Assoc::new(),
                    next_tab: Assoc::new(),
                    put_away: Assoc::new(),
                    tiled_rects: Assoc::new(),
                },
                modes: WindowModes {
                    fullscreen: Assoc::new(),
                    maximized: Assoc::new(),
                    floating_workspace: Assoc::new(),
                    pinned: Assoc::new(),
                },
            },
            refusals: TilingRefusals::new(),
            pseudo_tiled: Assoc::new(),
            urgent: Assoc::new(),
            expected_tiled_size: Assoc::new(),
            focus_history: Vec::new(),
            swallowed: Assoc::new(),
            numeric_ids: Assoc::new(),
            next_numeric_id: 1,
            looks: WindowLooks::new(),
        },
        wlr_foreign_toplevel_state: Some(WlrForeignToplevelState::new()),
        ext_workspace_state: ExtWorkspaceState::new(),
        screencast: Some(ScreencastState::new()),
        screencast_picker: None,
        session_locked: false,
        paints_pointer: true,
        active_submap: None,
        submaps,
        switches: Switches { is_lid_closed: false, is_tablet_mode: false },
        switch_events: SwitchEvents {
            lid_close: Some(40),
            lid_open: None,
            tablet_mode_on: None,
            tablet_mode_off: None,
        },
    }
}

#[test]
fn actions_act_on_what_is_there() {
    let s = smallvil();
    let desk = &s.top.desk;
    let facts = ActionFacts { focused: Some(7), workspace: Some(3) };
    let nothing = ActionFacts { focused: None, workspace: None };
    assert!(matches!(action_step(desk, Action::CloseWindow, &facts), ActionStep::Close(7)));
    let hidden = ActionFacts { focused: Some(8), workspace: None };
    assert!(matches!(action_step(desk, Action::CloseWindow, &hidden), ActionStep::Nothing));
    assert!(matches!(action_step(desk, Action::TogglePin, &nothing), ActionStep::Nothing));
    assert!(matches!(
        action_step(desk, Action::SwitchWorkspace, &facts),
        ActionStep::SwitchWorkspace { output: 1, workspace: 3 }
    ));
    assert!(matches!(action_step(desk, Action::SwitchWorkspace, &nothing), ActionStep::Nothing));
    assert!(matches!(
        action_step(desk, Action::MoveToWorkspace, &facts),
        ActionStep::MoveToWorkspace { surface: 7, workspace: 3 }
    ));
    assert!(matches!(
        action_step(desk, Action::SwapWorkspacesWithOutput("DP-2".to_string()), &nothing),
        ActionStep::SwapWorkspaces { this: 1, other: 2 }
    ));
    assert!(matches!(
        action_step(desk, Action::SwapWorkspacesWithOutput("DP-3".to_string()), &nothing),
        ActionStep::Nothing
    ));
    assert!(matches!(
        action_step(desk, Action::FocusDirection(Direction::Left), &nothing),
        ActionStep::FocusDirection(Direction::Left)
    ));
    assert!(matches!(
        action_step(desk, Action::SetLayout(LayoutAlgorithm::Master), &nothing),
        ActionStep::SetLayout(LayoutAlgorithm::Master)
    ));
    let ActionStep::AdjustMasterRatio(step) = action_step(desk, Action::ShrinkMaster, &nothing)
    else {
        panic!("the fraction is changed");
    };
    assert_eq!(step as f64 / 4503599627370496.0, -0.05f32 as f64);
    assert_eq!(step, -MASTER_STEP);
    assert_eq!(spawn_failure("foot"), "Failed to spawn: foot");
}

#[test]
fn submaps_are_entered_and_left() {
    let mut s = smallvil();
    let facts = ActionFacts { focused: None, workspace: None };
    s.run_action(Action::EnterSubmap("gone".to_string()), &facts, false);
    assert_eq!(s.active_submap, None);
    s.run_action(Action::EnterSubmap("resize".to_string()), &facts, false);
    assert_eq!(s.active_submap, Some("resize".to_string()));
    s.run_action(Action::ExitSubmap, &facts, false);
    assert_eq!(s.active_submap, None);
    assert!(matches!(
        s.run_action(Action::Quit, &facts, false),
        ActionOutcome::Do(ActionStep::Quit)
    ));
}

#[test]
fn actions_toggle_the_fullscreen_mode() {
    let mut s = smallvil();
    let facts = ActionFacts { focused: Some(7), workspace: None };
    assert!(matches!(
        s.run_action(Action::ToggleFullscreen, &facts, true),
        ActionOutcome::Fullscreen(Toggled::Nothing)
    ));
    assert!(matches!(
        s.run_action(Action::ToggleFullscreen, &facts, false),
        ActionOutcome::Fullscreen(Toggled::Entered(7, _))
    ));
    assert!(s.top.desk.modes.fullscreen.contains(&7));
    assert!(matches!(s.toggle_fullscreen(Some(7), false), Toggled::Changed(7, _)));
    assert!(matches!(s.toggle_maximize(None, false, true), Toggled::Nothing));
}

#[test]
fn input_events_are_decided_over() {
    let mut s = smallvil();
    let added = s.process_input_event(InputEvent::DeviceAdded);
    assert!(!added.activity && added.step == InputStep::Ignored);
    let run = s.process_input_event(InputEvent::Keyboard {
        event: key(0x71, 0x71),
        context: keys(),
    });
    assert!(run.activity);
    assert_eq!(run.step, InputStep::Key(KeyOutcome::Run(2)));
    let motion = |constraint| InputEvent::PointerMotion {
        constraint,
        constrained: Some(1),
        target: MotionTarget { x: 0, y: 0, root: Some(1) },
        met: None,
    };
    let moved = s.process_input_event(motion(Constraint::Free));
    assert!(moved.redraw && moved.pointer_moved);
    assert_eq!(moved.step, InputStep::Motion { moves: true, activates: false });
    let stuck = s.process_input_event(motion(Constraint::Locked));
    assert_eq!(stuck.step, InputStep::Motion { moves: false, activates: false });
    assert!(stuck.redraw);
    let dropped = s.process_input_event(InputEvent::PointerMotionAbsolute { has_output: false });
    assert!(!dropped.redraw && dropped.step == InputStep::Ignored);
    let touch = |touch, has_touch, has_output| InputEvent::Touched { touch, has_touch, has_output };
    assert_eq!(
        s.process_input_event(touch(Touch::Down, true, false)).step,
        InputStep::Ignored
    );
    assert_eq!(
        s.process_input_event(touch(Touch::Up, true, false)).step,
        InputStep::Touch(Touch::Up)
    );
    assert_eq!(
        s.process_input_event(touch(Touch::Cancel, false, true)).step,
        InputStep::Ignored
    );
    assert_eq!(
        s.process_input_event(InputEvent::Gestured(Gesture::PinchEnd)).step,
        InputStep::Gesture(Gesture::PinchEnd)
    );
}

#[test]
fn switches_run_their_actions() {
    let mut s = smallvil();
    let lid = |on| InputEvent::SwitchToggle { switch: Some(Switch::Lid), on };
    assert_eq!(s.process_input_event(lid(true)).step, InputStep::Run(40));
    assert_eq!(s.process_input_event(lid(true)).step, InputStep::Ignored);
    assert_eq!(s.process_input_event(lid(false)).step, InputStep::Ignored);
    assert_eq!(s.process_input_event(lid(true)).step, InputStep::Run(40));
    assert_eq!(
        s.process_input_event(InputEvent::SwitchToggle { switch: None, on: true }).step,
        InputStep::Ignored
    );
}

fn tiling() -> Smallvil {
    let mut s = smallvil();
    let area = Rect { x: 0, y: 0, w: 1920, h: 1080 };
    s.top.desk.facts.outputs[0].tiling_area = Some(area);
    s.top.desk.facts.layouts.insert("DP-1", 1, window(7), None);
    s.top.desk.facts.layouts.insert("DP-1", 1, window(8), Some(7));
    s
}

fn grab_of(s: &mut Smallvil, ctx: ButtonContext) -> Option<Grab> {
    match s.process_input_event(InputEvent::PointerButton(ctx)).step {
        InputStep::Button(outcome) => outcome.grab,
        _ => panic!("the button is decided over"),
    }
}

#[test]
fn buttons_meet_the_tiles_that_there_are() {
    let mut s = tiling();
    let mut ctx = press();
    ctx.logo = true;
    assert_eq!(grab_of(&mut s, ctx), Some(Grab::TileMove));
    ctx.button = BTN_RIGHT;
    assert_eq!(grab_of(&mut s, ctx), Some(Grab::TileWindowResize));
    s.top.desk.facts.layouts.set_algorithm("DP-1", 1, LayoutAlgorithm::Master);
    assert_eq!(grab_of(&mut s, ctx), None);
    s.top.desk.facts.layouts.set_algorithm("DP-1", 1, LayoutAlgorithm::Bsp);
    s.toggle_fullscreen(Some(7), false);
    assert_eq!(grab_of(&mut s, ctx), None);

    let mut s = tiling();
    let mut ctx = press();
    ctx.window = None;
    ctx.point = at(961, 500);
    assert_eq!(grab_of(&mut s, ctx), Some(Grab::TileResize));
    ctx.point = at(700, 500);
    ctx.on_split = true;
    assert_eq!(grab_of(&mut s, ctx), None);
    ctx.point = at(961, 2000);
    assert_eq!(grab_of(&mut s, ctx), None);
}

#[test]
fn drags_of_tiles_start_at_their_splits() {
    let mut s = tiling();
    s.top.desk.facts.layouts.set_ratio("DP-1", 1, &[], 100_000_000);
    let area = Rect { x: 0, y: 0, w: 1920, h: 1080 };
    let handles = s.tile_resize_handles(8, "DP-1", area);
    assert_eq!(handles.len(), 1);
    assert!(handles[0].0.path.is_empty());
    assert_eq!(handles[0].0.target_side, Some(Side::Second));
    assert_eq!(handles[0].1, Ratio { units: 100_000_000 });
    assert!(s.tile_resize_handles(9, "DP-1", area).is_empty());
    assert!(s.tile_resize_handles(8, "DP-2", area).is_empty());

    let border = 715;
    let (hit, ratio) = s.split_under("DP-1", area, 0, at(border, 500)).unwrap();
    assert!(hit.path.is_empty() && hit.target_side.is_none());
    assert_eq!(ratio, Ratio { units: 100_000_000 });
    assert!(s.split_under("DP-1", area, 0, at(border + 100, 500)).is_none());

    let under = s.window_under(8, window_rect(), "DP-1", area);
    assert!(under.tiled && under.has_tile && under.has_resize_splits);
    assert!(!under.fullscreen && !under.maximized);
    let loose = s.window_under(9, window_rect(), "DP-1", area);
    assert!(!loose.tiled && !loose.has_tile && !loose.has_resize_splits);
}

#[test]
fn a_locked_session_takes_no_commands() {
    let mut s = smallvil();
    s.session_locked = true;
    let run = s.process_input_event(InputEvent::Keyboard {
        event: key(0x71, 0x71),
        context: keys(),
    });
    assert_eq!(run.step, InputStep::Key(KeyOutcome::Forward));
    let InputStep::Button(outcome) = s.process_input_event(InputEvent::PointerButton(press())).step
    else {
        panic!("the button is decided over");
    };
    assert!(outcome.forward && outcome.focus == FocusChange::Keep);
}

fn announced(surface: u64) -> AnnouncedWindow {
    AnnouncedWindow { surface, on_output: true, width: 300, height: 200 }
}

#[test]
fn shareable_windows_are_numbered_and_mapped() {
    let mut s = smallvil();
    s.top.announce_foreign_toplevel(7);
    s.top.announce_foreign_toplevel(8);
    s.refresh_screencast_windows(&vec![announced(7), announced(8), announced(9)]);
    assert_eq!(
        s.screencast.as_ref().unwrap().windows,
        vec![WindowSnapshot { id: 1, width: 300, height: 200 }]
    );
}

#[test]
fn sources_are_picked_in_a_panel() {
    let mut s = smallvil();
    s.top.announce_foreign_toplevel(7);
    let mode = |name: &str| OutputMode { name: name.to_string(), mode: Some((1920, 1080)) };
    let windows =
        || vec![TitledWindow { window: announced(7), title: "Editor".to_string() }];
    let outputs = vec![mode("DP-1")];
    let opened =
        s.open_screencast_picker(1, MONITOR | WINDOW, &Some(mode("DP-1")), &outputs, &windows());
    assert!(opened.redraw && opened.reply.is_none() && opened.cancelled.is_none());
    let replaced =
        s.open_screencast_picker(2, MONITOR | WINDOW, &Some(mode("DP-1")), &outputs, &windows());
    assert_eq!(replaced.cancelled, Some(1));
    assert!(s.handle_screencast_picker_key(KEY_DOWN).redraw);
    let done = s.handle_screencast_picker_key(KEY_RETURN);
    let (request, choice) = done.reply.unwrap();
    assert_eq!(request, 2);
    assert_eq!(choice.unwrap().label, "Window — Editor");
    assert!(s.screencast_picker.is_none());
    assert!(!s.handle_screencast_picker_key(KEY_RETURN).swallowed);

    s.session_locked = true;
    let locked = s.open_screencast_picker(3, MONITOR, &Some(mode("DP-1")), &outputs, &windows());
    assert!(matches!(locked.reply, Some(None)));
}

#[test]
fn window_states_are_told_to_their_objects() {
    let mut s = smallvil();
    s.wlr_foreign_toplevel_state.as_mut().unwrap().bind(50, &vec![]);
    s.wlr_foreign_toplevel_state.as_mut().unwrap().track(
        7,
        "t".to_string(),
        "a".to_string(),
        &vec![Some(70)],
    );
    s.toggle_fullscreen(Some(7), false);
    assert_eq!(
        s.refresh_wlr_toplevel_state(7, false),
        Some((vec![70], 3u32.to_ne_bytes().to_vec()))
    );
    assert_eq!(s.refresh_wlr_toplevel_state(8, false), None);
    s.cleanup_wlr_foreign_toplevels();
    assert_eq!(s.wlr_foreign_toplevel_state.as_ref().unwrap().toplevels.len(), 1);
    let listed = &mut s.wlr_foreign_toplevel_state.as_mut().unwrap().toplevels;
    assert_eq!(listed[0].send_closed(), vec![70]);
    s.cleanup_wlr_foreign_toplevels();
    assert!(s.wlr_foreign_toplevel_state.as_ref().unwrap().toplevels.is_empty());
    let told = s.refresh_ext_workspaces(&vec![("DP-1".to_string(), vec![1])], &vec![]);
    assert!(told.events.is_empty());
    assert_eq!(s.ext_workspace_state.groups.len(), 1);
}
