use tidewm::capture::{
    capture_constraints, frame, toplevel_source_created, CaptureJob, CaptureSessions,
    CaptureSource, MAX_CAPTURE_SESSIONS,
};
use tidewm::ext_workspace::{desired_workspaces, ExtWorkspaceState, Instance, Step};
use tidewm::geometry::Rect;
use tidewm::layouts::Layouts;
use tidewm::looks::{LookRule, WindowLooks};
use tidewm::output_configuration::{
    transform_from_number, ConfigError, Configuration, FinishReply, HeadSetting, LiveHead,
    Transform,
};
use tidewm::screencopy::{
    capture_output, output_capture_rect, output_capture_size, CopyReply, FrameBuffer, PixelFormat,
};
use tidewm::services::{
    decoration_mode, new_constraint, request_activation, scale_output, token_created,
    ActivationReply, Decorations, IdleInhibitors,
};
use tidewm::tearing_control::{PresentationHint, TearingError, TearingSurface};
use tidewm::wlr_foreign_toplevel::{state_bytes, WlrForeignToplevelState};
use tidewm::wlr_gamma_control::{
    gamma_channels, gamma_table_len, identity_ramp, ByteOrder, ControlData, GammaRead,
    GammaReadStep, GammaSet, GammaTableReadError, WlrGammaControlState,
};
use tidewm::wlr_output_management::{
    static_head_properties, HeadObject, HeadRef, HeadStatics, WlrOutputManagementState,
};
use tidewm::wlr_output_power_management::{
    set_mode, ModeStep, PowerControl, PowerReply, WlrOutputPowerManagementState,
};
use tidewm::Assoc;

fn rect(x: i32, y: i32, w: i32, h: i32) -> Rect {
    Rect { x, y, w, h }
}

#[test]
fn rotated_output_region_uses_upright_capture_coordinates() {
    let mode = Some((113, 71));
    let rotated = Transform::Rotated90;

    assert_eq!(
        output_capture_rect(mode, rotated, None),
        Some(rect(0, 0, 71, 113))
    );
    assert_eq!(
        output_capture_rect(mode, rotated, Some(rect(5, 7, 11, 13))),
        Some(rect(5, 7, 11, 13))
    );
}

#[test]
fn capture_regions_are_clipped_to_the_output() {
    assert_eq!(output_capture_size(Some((100, 50)), Transform::Normal), Some((100, 50)));
    assert_eq!(output_capture_size(Some((100, 50)), Transform::Flipped270), Some((50, 100)));
    assert_eq!(output_capture_size(None, Transform::Normal), None);
    assert_eq!(
        output_capture_rect(Some((100, 50)), Transform::Normal, Some(rect(90, 40, 30, 30))),
        Some(rect(90, 40, 10, 10))
    );
    assert_eq!(
        output_capture_rect(Some((100, 50)), Transform::Normal, Some(rect(200, 0, 5, 5))),
        None
    );
}

#[test]
fn frames_are_copied_once_into_a_buffer_that_fits() {
    let full = Some((100, 50));
    let (mut frame, offer) =
        capture_output(Some(3), full, Some(rect(0, 0, 100, 50)), 1, false, false);
    let offer = offer.unwrap();
    assert_eq!((offer.width, offer.height, offer.stride), (100, 50, 400));
    let good =
        FrameBuffer::SharedMemory { width: 100, height: 50, format: PixelFormat::Argb8888 };
    let reply = frame.copy(good, true, full, false, false);
    assert_eq!(
        reply,
        CopyReply::Write { output: 3, rect: rect(0, 0, 100, 50), cursor: true, damage: true }
    );
    assert_ne!(frame.copy(good, true, full, false, false), reply);

    let (mut frame, _) = capture_output(Some(3), full, Some(rect(0, 0, 100, 50)), 0, false, false);
    let small = FrameBuffer::SharedMemory { width: 99, height: 50, format: PixelFormat::Argb8888 };
    assert_eq!(frame.copy(small, false, full, false, false), CopyReply::Failed);
}

#[test]
fn control_data_does_not_keep_output_alive() {
    // A control names its output by number: the number outlives the output.
    let data = ControlData::new(Some((4, 37)));
    let mut state = WlrGammaControlState::new();
    state.get_gamma_control(9, Some(4), Some(37));
    assert_eq!(state.set_gamma(9, false), GammaSet::OutputGone);
    assert!(data.target().is_some_and(|(output, size)| output == 4 && size == 37));
}

#[test]
fn control_data_invalidation_is_idempotent() {
    let mut data = ControlData::new(Some((4, 19)));

    assert!(data.invalidate().is_some());
    assert!(data.invalidate().is_none());
    assert!(data.target().is_none());
}

#[test]
fn identity_ramp_spans_full_range_monotonically() {
    let ramp = identity_ramp(256);
    assert_eq!(ramp.len(), 256);
    assert_eq!(ramp[0], 0);
    assert_eq!(ramp[255], u16::MAX);
    assert!(ramp.windows(2).all(|w| w[0] <= w[1]));
}

#[test]
fn identity_ramp_handles_degenerate_sizes() {
    assert_eq!(identity_ramp(0), Vec::<u16>::new());
    assert_eq!(identity_ramp(1), vec![0]);
}

#[test]
fn gamma_table_accepts_exact_sized_memfd() {
    let bytes = [1_u8, 0, 2, 0, 3, 0, 4, 0, 5, 0, 6, 0];
    let mut read = GammaRead::begin(2, true, bytes.len() as i64).unwrap();
    assert_eq!(read.step(), GammaReadStep::Read { offset: 0, len: 12 });
    assert_eq!(
        read.took(&bytes[..5].to_vec()),
        GammaReadStep::Read { offset: 5, len: 7 }
    );
    assert_eq!(read.took(&bytes[5..].to_vec()), GammaReadStep::Recheck);
    assert_eq!(read.finish(12), GammaReadStep::Done);
    assert_eq!(read.bytes, bytes);
}

#[test]
fn gamma_table_rejects_wrong_sized_memfd() {
    assert!(matches!(
        GammaRead::begin(2, true, 10),
        Err(GammaTableReadError::InvalidLength)
    ));
}

#[test]
fn gamma_table_rejects_stream_without_reading() {
    assert!(matches!(
        GammaRead::begin(2, false, 12),
        Err(GammaTableReadError::InvalidSource)
    ));
}

#[test]
fn gamma_tables_that_shrink_are_refused() {
    assert_eq!(gamma_table_len(256), Some(1536));
    let mut read = GammaRead::begin(2, true, 12).unwrap();
    assert_eq!(
        read.took(&vec![]),
        GammaReadStep::Failed(GammaTableReadError::InvalidLength)
    );
    let mut read = GammaRead::begin(2, true, 12).unwrap();
    read.took(&vec![0; 12]);
    assert_eq!(
        read.finish(13),
        GammaReadStep::Failed(GammaTableReadError::InvalidLength)
    );
}

#[test]
fn gamma_tables_hold_three_channels() {
    let bytes = vec![1, 0, 2, 0, 3, 0, 4, 0, 5, 0, 0, 6];
    assert_eq!(
        gamma_channels(&bytes, 2, ByteOrder::Little),
        (vec![1, 2], vec![3, 4], vec![5, 0x600])
    );
    assert_eq!(
        gamma_channels(&bytes, 2, ByteOrder::Big),
        (vec![0x100, 0x200], vec![0x300, 0x400], vec![0x500, 6])
    );
}

#[test]
fn an_output_has_one_gamma_control() {
    let mut state = WlrGammaControlState::new();
    let first = state.get_gamma_control(1, Some(4), Some(256));
    assert_eq!((first.failed, first.gamma_size), (None, Some(256)));
    assert_eq!(state.set_gamma(1, true), GammaSet::Apply { output: 4, size: 256 });
    let second = state.get_gamma_control(2, Some(4), Some(256));
    assert!(second.failed.is_some());
    assert!(state.fail(1) || state.fail(2));
    state.output_removed(4);
    assert_eq!(state.set_gamma(1, true), GammaSet::Ignored);
}

#[test]
fn outputs_are_on_until_they_are_switched_off() {
    let mut state = WlrOutputPowerManagementState::new();
    assert!(state.is_on(1));
    assert_eq!(state.get_output_power(Some(1), 7), PowerReply::Mode(true));
    assert_eq!(state.get_output_power(None, 8), PowerReply::Failed);
    assert_eq!(
        state.mode_applied(1, false, true),
        Some(vec![PowerControl { output: 1, control: 7 }])
    );
    assert!(!state.is_on(1));
    assert_eq!(state.mode_applied(1, true, false), None);
    assert!(!state.is_on(1));
    assert_eq!(state.force_on(1), vec![PowerControl { output: 1, control: 7 }]);
    assert!(state.is_on(1));
    state.destroyed(7);
    assert!(state.set(1, false).is_empty());
    state.output_removed(1);
    assert!(state.is_on(1));
    assert!(matches!(set_mode(Some(1), 0), ModeStep::Switch { output: 1, on: false }));
    assert!(matches!(set_mode(Some(1), 1), ModeStep::Switch { output: 1, on: true }));
    assert!(matches!(set_mode(Some(1), 2), ModeStep::InvalidMode));
    assert!(matches!(set_mode(None, 1), ModeStep::Ignored));
}

fn head(output: u64, made: u32) -> HeadRef {
    HeadRef { output, object: HeadObject { manager: 9, made } }
}

#[test]
fn heads_are_told_and_finished() {
    let mut state = WlrOutputManagementState::new();
    let serial = state.current_serial;
    state.bind(9, true);
    let news = state.refresh(&vec![1, 2], &vec![9]);
    assert_eq!(news.created, vec![head(1, 2), head(2, 2)]);
    assert!(news.finished.is_empty());
    assert_ne!(news.serial, serial);
    let news = state.refresh(&vec![2], &vec![9]);
    assert_eq!(news.finished, vec![head(1, 2)]);
    state.head_gone(head(2, 2));
    assert!(state.refresh(&vec![], &vec![9]).finished.is_empty());
    assert_eq!(state.refresh(&vec![2], &vec![9]).created, vec![head(2, 5)]);
    assert!(news.created.is_empty());
    state.manager_gone(9);
    assert!(state.refresh(&vec![2, 3], &vec![9]).created.is_empty());
}

#[test]
fn the_end_of_an_old_head_object_leaves_a_new_one() {
    let mut state = WlrOutputManagementState::new();
    state.bind(9, true);
    state.refresh(&vec![1], &vec![9]);
    state.refresh(&vec![], &vec![9]);
    state.refresh(&vec![1], &vec![9]);
    state.head_gone(head(1, 2));
    assert_eq!(state.heads[0].resources, vec![HeadObject { manager: 9, made: 4 }]);
    state.head_gone(head(1, 4));
    assert!(state.heads[0].resources.is_empty());
}

#[test]
fn head_properties_depend_on_the_version() {
    assert_eq!(
        static_head_properties(1, (0, 0), true),
        HeadStatics { physical_size: false, identity: false, mode: true }
    );
    assert_eq!(
        static_head_properties(2, (300, 200), false),
        HeadStatics { physical_size: true, identity: true, mode: false }
    );
}

#[test]
fn configurations_refuse_what_is_set_twice() {
    let mut c = Configuration::new(5);
    assert_eq!(c.enable_head(Some(1)), Ok(()));
    assert_eq!(c.enable_head(Some(1)), Err(ConfigError::AlreadyConfiguredHead));
    assert_eq!(c.disable_head(Some(1)), Err(ConfigError::AlreadyConfiguredHead));
    let at = HeadSetting::Position { x: 3, y: 4 };
    assert_eq!(c.set(Some(1), at), Ok(()));
    assert_eq!(c.set(Some(1), at), Err(ConfigError::PositionAlreadySet));
    assert_eq!(
        c.set(Some(1), HeadSetting::Transform { number: 8 }),
        Err(ConfigError::InvalidTransform)
    );
    assert_eq!(c.set(Some(1), HeadSetting::Transform { number: 3 }), Ok(()));
    assert_eq!(
        c.set(Some(1), HeadSetting::Transform { number: 3 }),
        Err(ConfigError::TransformAlreadySet)
    );
    assert_eq!(
        c.set(Some(1), HeadSetting::Scale { scale: 0 }),
        Err(ConfigError::InvalidScale)
    );
    assert_eq!(c.set(Some(1), HeadSetting::Scale { scale: 256 }), Ok(()));
    assert_eq!(
        c.set(Some(1), HeadSetting::Scale { scale: 256 }),
        Err(ConfigError::ScaleAlreadySet)
    );
    assert_eq!(
        c.set(Some(1), HeadSetting::CustomMode { width: 0, height: 1, refresh: 1 }),
        Err(ConfigError::InvalidCustomMode)
    );
    assert_eq!(c.set(Some(1), HeadSetting::Mode { own: false }), Err(ConfigError::InvalidMode));
    assert_eq!(c.set(Some(1), HeadSetting::Mode { own: true }), Ok(()));
    assert_eq!(
        c.set(Some(1), HeadSetting::Mode { own: true }),
        Err(ConfigError::ModeAlreadySet)
    );
}

#[test]
fn configurations_are_applied_once_and_in_time() {
    let live = vec![LiveHead { output: 1, mode: Some((1920, 1080, 60000)), position: Some((0, 0)) }];
    let mut stale = Configuration::new(4);
    stale.enable_head(Some(1)).unwrap();
    assert!(matches!(stale.finish_configuration(5, &live, true), FinishReply::Cancelled));

    let mut c = Configuration::new(5);
    c.enable_head(Some(1)).unwrap();
    c.set(Some(1), HeadSetting::Position { x: 30, y: 40 }).unwrap();
    let FinishReply::Succeeded(changes) = c.finish_configuration(5, &live, true) else {
        panic!("the configuration is applied");
    };
    assert_eq!(changes.len(), 1);
    assert_eq!(changes[0].position, Some((30, 40)));
    assert_eq!(changes[0].shift, Some((30, 40)));
    assert!(matches!(
        c.finish_configuration(5, &live, true),
        FinishReply::Error(ConfigError::UsedTwice)
    ));
    assert_eq!(c.enable_head(Some(2)), Err(ConfigError::EnableAfterUse));
    assert_eq!(c.disable_head(Some(2)), Err(ConfigError::DisableAfterUse));

    let mut missing = Configuration::new(5);
    assert!(matches!(
        missing.finish_configuration(5, &live, false),
        FinishReply::Error(ConfigError::UnconfiguredHead)
    ));
    let mut off = Configuration::new(5);
    off.disable_head(Some(1)).unwrap();
    assert!(matches!(off.finish_configuration(5, &live, true), FinishReply::Failed));
    assert_eq!(transform_from_number(0), Some(Transform::Normal));
    assert_eq!(transform_from_number(7), Some(Transform::Flipped270));
    assert_eq!(transform_from_number(9), None);
}

#[test]
fn window_lists_follow_the_windows() {
    let mut state = WlrForeignToplevelState::new();
    state.bind(50, &vec![]);
    state.track(7, "title".to_string(), "app".to_string(), &vec![Some(700)]);
    assert_eq!(state.objects_of(7), Some(vec![700]));
    assert_eq!(state.toplevels[0].send_title("title"), Vec::<u64>::new());
    assert_eq!(state.toplevels[0].send_title("other"), vec![700]);
    assert_eq!(state.toplevels[0].title(), "other");
    assert_eq!(state.toplevels[0].send_app_id("app"), Vec::<u64>::new());
    assert_eq!(state.toplevels[0].send_app_id("another"), vec![700]);
    state.toplevels[0].remove_instance(701);
    assert_eq!(state.objects_of(7), Some(vec![700]));
    assert_eq!(state.untrack(7), vec![700]);
    assert_eq!(state.objects_of(7), None);
    state.cleanup_closed();
    assert!(state.toplevels.is_empty());
}

#[test]
fn window_states_are_packed_numbers() {
    assert_eq!(state_bytes(false, false, false), Vec::<u8>::new());
    assert_eq!(state_bytes(true, false, false), 2u32.to_ne_bytes().to_vec());
    let mut both = 0u32.to_ne_bytes().to_vec();
    both.extend(2u32.to_ne_bytes());
    let mut got = state_bytes(true, true, false);
    got.sort();
    both.sort();
    assert_eq!(got, both);
    assert_eq!(state_bytes(false, false, true), 3u32.to_ne_bytes().to_vec());
}

fn object(made: u64) -> Instance {
    Instance { client: 3, manager: 30, made }
}

#[test]
fn workspaces_are_told_once() {
    let mut layouts = Layouts::default();
    layouts.set_active_workspace("DP-1", 2);
    let outputs = vec![("DP-1".to_string(), vec![1, 2])];
    let desired = desired_workspaces(&layouts, &outputs);
    assert_eq!(desired, vec![("DP-1".to_string(), vec![(1, false), (2, true)])]);

    let mut state = ExtWorkspaceState::new();
    assert!(state.bind(3, 30, true).is_empty());
    let told = state.refresh(&desired, &vec![3]);
    assert_eq!(told.done, vec![object(0)]);
    let to = object(1);
    let steps: Vec<Step> = told.events.iter().map(|e| e.step).collect();
    assert_eq!(steps[0], Step::GroupCreated { to });
    assert!(steps.contains(&Step::WorkspaceCreated {
        announced_on: 30,
        to,
        number: 2,
        active: true,
    }));
    let again = state.refresh(&desired, &vec![3]);
    assert!(again.events.is_empty() && again.done.is_empty());

    layouts.set_active_workspace("DP-1", 1);
    let moved = state.refresh(&desired_workspaces(&layouts, &outputs), &vec![3]);
    let steps: Vec<Step> = moved.events.iter().map(|e| e.step).collect();
    assert_eq!(
        steps,
        vec![
            Step::StateChanged { to, number: 1, active: true },
            Step::StateChanged { to, number: 2, active: false },
        ]
    );
    let gone = state.refresh(&vec![], &vec![3]);
    assert!(gone.events.iter().any(|e| e.step == Step::GroupRemoved { to }));
    assert!(state.groups.is_empty());
}

#[test]
fn late_managers_are_told_everything() {
    let mut state = ExtWorkspaceState::new();
    state.refresh(&vec![("DP-1".to_string(), vec![(1, true)])], &vec![]);
    let to = object(1);
    let events = state.bind(3, 30, true);
    assert_eq!(events.len(), 2);
    assert_eq!(events[0].step, Step::GroupCreated { to });
    state.manager_gone(30);
    assert!(state.managers.is_empty());
}

#[test]
fn tearing_hints_apply_with_the_commit() {
    let mut surface = TearingSurface::new();
    assert_eq!(surface.get_tearing_control(), Ok(()));
    assert_eq!(surface.get_tearing_control(), Err(TearingError::TearingControlExists));
    surface.set_presentation_hint(Some(PresentationHint::Async));
    assert_eq!(surface.current.hint(), PresentationHint::Vsync);
    surface.commit();
    assert_eq!(surface.current.hint(), PresentationHint::Async);
    surface.destroy_control();
    surface.commit();
    assert_eq!(surface.current.hint(), PresentationHint::Vsync);
    assert_eq!(surface.get_tearing_control(), Ok(()));
}

#[test]
fn capture_sessions_are_limited() {
    let mut sessions = CaptureSessions::new();
    let alive: Vec<u64> = (0..MAX_CAPTURE_SESSIONS as u64 + 1).collect();
    for id in 0..MAX_CAPTURE_SESSIONS as u64 {
        assert!(sessions.new_session(id, &alive));
    }
    assert!(!sessions.new_session(MAX_CAPTURE_SESSIONS as u64, &alive));
    sessions.prune(&vec![0]);
    assert_eq!(sessions.sessions, vec![0]);
    assert!(sessions.new_session(99, &vec![0, 99]));
}

#[test]
fn captures_name_their_output() {
    assert_eq!(
        frame(CaptureSource::Output(Some(4)), None, true),
        Some(CaptureJob { output: 4, window: None, draw_cursor: true })
    );
    assert_eq!(
        frame(CaptureSource::Window(7), Some(4), false),
        Some(CaptureJob { output: 4, window: Some(7), draw_cursor: false })
    );
    assert_eq!(frame(CaptureSource::Window(7), None, false), None);
    assert_eq!(frame(CaptureSource::Gone, Some(4), false), None);
    assert_eq!(
        capture_constraints(CaptureSource::Output(Some(4)), false, None, (0, 0), Some((80, 60))),
        Some((80, 60))
    );
    assert_eq!(
        capture_constraints(CaptureSource::Window(7), false, Some(4), (8, 6), None),
        None
    );
}

#[test]
fn idle_inhibitors_are_counted() {
    let mut inhibitors = IdleInhibitors::new();
    inhibitors.inhibit(7);
    inhibitors.inhibit(7);
    inhibitors.uninhibit(7);
    assert_eq!(inhibitors.counts.get(&7), Some(&1));
    inhibitors.uninhibit(7);
    assert_eq!(inhibitors.counts.get(&7), None);
}

#[test]
fn small_services_answer() {
    assert!(token_created(true, true));
    assert!(!token_created(true, false));
    assert_eq!(request_activation(11, true), ActivationReply::Nothing);
    assert_eq!(request_activation(1, true), ActivationReply::Activate);
    assert_eq!(request_activation(1, false), ActivationReply::MarkUrgent);
    assert_eq!(decoration_mode(None, true).0, Decorations::ServerSide);
    assert_eq!(scale_output(Some(1), Some(2), false, Some(3), Some(4)), Some(1));
    assert_eq!(scale_output(None, None, true, None, Some(4)), Some(4));
    assert!(new_constraint(7, &vec![8, 7], Some(false)));
    assert!(!new_constraint(7, &vec![8], Some(false)));
    assert!(!new_constraint(7, &vec![7], Some(true)));
}

#[test]
fn captures_name_windows_by_their_identifiers() {
    let mut announced = Assoc::new();
    announced.insert(7, "seven".to_string());
    announced.insert(8, "eight".to_string());
    assert_eq!(toplevel_source_created(&announced, "eight"), CaptureSource::Window(8));
    assert_eq!(toplevel_source_created(&announced, "nine"), CaptureSource::Gone);
}

#[test]
fn objects_that_clients_give_up_are_told_nothing() {
    let mut state = ExtWorkspaceState::new();
    let to = object(1);
    state.bind(3, 30, true);
    state.refresh(&vec![("DP-1".to_string(), vec![(1, true)])], &vec![3]);
    assert_eq!(state.groups[0].instances.len(), 1);
    state.workspace_gone("DP-1", 1, to);
    assert!(state.groups[0].workspaces[0].instances.is_empty());
    assert_eq!(state.groups[0].instances.len(), 1);
    state.group_gone("DP-1", to);
    assert!(state.groups[0].instances.is_empty());
    let gone = state.refresh(&vec![], &vec![3]);
    assert!(!gone.events.iter().any(|e| e.step == Step::GroupRemoved { to }));
}

#[test]
fn the_end_of_an_old_workspace_object_leaves_a_new_one() {
    let mut state = ExtWorkspaceState::new();
    state.bind(3, 30, true);
    let one = vec![("DP-1".to_string(), vec![(1, true)])];
    let two = vec![("DP-1".to_string(), vec![(1, true), (2, false)])];
    state.refresh(&two, &vec![3]);
    state.refresh(&one, &vec![3]);
    state.refresh(&two, &vec![3]);
    state.workspace_gone("DP-1", 2, object(1));
    assert_eq!(state.groups[0].workspaces[1].instances, vec![object(3)]);
    state.workspace_gone("DP-1", 2, object(3));
    assert!(state.groups[0].workspaces[1].instances.is_empty());

    state.refresh(&vec![], &vec![3]);
    state.refresh(&one, &vec![3]);
    state.group_gone("DP-1", object(1));
    assert_eq!(state.groups[0].instances, vec![object(5)]);
    state.group_gone("DP-1", object(5));
    assert!(state.groups[0].instances.is_empty());
}

#[test]
fn destroyed_surfaces_keep_nothing_awake() {
    let mut inhibitors = IdleInhibitors::new();
    inhibitors.inhibit(1);
    inhibitors.inhibit(1);
    inhibitors.inhibit(2);
    assert!(!inhibitors.surface_destroyed(1));
    assert!(!inhibitors.surface_destroyed(1));
    assert!(inhibitors.surface_destroyed(2));
    assert!(!inhibitors.surface_destroyed(2));
}

#[test]
fn windows_look_as_their_rules_say() {
    let mut looks = WindowLooks::new();
    let both = LookRule { opacity: Some(80), glass: Some(2) };
    let clear = LookRule { opacity: Some(90), glass: None };
    looks.apply(7, &both);
    assert_eq!(looks.opacity.get(&7), Some(&80));
    assert_eq!(looks.glass.get(&7), Some(&2));
    looks.restore(7, &clear);
    assert_eq!(looks.opacity.get(&7), Some(&90));
    assert_eq!(looks.glass.get(&7), Some(&2));
    looks.apply(7, &clear);
    assert_eq!(looks.glass.get(&7), None);
    looks.forget(7);
    assert_eq!(looks.opacity.get(&7), None);
}
