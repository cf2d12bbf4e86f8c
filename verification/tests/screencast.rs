use tidewm::cast_frames::{
    after_serving, before_serving, plane_stride, process_frame, start_result, state_report,
    StreamState, WorkerStep, ID_ANY,
};
use tidewm::cast_registry::{
    checked_path, numbered_path, ObjectKind, SessionRegistry, MAX_SESSIONS,
    MAX_SESSIONS_PER_CLIENT,
};
use tidewm::cast_session::{
    cleanup_error, create_session, session_served, stop_result, BusErrorKind, CleanupStep,
    IdCounter, ServeOutcome, Started, StreamRequest, MAX_STREAMS_PER_SESSION,
};
use tidewm::portal::{
    finish_start, Portal, PortalStreamState, SessionEntry, SessionMap, StartOutcome,
    StartReservation, MAX_PORTAL_SESSIONS, RESPONSE_CANCELLED, RESPONSE_OTHER_ERROR,
    RESPONSE_SUCCESS, SOURCE_TYPE_MONITOR,
};
use tidewm::ripple::{
    shape_code, Ripple, RippleConfig, RippleElement, RippleLayer, RippleShape,
    RIPPLE_FRAGMENT_SHADER,
};
use tidewm::screencast::{
    buffer_properties, capture_extent, node_name, route_frame_request, worker_name,
    BuffersProperty, FrameRoute, FrameTarget, OutputMode, OutputSnapshot, ScreencastEvent,
    ScreencastFrame, ScreencastSource, ScreencastState, WindowSnapshot,
};
use tidewm::source_picker::{
    build_buffer, fill, fill_rect, glyph_ink, open_picker, picker_key, PanelOp, PanelRect,
    PickableWindow, PlacedGlyph, Rgba, SourceChoice, SourcePicker, KEY_DOWN, KEY_ESCAPE,
    KEY_RETURN, KEY_UP, MONITOR, VIRTUAL, WINDOW,
};

fn owner(name: &str) -> Option<String> {
    Some(name.to_string())
}

#[test]
fn session_registry_enforces_global_and_per_client_limits_and_prunes() {
    let mut registry = SessionRegistry::new();
    let owner = ":1.10";
    for id in 0..MAX_SESSIONS_PER_CLIENT {
        assert!(registry.reserve(owner, &format!("/test/{id}")));
    }
    assert!(!registry.reserve(owner, "/test/overflow"));

    let removed = registry.take_owner(owner);
    assert_eq!(removed.len(), MAX_SESSIONS_PER_CLIENT);
    assert!(registry.reserve(owner, "/test/reused"));

    let mut registry = SessionRegistry::new();
    for id in 0..MAX_SESSIONS {
        assert!(registry.reserve(&format!(":1.{}", id + 20), &format!("/global/{id}")));
    }
    assert!(!registry.reserve(":1.999", "/global/overflow"));
}

#[test]
fn object_paths_are_checked() {
    let path = numbered_path(ObjectKind::Session, 12);
    assert!(path.ends_with("/u12"));
    assert_eq!(checked_path(path.clone()), Ok(path));
    for bad in ["", "a", "/a/", "//", "/a-b", "/a//b", "/\u{e9}"] {
        assert!(checked_path(bad.to_string()).is_err(), "{bad}");
    }
    for good in ["/", "/a", "/a_1/B2"] {
        assert!(checked_path(good.to_string()).is_ok(), "{good}");
    }
}

#[test]
fn failed_frame_clears_stale_pixels_and_close_is_terminal() {
    let mut target = FrameTarget::new(false);
    target.complete(Some(ScreencastFrame {
        pixels: vec![1, 2, 3, 4],
        width: 1,
        height: 1,
        stride: 4,
    }));
    assert!(target.frame.is_some());

    target.complete(None);
    assert!(target.frame.is_none());

    target.close();
    assert!(target.is_closed());
    assert!(target.frame.is_none());
}

#[test]
fn a_frame_is_asked_for_once() {
    let mut target = FrameTarget::new(true);
    let source = ScreencastSource::Window(5);
    let Some(ScreencastEvent::FrameRequested { source: ScreencastSource::Window(5), target: 9 }) =
        target.request(&source, 9)
    else {
        panic!("the frame is asked for");
    };
    assert!(target.request(&source, 9).is_none());
    target.request_failed();
    assert!(target.request(&source, 9).is_some());
    target.complete(None);
    target.close();
    assert!(target.request(&source, 9).is_none());
}

fn session_entry() -> SessionEntry {
    SessionEntry {
        owner: ":1.42".to_string(),
        registered: true,
        draw_cursor: Some(false),
        source_types: Some(SOURCE_TYPE_MONITOR),
        stream: PortalStreamState::Idle,
    }
}

#[test]
fn start_reservation_is_exclusive_and_rolls_back() {
    let mut entry = session_entry();
    let first = StartReservation::begin(&mut entry).expect("first start reserves");
    assert!(StartReservation::begin(&mut entry).is_none());

    first.cancel(&mut entry);
    assert!(StartReservation::begin(&mut entry).is_some());
}

#[test]
fn close_prevents_late_or_new_start() {
    let mut entry = session_entry();
    let in_flight = StartReservation::begin(&mut entry).expect("start reserves");
    entry.close();
    in_flight.cancel(&mut entry);

    assert!(StartReservation::begin(&mut entry).is_none());
}

#[test]
fn duplicate_path_reservation_does_not_replace_original() {
    let path = "/org/freedesktop/portal/session/test".to_string();
    let (original, duplicate) = (1, 2);
    let mut sessions = SessionMap::new();
    assert!(sessions.reserve_session(path.clone(), original));
    let accepted = sessions.reserve_session(path.clone(), duplicate);

    assert!(!accepted);
    assert!(!sessions.remove_session_if_same(&path, duplicate));
    assert_eq!(sessions.session_at(&path), Some(original));
}

#[test]
fn a_started_stream_is_told_once() {
    let mut entry = session_entry();
    let (draw_cursor, types, reservation) = entry.start().unwrap();
    assert_eq!((draw_cursor, types), (false, SOURCE_TYPE_MONITOR));
    assert!(entry.start().is_none());
    let reply = finish_start(
        &mut entry,
        reservation,
        StartOutcome::Started { worker: 3, node: 77, width: 8, height: 6, source_type: 1 },
    );
    assert_eq!(reply.response, RESPONSE_SUCCESS);
    assert_eq!(reply.stream.unwrap().node, 77);
    assert_eq!(entry.stream, PortalStreamState::Active(3));
    assert_eq!(entry.close(), Some(3));

    let mut refused = session_entry();
    let (_, _, reservation) = refused.start().unwrap();
    let reply = finish_start(&mut refused, reservation, StartOutcome::Cancelled);
    assert_eq!(reply.response, RESPONSE_CANCELLED);
    assert_eq!(refused.stream, PortalStreamState::Idle);
    let (_, _, reservation) = refused.start().unwrap();
    let reply = finish_start(&mut refused, reservation, StartOutcome::Failed);
    assert_eq!(reply.response, RESPONSE_OTHER_ERROR);
}

#[test]
fn a_stream_that_comes_too_late_is_unwanted() {
    let mut entry = session_entry();
    let (_, _, reservation) = entry.start().unwrap();
    entry.close();
    let reply = finish_start(
        &mut entry,
        reservation,
        StartOutcome::Started { worker: 3, node: 77, width: 8, height: 6, source_type: 1 },
    );
    assert_eq!(reply.unwanted, Some(3));
    assert!(reply.stream.is_none());
    assert_eq!(entry.stream, PortalStreamState::Closed);
}

#[test]
fn portal_sessions_belong_to_their_clients() {
    let mut portal = Portal::new();
    let path = "/s/1".to_string();
    let Ok(Some(id)) = portal.create_session(path.clone(), &owner(":1.1")) else {
        panic!("the session is made");
    };
    let mut ids = IdCounter::new();
    let reply = portal.session_served(&mut ids, &path, id, true);
    assert_eq!(reply.response, RESPONSE_SUCCESS);
    assert!(reply.token.is_some());
    assert!(matches!(portal.authorized_session(&path, &owner(":1.1")), Ok(Some(found)) if found == id));
    assert!(matches!(portal.authorized_session(&path, &owner(":1.2")), Ok(None)));
    assert!(portal.authorized_session(&path, &None).is_err());
    assert!(portal.create_session("/s/2".to_string(), &None).is_err());
    let gone = portal.owner_gone(":1.1");
    assert_eq!(gone.len(), 1);
    assert!(matches!(portal.authorized_session(&path, &owner(":1.1")), Ok(None)));
    for i in 0..MAX_PORTAL_SESSIONS {
        assert!(matches!(
            portal.create_session(format!("/t/{i}"), &owner(":1.3")),
            Ok(Some(_))
        ));
    }
    assert!(!matches!(
        portal.create_session("/t/x".to_string(), &owner(":1.3")),
        Ok(Some(_))
    ));
}

#[test]
fn a_client_that_leaves_gives_each_path_once() {
    let mut portal = Portal::new();
    let mut made: Vec<(String, u64)> = Vec::new();
    for path in ["/s/1", "/s/2"] {
        let Ok(Some(id)) = portal.create_session(path.to_string(), &owner(":1.1")) else {
            panic!("the session is made");
        };
        made.push((path.to_string(), id));
    }
    assert!(matches!(portal.create_session("/s/3".to_string(), &owner(":1.2")), Ok(Some(_))));
    let mut gone = portal.owner_gone(":1.1");
    gone.sort();
    assert_eq!(gone, made);
    assert!(portal.owner_gone(":1.1").is_empty());
    assert_eq!(portal.sessions.by_path.entries.len(), 1);
}

#[test]
fn sessions_that_are_over_are_forgotten() {
    let mut portal = Portal::new();
    let path = "/s/1".to_string();
    let Ok(Some(id)) = portal.create_session(path.clone(), &owner(":1.1")) else {
        panic!("the session is made");
    };
    portal.forget_session(id);
    assert!(portal.entries.contains(&id));
    assert!(matches!(portal.close_session(&path, id, &owner(":1.1")), Ok(None)));
    portal.forget_session(id);
    assert!(!portal.entries.contains(&id));
    portal.forget_session(id);
    assert!(portal.entries.entries.is_empty());
}

#[test]
fn sessions_record_and_start_streams() {
    let mut registry = SessionRegistry::new();
    let mut ids = IdCounter::new();
    let mut session = create_session(&mut registry, &mut ids, &owner(":1.5")).ok().unwrap();
    let served = session_served(&mut registry, &session, &ServeOutcome::Alive);
    assert!(served.result.is_ok() && !served.abandon);
    let outputs =
        vec![OutputSnapshot { name: "DP-1".to_string(), width: 1920, height: 1080 }];
    let windows = vec![WindowSnapshot { id: 3, width: 640, height: 480 }];
    let monitor = |name: &str| StreamRequest::Monitor { connector: name.to_string() };

    let refused = session.record(
        &mut ids,
        &owner(":1.6"),
        &monitor("DP-1"),
        None,
        &outputs,
        &windows,
    );
    assert!(matches!(refused, Err(e) if e.kind == BusErrorKind::AccessDenied));
    let unknown =
        session.record(&mut ids, &owner(":1.5"), &monitor("X"), None, &outputs, &windows);
    assert!(matches!(unknown, Err(e) if e.message == "unknown output connector: X"));
    let missing = session.record(
        &mut ids,
        &owner(":1.5"),
        &StreamRequest::Window { id: None },
        None,
        &outputs,
        &windows,
    );
    assert!(matches!(missing, Err(e) if e.message == "missing window-id"));

    let stream = session
        .record(&mut ids, &owner(":1.5"), &monitor("DP-1"), None, &outputs, &windows)
        .ok()
        .unwrap();
    assert_eq!((stream.width, stream.height, stream.cursor_mode), (1920, 1080, 1));
    let path = stream.path.clone();
    assert!(session.recorded(stream, &Ok(())).result.is_ok());

    let specs = session
        .start(&owner(":1.5"), &outputs, &windows, &vec![false])
        .ok()
        .unwrap();
    assert_eq!(specs.len(), 1);
    assert!(specs[0].draw_cursor);
    let told = session
        .started(&Ok(vec![Started { path: path.clone(), handle: 4, node: 55 }]))
        .ok()
        .unwrap();
    assert_eq!(told, vec![(path, 55)]);
    session.start_done();

    let taken = session.stop(&owner(":1.5")).ok().unwrap().unwrap();
    assert_eq!(taken[0].pipewire, Some(4));
    assert!(session.close_and_take_streams().is_none());
    let late = session.record(&mut ids, &owner(":1.5"), &monitor("DP-1"), None, &outputs, &windows);
    assert!(late.is_err());
}

#[test]
fn sessions_hold_a_limited_number_of_streams() {
    let mut registry = SessionRegistry::new();
    let mut ids = IdCounter::new();
    let mut session = create_session(&mut registry, &mut ids, &owner(":1.5")).ok().unwrap();
    let windows = vec![WindowSnapshot { id: 3, width: 640, height: 480 }];
    let request = StreamRequest::Window { id: Some(3) };
    for _ in 0..MAX_STREAMS_PER_SESSION {
        let recorded =
            session.record(&mut ids, &owner(":1.5"), &request, Some(2), &vec![], &windows);
        let stream = recorded.ok().unwrap();
        assert_eq!(stream.cursor_mode, 2);
        session.recorded(stream, &Ok(()));
    }
    let full = session.record(&mut ids, &owner(":1.5"), &request, None, &vec![], &windows);
    assert!(matches!(full, Err(e) if e.kind == BusErrorKind::LimitsExceeded));
}

#[test]
fn sessions_that_are_not_to_be_are_taken_back() {
    let mut registry = SessionRegistry::new();
    let mut ids = IdCounter::new();
    let session = create_session(&mut registry, &mut ids, &owner(":1.5")).ok().unwrap();
    let gone = session_served(&mut registry, &session, &ServeOutcome::OwnerGone);
    assert!(gone.abandon);
    assert!(matches!(gone.result, Err(e) if e.kind == BusErrorKind::Disconnected));
    assert!(registry.entries.is_empty());
    assert!(create_session(&mut registry, &mut ids, &None).is_err());
}

#[test]
fn cleaning_up_tells_what_failed() {
    assert!(stop_result(&vec![]).is_ok());
    let first = cleanup_error(CleanupStep::RemoveStream, "/a", "gone");
    let second = cleanup_error(CleanupStep::SignalSession, "/b", "late");
    assert!(first.contains("/a") && first.contains("gone"));
    let error = stop_result(&vec![first.clone(), second.clone()]).err().unwrap();
    assert!(error.message.contains(&first) && error.message.contains(&second));
}

fn frame(width: u32, height: u32, stride: u32, pixels: Vec<u8>) -> Option<ScreencastFrame> {
    Some(ScreencastFrame { pixels, width, height, stride })
}

#[test]
fn frames_are_copied_without_their_gaps() {
    let mut target = FrameTarget::new(false);
    target.complete(frame(1, 2, 6, vec![1, 2, 3, 4, 90, 91, 5, 6, 7, 8, 92, 93]));
    let mut buffer = vec![99; 10];
    assert_eq!(process_frame(&mut target, 1, 2, &mut buffer), 8);
    assert_eq!(buffer, vec![1, 2, 3, 4, 5, 6, 7, 8, 99, 99]);
    let mut short = vec![99; 5];
    assert_eq!(process_frame(&mut target, 1, 2, &mut short), 4);
    assert_eq!(short, vec![1, 2, 3, 4, 99]);
    assert!(!target.is_closed());
}

#[test]
fn frames_that_are_missing_are_black() {
    let mut target = FrameTarget::new(false);
    let mut buffer = vec![99; 10];
    assert_eq!(process_frame(&mut target, 1, 2, &mut buffer), 8);
    assert_eq!(buffer, vec![0, 0, 0, 0, 0, 0, 0, 0, 99, 99]);
    target.complete(frame(1, 2, 3, vec![7; 8]));
    let mut buffer = vec![99; 4];
    assert_eq!(process_frame(&mut target, 1, 2, &mut buffer), 4);
    assert_eq!(buffer, vec![0; 4]);
}

#[test]
fn a_stream_ends_with_the_size_it_was_made_for() {
    let mut target = FrameTarget::new(false);
    target.complete(frame(2, 2, 8, vec![7; 16]));
    let mut buffer = vec![99; 8];
    process_frame(&mut target, 1, 2, &mut buffer);
    assert_eq!(buffer, vec![0; 8]);
    assert!(target.is_closed());
}

#[test]
fn writing_a_frame_leaves_the_next_request_open() {
    let mut target = FrameTarget::new(false);
    target.complete(frame(1, 2, 4, vec![7; 8]));
    assert!(target.request(&ScreencastSource::Window(5), 9).is_some());
    let mut buffer = vec![99; 8];
    assert_eq!(process_frame(&mut target, 1, 2, &mut buffer), 8);
    assert!(target.pending && !target.is_closed());
    process_frame(&mut target, 3, 2, &mut buffer);
    assert!(!target.pending && target.is_closed());
}

#[test]
fn workers_are_started_and_ended() {
    assert_eq!(before_serving(true, false), WorkerStep::Stop);
    assert_eq!(before_serving(false, true), WorkerStep::Stop);
    assert_eq!(before_serving(false, false), WorkerStep::Serve);
    assert_eq!(after_serving(4999, false), WorkerStep::Serve);
    assert_eq!(after_serving(5000, false), WorkerStep::GiveUp);
    assert_eq!(after_serving(5000, true), WorkerStep::Serve);
    assert_eq!(state_report(StreamState::Running, 5), Some(Ok(5)));
    assert_eq!(state_report(StreamState::Running, ID_ANY), None);
    assert_eq!(
        state_report(StreamState::Failed("x".to_string()), 5),
        Some(Err("x".to_string()))
    );
    assert_eq!(state_report(StreamState::Other, 5), None);
    let late = start_result(None);
    assert_eq!(late.result, Err("timed out creating PipeWire stream".to_string()));
    assert!(late.stop && !late.join);
    let failed = start_result(Some(Err("x".to_string())));
    assert!(failed.stop && failed.join);
    assert!(!start_result(Some(Ok(5))).stop);
    assert_eq!(plane_stride(512, 100), 512);
    assert_eq!(plane_stride(0, 100), 400);
}

#[test]
fn streams_are_named_after_their_source() {
    let output = ScreencastSource::Output("DP-1".to_string());
    assert_eq!(node_name(&output), "tidewm-screencast-DP-1");
    assert_eq!(worker_name(&output), "screencast-pw-DP-1");
    let window = ScreencastSource::Window(7);
    assert_eq!(node_name(&window), "tidewm-screencast-window-7");
    assert_eq!(worker_name(&window), "screencast-pw-window-7");
    assert_eq!(
        buffer_properties(10, 20),
        vec![
            (BuffersProperty(1), 4),
            (BuffersProperty(2), 1),
            (BuffersProperty(3), 800),
            (BuffersProperty(4), 40),
        ]
    );
    assert_eq!(BuffersProperty(6).as_raw(), 6);
}

#[test]
fn requests_for_frames_find_their_source() {
    let outputs = vec!["A".to_string(), "B".to_string()];
    let output = |name: &str| ScreencastSource::Output(name.to_string());
    assert_eq!(route_frame_request(&output("B"), &outputs, None), FrameRoute::CaptureOutput(1));
    assert_eq!(route_frame_request(&output("C"), &outputs, None), FrameRoute::CloseTarget);
    let window = ScreencastSource::Window(7);
    assert_eq!(
        route_frame_request(&window, &outputs, Some((3, Some(4)))),
        FrameRoute::CaptureWindow { surface: 3, output: 4 }
    );
    assert_eq!(
        route_frame_request(&window, &outputs, Some((3, None))),
        FrameRoute::CloseTarget
    );
    assert_eq!(route_frame_request(&window, &outputs, None), FrameRoute::CloseTarget);
    assert_eq!(capture_extent(0), 1);
    assert_eq!(capture_extent(i64::MAX), u32::MAX);
}

#[test]
fn outputs_without_a_size_cannot_be_shared() {
    let mut state = ScreencastState::new();
    let mode = |name: &str, mode| OutputMode { name: name.to_string(), mode };
    state.refresh_outputs(&vec![
        mode("A", Some((100, 50))),
        mode("B", None),
        mode("C", Some((0, 50))),
        mode("D", Some((100, -1))),
    ]);
    assert_eq!(state.outputs.len(), 1);
    assert_eq!(state.outputs[0].name, "A");
}

fn output(name: &str) -> OutputMode {
    OutputMode { name: name.to_string(), mode: Some((1920, 1080)) }
}

fn pickable(number: u64, mapped: bool) -> PickableWindow {
    PickableWindow {
        number,
        mapped,
        on_output: true,
        width: 0,
        height: 30,
        title: "T".to_string(),
    }
}

#[test]
fn a_single_choice_needs_no_panel() {
    let mut slot = None;
    let outcome = open_picker(
        &mut slot,
        1,
        VIRTUAL,
        false,
        &Some(output("DP-1")),
        &vec![output("DP-1"), output("DP-2")],
        &vec![],
    );
    let choice = outcome.reply.unwrap().unwrap();
    assert_eq!(choice.label, "Virtual display — 1920×1080");
    assert_eq!((choice.source_type, choice.width, choice.height), (VIRTUAL, 1920, 1080));
    assert!(slot.is_none() && !outcome.redraw);
    let none = open_picker(
        &mut slot,
        1,
        WINDOW,
        false,
        &Some(output("DP-1")),
        &vec![],
        &vec![pickable(1, false)],
    );
    assert!(matches!(none.reply, Some(None)));
    let window = open_picker(
        &mut slot,
        1,
        WINDOW,
        false,
        &Some(output("DP-1")),
        &vec![],
        &vec![pickable(1, false), pickable(2, true)],
    );
    let choice = window.reply.unwrap().unwrap();
    assert_eq!(choice.label, "Window — T");
    assert_eq!((choice.width, choice.height), (1, 30));
    let nowhere = open_picker(&mut slot, 1, MONITOR, false, &None, &vec![output("DP-1")], &vec![]);
    assert!(matches!(nowhere.reply, Some(None)));
}

#[test]
fn the_panel_goes_round() {
    let mut slot = None;
    open_picker(
        &mut slot,
        5,
        MONITOR,
        false,
        &Some(output("DP-1")),
        &vec![output("DP-1"), output("DP-2"), output("DP-3")],
        &vec![],
    );
    let picker = slot.as_ref().unwrap();
    assert_eq!(picker.output_name(), "DP-1");
    assert_eq!(picker.choices[1].label, "Monitor — DP-2 (1920×1080)");
    assert_eq!(picker.size, (720, 260));
    assert_eq!(picker.location, (600, 410));
    picker_key(&mut slot, KEY_UP);
    assert_eq!(slot.as_ref().unwrap().selected, 2);
    picker_key(&mut slot, KEY_DOWN);
    assert_eq!(slot.as_ref().unwrap().selected, 0);
    let other = picker_key(&mut slot, 0x61);
    assert!(other.swallowed && !other.redraw && other.reply.is_none());
    picker_key(&mut slot, KEY_DOWN);
    let (request, choice) = picker_key(&mut slot, KEY_RETURN).reply.unwrap();
    assert_eq!(request, 5);
    assert!(matches!(choice.unwrap().source, ScreencastSource::Output(name) if name == "DP-2"));
    assert!(slot.is_none());
}

#[test]
fn escape_cancels_the_panel() {
    let mut slot = None;
    let outputs = vec![output("DP-1"), output("DP-2")];
    open_picker(&mut slot, 5, MONITOR, false, &Some(output("DP-1")), &outputs, &vec![]);
    let again = open_picker(&mut slot, 6, MONITOR, false, &Some(output("DP-1")), &outputs, &vec![]);
    assert_eq!(again.cancelled, Some(5));
    let (request, choice) = picker_key(&mut slot, KEY_ESCAPE).reply.unwrap();
    assert_eq!(request, 6);
    assert!(choice.is_none());
}

fn choice(label: &str) -> SourceChoice {
    SourceChoice {
        source: ScreencastSource::Window(1),
        source_type: WINDOW,
        width: 1,
        height: 1,
        label: label.to_string(),
    }
}

#[test]
fn the_selected_row_is_always_shown() {
    let choices: Vec<SourceChoice> = (0..10).map(|i| choice(&format!("row {i}"))).collect();
    let height = 44 + 54 * 4;
    for selected in 0..10 {
        let ops = build_buffer(720, height, &choices, selected);
        assert_eq!(ops.len(), 2 + 2 * 3);
        let label = format!("row {selected}");
        assert!(ops
            .iter()
            .any(|op| matches!(op, PanelOp::Text { text, .. } if *text == label)));
    }
    let ops = build_buffer(720, height, &choices, 5);
    assert!(matches!(&ops[1], PanelOp::Text { text, x: 22, baseline: 44 } if text == "Share a source"));
    assert!(matches!(
        &ops[2],
        PanelOp::Fill { rect: PanelRect { x: 22, y: 76, w: 676, h: 48 }, color }
            if *color == Rgba { r: 35, g: 39, b: 48, a: 255 }
    ));
    assert!(matches!(&ops[3], PanelOp::Text { text, x: 36, baseline: 107 } if text == "row 3"));
    assert!(matches!(&ops[6], PanelOp::Fill { color, .. } if color.r == 38));
}

#[test]
fn moves_of_any_length_stay_in_the_list() {
    let mut picker = SourcePicker::new(
        1,
        "DP-1".to_string(),
        (100, 50),
        vec![choice("a"), choice("b"), choice("c")],
    );
    assert_eq!(picker.size, (100, 50));
    picker.move_selection(7);
    assert_eq!(picker.selected, 1);
    picker.move_selection(-8);
    assert_eq!(picker.selected, 2);
    picker.move_selection(isize::MIN);
    assert_eq!(picker.selected, (2 + isize::MIN as i128).rem_euclid(3) as usize);
    picker.selected = 2;
    assert_eq!(picker.complete(true).unwrap().label, "c");
}

#[test]
fn rectangles_are_filled_as_far_as_they_lie_in_the_picture() {
    let mut pixels = vec![0u8; 3 * 2 * 4];
    fill(&mut pixels, 3, 2, Rgba { r: 1, g: 2, b: 3, a: 4 });
    assert_eq!(&pixels[..4], &[3, 2, 1, 4]);
    assert!(pixels.chunks(4).all(|p| p == [3, 2, 1, 4]));
    let red = Rgba { r: 9, g: 0, b: 0, a: 9 };
    fill_rect(&mut pixels, 3, 2, PanelRect { x: 1, y: -5, w: 9, h: 6 }, red);
    let filled: Vec<bool> = pixels.chunks(4).map(|p| p == [0, 0, 9, 9]).collect();
    assert_eq!(filled, vec![false, true, true, false, false, false]);
    fill_rect(&mut pixels, 3, 2, PanelRect { x: 2, y: 0, w: -1, h: 2 }, red);
    let again: Vec<bool> = pixels.chunks(4).map(|p| p == [0, 0, 9, 9]).collect();
    assert_eq!(again, filled);
}

#[test]
fn empty_pictures_stay_empty() {
    let red = Rgba { r: 9, g: 0, b: 0, a: 9 };
    let mut pixels: Vec<u8> = Vec::new();
    fill(&mut pixels, 0, 5, red);
    fill_rect(&mut pixels, 5, 0, PanelRect { x: 0, y: 0, w: 5, h: 5 }, red);
    assert!(pixels.is_empty());
    let glyph = PlacedGlyph { x: 0, y: 0, columns: 1, bitmap: vec![10] };
    assert!(glyph_ink(&glyph, 0, 5).is_empty());
}

#[test]
fn glyphs_are_clipped() {
    let glyph = PlacedGlyph { x: -1, y: 1, columns: 2, bitmap: vec![10, 20, 0, 40] };
    assert_eq!(glyph_ink(&glyph, 3, 3), vec![(12, 20), (24, 40)]);
    let blank = PlacedGlyph { x: 0, y: 0, columns: 0, bitmap: vec![] };
    assert!(glyph_ink(&blank, 3, 3).is_empty());
}

#[test]
fn shader_source_keeps_required_uniforms_and_omits_version_directive() {
    assert!(!RIPPLE_FRAGMENT_SHADER.contains("#version"));
    assert!(RIPPLE_FRAGMENT_SHADER.contains("uniform float alpha"));
    assert!(RIPPLE_FRAGMENT_SHADER.contains("uniform vec2 size"));
    assert!(RIPPLE_FRAGMENT_SHADER.contains("varying vec2 v_coords"));
    assert!(RIPPLE_FRAGMENT_SHADER.contains("uniform vec3 u_tint"));
    assert!(RIPPLE_FRAGMENT_SHADER.contains("uniform float u_thickness_uv"));
    assert!(RIPPLE_FRAGMENT_SHADER.contains("uniform float u_shape"));
}

fn ripple(center: (i32, i32), shapes: Vec<RippleShape>, duration_ms: Option<u32>) -> Ripple {
    let cfg = RippleConfig { shapes, duration_ms, layer: None };
    Ripple::new("eDP-1".to_string(), center, cfg, 1)
}

#[test]
fn element_rect_is_a_centered_square_of_side_two_radius() {
    let ripple = ripple((300, 200), vec![], None);
    for radius in [0, 1, 37, 220] {
        let rect = ripple.element_rect(radius);
        assert_eq!(rect.w, rect.h);
        assert_eq!(rect.w, 2 * radius);
        let cx = rect.x + rect.w / 2;
        let cy = rect.y + rect.h / 2;
        assert!((cx - 300).abs() <= 1);
        assert!((cy - 200).abs() <= 1);
    }
}

#[test]
fn from_ripple_returns_one_element_per_shape() {
    let mut ripple =
        ripple((100, 100), vec![RippleShape::Ring, RippleShape::Square], None);
    assert_eq!(ripple.shapes(), vec![RippleShape::Ring, RippleShape::Square]);
    assert!(!ripple.finished(0));
    let elements = RippleElement::from_ripple(&mut ripple, 0, 10);
    assert_eq!(elements.len(), 2);
    assert_eq!(elements[1].shape, RippleShape::Square);
    assert_eq!(elements[0].area, elements[1].area);
    assert_eq!(elements[0].max_side(), 20);
    let next = RippleElement::from_ripple(&mut ripple, 1, 10);
    assert_ne!(next[0].commit, elements[0].commit);
    assert_eq!(next[0].id, elements[0].id);
}

#[test]
fn ripples_end_after_their_duration() {
    let mut short = ripple((0, 0), vec![], Some(10));
    assert!(!short.finished(9_999_999));
    assert!(short.finished(10_000_000));
    assert!(RippleElement::from_ripple(&mut short, 25_000_000, 220).is_empty());
    assert_eq!(short.commit, 0);
    let usual = ripple((0, 0), vec![], None);
    assert!(!usual.finished(649_999_999));
    assert!(usual.finished(650_000_000));
    assert_eq!(usual.shapes(), vec![RippleShape::Ring]);
    assert_eq!(usual.layer(), RippleLayer::AboveWindows);
    assert_eq!(shape_code(RippleShape::Cross), 3);
}

#[test]
fn sizes_of_large_buffers_are_in_twos_complement() {
    let large = buffer_properties(32768, 16384);
    assert_eq!(large[2].1, i32::MIN);
    assert_eq!(large[3].1, 131072);
}
