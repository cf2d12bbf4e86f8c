use serde_json::Value;
use tidewm::bsp::Window;
use tidewm::desk::{Desk, DeskFacts, DeskOutput, FloatingTag, FullscreenEntry, MaximizedEntry, VisibleWindow, WindowModes};
use tidewm::geometry::Rect;
use tidewm::ipc::{
    Connections, EventKind, FlushStep, IpcSubscriber, Received, RequestReader, ResponseWriter,
    SocketGuard, Subscribers, WriteResult, WriteStep, MAX_CONNECTIONS, MAX_REQUEST_BYTES,
    SUBSCRIBER_PENDING_CAP,
};
use tidewm::ipc_documents::{
    focused_window_json, outputs_json, window_json, windows_json, workspace_entries,
    workspaces_json, IpcEvent, IpcFacts, OutputFacts, WindowFacts,
};
use tidewm::ipc_requests::{
    handle_request, invalid_request, response_payload, run_ipc_action, shutdown_failure,
    ActionTiming, Request, RequestStep,
};
use tidewm::layouts::Layouts;
use tidewm::looks::WindowLooks;
use tidewm::output_configuration::Transform;
use tidewm::toplevels::Toplevels;
use tidewm::xdg_shell::TilingRefusals;
use tidewm::Assoc;

fn window(id: u64) -> Window {
    Window { id, surface: Some(id) }
}

fn place() -> Rect {
    Rect { x: 10, y: 20, w: 300, h: 200 }
}

fn toplevels() -> Toplevels {
    let mut visible = Assoc::new();
    visible.insert(7, VisibleWindow { window: window(7), rect: place(), output: Some(1) });
    visible.insert(8, VisibleWindow { window: window(8), rect: place(), output: Some(1) });
    let mut layouts = Layouts::default();
    layouts.insert("DP-1", 1, window(7), None);
    let mut floating = Assoc::new();
    floating.insert(8, FloatingTag { window: window(8), output: 1, workspace: 2, rect: place() });
    let mut numeric_ids = Assoc::new();
    numeric_ids.insert(7, 70);
    Toplevels {
        desk: Desk {
            facts: DeskFacts {
                layouts,
                outputs: vec![DeskOutput {
                    id: 1,
                    name: "DP-1".to_string(),
                    geometry: Some(Rect { x: 0, y: 0, w: 1920, h: 1080 }),
                    tiling_area: None,
                    gaps: 0,
                }],
                primary: Some(1),
                unmapped: Assoc::new(),
                visible,
                ocean: Assoc::new(),
                parked: Assoc::new(),
                next_tab: Assoc::new(),
                put_away: Assoc::new(),
                tiled_rects: Assoc::new(),
            },
            modes: WindowModes {
                fullscreen: Assoc::new(),
                maximized: Assoc::new(),
                floating_workspace: floating,
                pinned: Assoc::new(),
            },
        },
        refusals: TilingRefusals::new(),
        pseudo_tiled: Assoc::new(),
        urgent: Assoc::new(),
        expected_tiled_size: Assoc::new(),
        focus_history: Vec::new(),
        swallowed: Assoc::new(),
        numeric_ids,
        next_numeric_id: 71,
        looks: WindowLooks::new(),
    }
}

fn facts() -> IpcFacts {
    let mut names = Assoc::new();
    names.insert(1, "DP-1".to_string());
    IpcFacts {
        windows: vec![seven(), eight()],
        outputs: vec!["DP-1".to_string()],
        names,
        focused: Some(7),
        scratchpads: Assoc::new(),
        active_submap: None,
    }
}

fn seven() -> WindowFacts {
    WindowFacts {
        surface: 7,
        app_id: Some("foot".to_string()),
        title: Some("a \"b\"\n\u{7}é".to_string()),
    }
}

fn eight() -> WindowFacts {
    WindowFacts { surface: 8, app_id: None, title: None }
}

#[test]
fn windows_are_described() {
    let entry = window_json(&toplevels(), &facts(), &seven());
    assert_eq!(entry["window_id"], Value::from(70));
    assert_eq!(entry["app_id"], Value::from("foot"));
    assert_eq!(entry["title"], Value::from("a \"b\"\n\u{7}é"));
    assert_eq!(entry["output"], Value::from("DP-1"));
    assert_eq!(entry["workspace"], Value::from(1));
    assert_eq!(entry["floating"], Value::from(false));
    assert_eq!(entry["focused"], Value::from(true));
    assert_eq!(entry.get("scratchpad"), None);
    assert_eq!(entry.as_object().unwrap().len(), 12);

    let mut known = facts();
    known.scratchpads.insert(2, "notes".to_string());
    let other = window_json(&toplevels(), &known, &eight());
    assert_eq!(other["window_id"], Value::Null);
    assert_eq!(other["floating"], Value::from(true));
    assert_eq!(other["workspace"], Value::from(2));
    assert_eq!(other["scratchpad"], Value::from("notes"));
}

#[test]
fn listed_windows_have_one_mode() {
    let mut top = toplevels();
    top.desk.modes.fullscreen.insert(
        7,
        FullscreenEntry { output: 1, restore_rect: None, was_pinned: false, pin_floated_it: false },
    );
    top.desk.modes.maximized.insert(7, MaximizedEntry { output: 1, restore_rect: place() });
    let entry = window_json(&top, &facts(), &seven());
    assert_eq!(entry["fullscreen"], Value::from(true));
    assert_eq!(entry["maximized"], Value::from(false));
}

#[test]
fn all_windows_and_the_focused_one_are_told() {
    let all = windows_json(&toplevels(), &facts());
    assert_eq!(all.as_array().unwrap().len(), 2);
    assert_eq!(all[0]["app_id"], Value::from("foot"));
    assert_eq!(focused_window_json(&toplevels(), &facts())["window_id"], Value::from(70));
    let mut unfocused = facts();
    unfocused.focused = None;
    assert_eq!(focused_window_json(&toplevels(), &unfocused), Value::Null);
}

#[test]
fn workspaces_are_listed() {
    let mut entries = workspace_entries(&toplevels(), &facts());
    entries.sort_by_key(|e| e.workspace);
    assert_eq!(entries.len(), 2);
    assert_eq!((entries[0].workspace, entries[0].active, entries[0].window_count), (1, true, 1));
    assert_eq!((entries[1].workspace, entries[1].active, entries[1].window_count), (2, false, 1));
    assert_eq!(workspaces_json(&toplevels(), &facts()).as_array().unwrap().len(), 2);
}

#[test]
fn outputs_are_described() {
    let output = OutputFacts {
        name: "DP-1".to_string(),
        position: (-5, 7),
        mode: Some((1920, 1080, 59940)),
        scale: Value::from(1.5),
        transform: Transform::Rotated90,
    };
    let list = outputs_json(&toplevels(), vec![output]);
    assert_eq!(list[0]["name"], Value::from("DP-1"));
    assert_eq!(list[0]["scale"], Value::from(1.5));
    let text = list.to_string();
    assert!(text.contains("-5") && text.contains("59940"));
}

#[test]
fn events_are_single_lines() {
    let line = IpcEvent::WindowClosed {
        window_id: Some(70),
        app_id: None,
        title: Some("two\nlines".to_string()),
    }
    .to_json_line(&toplevels(), &facts());
    assert_eq!(line.iter().filter(|b| **b == b'\n').count(), 1);
    assert_eq!(line.last(), Some(&b'\n'));
    let event: Value = serde_json::from_slice(&line).unwrap();
    assert_eq!(event["data"]["window_id"], Value::from(70));
    assert_eq!(event["data"]["title"], Value::from("two\nlines"));
    let focus = IpcEvent::FocusChanged { surface: None };
    assert_eq!(focus.kind(), EventKind::Focus);
    assert_eq!(IpcEvent::ConfigReloaded.kind(), EventKind::Config);
    let told: Value =
        serde_json::from_slice(&focus.to_json_line(&toplevels(), &facts())).unwrap();
    assert_eq!(told["data"], Value::Null);
    assert_eq!(told["event"], Value::from(focus.event_name()));
}

fn reply(request: Request, known: &[bool]) -> Value {
    match handle_request(&toplevels(), &facts(), vec![], &request, &known.to_vec()) {
        RequestStep::Reply(value) => value,
        RequestStep::Run(_) => panic!("the request is answered at once"),
    }
}

#[test]
fn requests_are_answered() {
    assert_eq!(reply(Request::Windows, &[])["ok"], Value::from(true));
    assert_eq!(reply(Request::ActiveSubmap, &[])["data"], Value::Null);
    assert_eq!(
        reply(Request::Subscribe { events: None }, &[])["error"],
        Value::from("subscribe must be the first and only request on a fresh connection")
    );
    assert_eq!(
        reply(Request::Action { action: "fly".to_string() }, &[false])["error"],
        Value::from("unknown action: fly")
    );
    assert_eq!(
        reply(Request::Batch { actions: vec![] }, &[])["error"],
        Value::from("batch must contain 1..=128 actions")
    );
    assert_eq!(
        reply(
            Request::Batch { actions: vec!["a".to_string(), "b".to_string()] },
            &[true, false]
        )["error"],
        Value::from("unknown action: b")
    );
    assert_eq!(
        invalid_request("no")["error"],
        Value::from("invalid request: no")
    );
}

#[test]
fn an_action_that_ran_gives_nothing_back() {
    let request = Request::Action { action: "a".to_string() };
    let step = handle_request(&toplevels(), &facts(), vec![], &request, &vec![true]);
    let RequestStep::Run(mut run) = step else {
        panic!("the action is run");
    };
    let answer = run.ran(&Ok(())).unwrap();
    assert_eq!(answer["ok"], Value::from(true));
    assert_eq!(answer.get("data"), Some(&Value::Null));
}

#[test]
fn batches_stop_at_the_first_failure() {
    let request = Request::Batch { actions: vec!["a".to_string(), "b".to_string()] };
    let step = handle_request(&toplevels(), &facts(), vec![], &request, &vec![true, true]);
    let RequestStep::Run(mut run) = step else {
        panic!("the batch is run");
    };
    assert_eq!(run.next(), Some(0));
    assert!(run.ran(&Ok(())).is_none());
    assert_eq!(run.next(), Some(1));
    let answer = run.ran(&Ok(())).unwrap();
    assert_eq!(answer["data"]["executed"], Value::from(2));

    let step = handle_request(&toplevels(), &facts(), vec![], &request, &vec![true, true]);
    let RequestStep::Run(mut run) = step else {
        panic!("the batch is run");
    };
    let answer = run.ran(&Err("it broke".to_string())).unwrap();
    assert_eq!(answer["ok"], Value::from(false));
    assert_eq!(answer["error"], Value::from("it broke"));
    assert_eq!(run_ipc_action(true), ActionTiming::Later(25));
    assert_eq!(run_ipc_action(false), ActionTiming::Now);
}

#[test]
fn answers_are_written_as_lines() {
    assert_eq!(
        response_payload(&invalid_request("\u{1}\"")),
        b"{\"error\":\"invalid request: \\u0001\\\"\",\"ok\":false}\n".to_vec()
    );
}

#[test]
fn requests_come_in_pieces() {
    let mut reader = RequestReader::new();
    assert!(matches!(reader.feed(&b"{\"a".to_vec()), Received::Incomplete));
    let Received::Line(line) = reader.feed(&b"\":1}\nrest".to_vec()) else {
        panic!("the line is complete");
    };
    assert_eq!(line, b"{\"a\":1}");
    let mut reader = RequestReader::new();
    assert!(matches!(
        reader.feed(&vec![b'x'; MAX_REQUEST_BYTES]),
        Received::Incomplete
    ));
    assert!(matches!(reader.feed(&b"\n".to_vec()), Received::TooLong));
}

#[test]
fn answers_go_out_in_pieces() {
    let mut writer = ResponseWriter::new(b"abcdef".to_vec());
    assert_eq!(writer.wrote(WriteResult::Wrote(2)), WriteStep::Again);
    assert_eq!(writer.wrote(WriteResult::WouldBlock), WriteStep::Wait);
    assert_eq!(writer.wrote(WriteResult::Wrote(4)), WriteStep::Done);
    let mut broken = ResponseWriter::new(b"abc".to_vec());
    assert_eq!(broken.wrote(WriteResult::Failed), WriteStep::Done);
    assert_eq!(broken.wrote(WriteResult::Wrote(0)), WriteStep::Done);
}

#[test]
fn connections_are_limited() {
    let mut connections = Connections::new();
    for _ in 0..MAX_CONNECTIONS {
        assert!(connections.accept());
    }
    assert!(!connections.accept());
    connections.lease();
    connections.release();
    connections.release();
    assert!(connections.accept());
}

#[test]
fn the_socket_is_named_after_the_process() {
    assert_eq!(
        SocketGuard::new(&Some("/run/user/1".to_string()), 42).path,
        "/run/user/1/tidewm-42.sock"
    );
    assert!(SocketGuard::new(&None, 42).path.ends_with("/tidewm-42.sock"));
}

#[test]
fn acknowledged_lines_reach_the_subscriber_in_order() {
    let mut subscriber = IpcSubscriber { filter: vec![EventKind::Focus], pending: Vec::new() };
    assert!(subscriber.wants(EventKind::Focus));
    assert!(!subscriber.wants(EventKind::Window));
    assert!(subscriber.queue(&b"one\n".to_vec()));
    assert!(subscriber.queue(&b"two\n".to_vec()));
    assert_eq!(subscriber.try_flush(), FlushStep::Again);
    assert_eq!(subscriber.flushed(WriteResult::Wrote(6)), FlushStep::Again);
    assert_eq!(subscriber.pending, b"o\n");
    assert_eq!(subscriber.flushed(WriteResult::WouldBlock), FlushStep::Healthy);
    assert_eq!(subscriber.flushed(WriteResult::Wrote(2)), FlushStep::Healthy);
    assert_eq!(subscriber.flushed(WriteResult::Failed), FlushStep::Gone);
}

#[test]
fn slow_subscribers_are_dropped() {
    let mut subscriber = IpcSubscriber { filter: vec![EventKind::Focus], pending: Vec::new() };
    assert!(subscriber.queue(&vec![b'x'; SUBSCRIBER_PENDING_CAP]));
    assert!(!subscriber.queue(&b"y".to_vec()));
}

#[test]
fn subscribers_are_told_what_they_asked_for() {
    let mut subscribers = Subscribers::new();
    let first = subscribers.register_subscriber(&vec![]);
    let second = subscribers.register_subscriber(&vec![EventKind::Urgent]);
    assert_ne!(first, second);
    assert!(subscribers.list.get(&first).unwrap().wants(EventKind::Config));
    assert!(!subscribers.list.get(&second).unwrap().wants(EventKind::Config));
    subscribers.remove(first);
    assert!(subscribers.list.get(&first).is_none());
}

#[test]
fn a_shutdown_that_cannot_be_scheduled_says_why() {
    assert_eq!(
        shutdown_failure("no timers"),
        "failed to schedule compositor shutdown: no timers"
    );
}
