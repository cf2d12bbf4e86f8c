use tidewm::cli::{help_text, parse_args, Invocation};
use tidewm::session::{
    build_tag, export_session_environment, foreign_compositor_env, session_identity,
    spawn_command, validate_env_entry, validated_session_environment_keys, Satellite,
    SpawnError,
};
use tidewm::session_tasks::{
    environ_path, environment_is_fresh, portal_pid, SessionAction, SessionReply, SessionTasks,
};
use tidewm::text::{
    find_after_prefix, join, parse_i32, parse_u32, split_words, text_le, to_decimal,
    to_signed_decimal, trim,
};

fn strings(list: &[&str]) -> Vec<String> {
    list.iter().map(|s| s.to_string()).collect()
}

#[derive(Debug, PartialEq)]
enum Call {
    Status(String, Vec<String>),
    Output(String, Vec<String>),
    Read(String),
}

/// Runs the tasks, with the portal's environment as it is given.
fn run(env_keys: &[&str], stdout: Option<&[u8]>, portal_environment: &[u8]) -> Vec<Call> {
    let mut tasks = SessionTasks::new(&strings(env_keys));
    let mut calls = Vec::new();
    loop {
        match tasks.action() {
            SessionAction::Status(call) => {
                calls.push(Call::Status(call.program, call.args));
                tasks.advance(SessionReply::Ran);
            }
            SessionAction::Output(call) => {
                calls.push(Call::Output(call.program, call.args));
                tasks.advance(SessionReply::Printed(stdout.map(|s| s.to_vec())));
            }
            SessionAction::ReadFile(path) => {
                calls.push(Call::Read(path));
                tasks.advance(SessionReply::Contents(Some(portal_environment.to_vec())));
            }
            SessionAction::Finished => return calls,
        }
    }
}

#[test]
fn session_environment_tasks_keep_order_and_restart_only_stale_portal() {
    let calls = run(
        &["CUSTOM_SESSION_KEY"],
        Some(b"4242\n"),
        b"XDG_CURRENT_DESKTOP=Hyprland\0",
    );
    assert_eq!(calls.len(), 7);

    let expected_export_vars = [
        "WAYLAND_DISPLAY",
        "XDG_CURRENT_DESKTOP",
        "XDG_SESSION_DESKTOP",
        "DESKTOP_SESSION",
        "XDG_SESSION_TYPE",
        "TIDEWM_VERSION",
        "CUSTOM_SESSION_KEY",
    ];
    assert_eq!(
        calls[0],
        Call::Status(
            "dbus-update-activation-environment".to_string(),
            std::iter::once("--systemd")
                .chain(expected_export_vars)
                .map(str::to_string)
                .collect(),
        )
    );
    assert_eq!(
        calls[1],
        Call::Status(
            "systemctl".to_string(),
            ["--user", "import-environment"]
                .into_iter()
                .chain(expected_export_vars)
                .map(str::to_string)
                .collect(),
        )
    );
    assert_eq!(
        calls[2],
        Call::Status(
            "dbus-update-activation-environment".to_string(),
            foreign_compositor_env().iter().map(|key| format!("{key}=")).collect(),
        )
    );
    assert_eq!(
        calls[3],
        Call::Status(
            "systemctl".to_string(),
            ["--user", "unset-environment"]
                .into_iter()
                .map(str::to_string)
                .chain(foreign_compositor_env())
                .collect(),
        )
    );
    assert!(matches!(&calls[4], Call::Output(program, _) if program == "systemctl"));
    assert_eq!(calls[5], Call::Read("/proc/4242/environ".to_string()));
    assert_eq!(
        calls[6],
        Call::Status(
            "systemctl".to_string(),
            strings(&["--user", "--no-block", "restart", "xdg-desktop-portal.service"]),
        )
    );

    let fresh = run(&[], Some(b"4242\n"), b"XDG_CURRENT_DESKTOP=tidewm\0");
    assert_eq!(fresh.len(), 6);
    assert!(!fresh.iter().any(|call| {
        matches!(call, Call::Status(program, args) if program == "systemctl" && args.iter().any(|arg| arg == "restart"))
    }));
}

#[test]
fn unavailable_helpers_do_not_stop_later_environment_steps() {
    // A helper that could not be run answers no differently from one that was.
    let calls = run(&[], Some(b"4242\n"), b"XDG_CURRENT_DESKTOP=tidewm\0");
    assert_eq!(calls.len(), 6);
    assert!(
        matches!(&calls[0], Call::Status(program, _) if program == "dbus-update-activation-environment")
    );
    assert!(matches!(&calls[1], Call::Status(program, _) if program == "systemctl"));
    assert!(
        matches!(&calls[2], Call::Status(program, _) if program == "dbus-update-activation-environment")
    );
    assert!(matches!(&calls[3], Call::Status(program, _) if program == "systemctl"));
    assert!(matches!(&calls[4], Call::Output(program, _) if program == "systemctl"));
    assert!(matches!(&calls[5], Call::Read(_)));
}

#[test]
fn no_portal_is_asked_for_its_environment_where_none_runs() {
    assert_eq!(run(&[], Some(b"0\n"), b"").len(), 5);
    assert_eq!(run(&[], None, b"").len(), 5);
    assert_eq!(run(&[], Some(b"\xff\xfe"), b"").len(), 5);
}

#[test]
fn worker_clones_only_validated_environment_keys() {
    let env = vec![
        ("VALID_KEY".to_string(), "value".to_string()),
        ("INVALID=KEY".to_string(), "value".to_string()),
        ("INVALID_VALUE".to_string(), "nul\0value".to_string()),
    ];
    assert_eq!(
        validated_session_environment_keys(&env),
        vec!["VALID_KEY".to_string()]
    );
}

#[test]
fn environment_entries_are_checked() {
    assert!(validate_env_entry("KEY", "any = value"));
    assert!(validate_env_entry("KEY", ""));
    assert!(!validate_env_entry("", "value"));
    assert!(!validate_env_entry("K\0", "value"));
}

#[test]
fn the_portal_process_is_read_from_its_number() {
    assert_eq!(portal_pid(Some(b" 4242 \n".to_vec())), Some(4242));
    assert_eq!(portal_pid(Some(b"0\n".to_vec())), None);
    assert_eq!(portal_pid(Some(b"x".to_vec())), None);
    assert_eq!(portal_pid(Some(vec![0xff, b'1'])), None);
    assert_eq!(portal_pid(None), None);
    assert_eq!(environ_path(17), "/proc/17/environ");
}

#[test]
fn environments_are_compared_entry_by_entry() {
    assert!(environment_is_fresh(&b"A=1\0XDG_CURRENT_DESKTOP=tidewm\0B=2\0".to_vec()));
    assert!(!environment_is_fresh(&b"A=XDG_CURRENT_DESKTOP=tidewm\0".to_vec()));
    assert!(!environment_is_fresh(&b"XDG_CURRENT_DESKTOP=tidewm:x\0".to_vec()));
    assert!(!environment_is_fresh(&vec![]));
}

#[test]
fn the_session_is_named() {
    let identity = session_identity("1.2.3");
    assert!(identity.contains(&("XDG_CURRENT_DESKTOP".to_string(), "tidewm".to_string())));
    assert!(identity.contains(&("TIDEWM_VERSION".to_string(), "1.2.3".to_string())));
    assert_eq!(export_session_environment(&vec![]).len(), 4);
}

#[test]
fn build_tags_say_what_was_built() {
    assert_eq!(build_tag("1.0", &None, false, false, &None), "1.0 (release build)");
    assert_eq!(
        build_tag("1.0", &Some("abc".to_string()), true, true, &Some("2024-01-01".to_string())),
        "1.0 (commit abc-dirty, debug build, built 2024-01-01)"
    );
    assert_eq!(
        build_tag("1.0", &Some("abc".to_string()), false, false, &Some("today".to_string())),
        "1.0 (commit abc, release build, built today)"
    );
}

#[test]
fn commands_are_split_at_white_space() {
    assert_eq!(
        spawn_command("  foot  -e\tsh ").unwrap(),
        ("foot".to_string(), strings(&["-e", "sh"]))
    );
    assert_eq!(spawn_command(" \n"), Err(SpawnError::EmptyCommand));
}

#[test]
fn arguments_are_read_from_left_to_right() {
    let Invocation::Run { config, spawn } =
        parse_args(&strings(&["-c", "a", "--spawn", "foot", "--config", "b"]))
    else {
        panic!("the arguments ask for a run");
    };
    assert_eq!((config, spawn), (Some("b".to_string()), Some("foot".to_string())));
    assert!(matches!(parse_args(&strings(&["-v", "-x"])), Invocation::Version));
    assert!(matches!(parse_args(&strings(&["--help"])), Invocation::Help));
    let refused = |args: &[&str]| match parse_args(&strings(args)) {
        Invocation::Refused(message) => message,
        _ => panic!("the arguments are refused"),
    };
    assert_eq!(refused(&["-x"]), "unrecognized argument '-x' (see --help)");
    assert_eq!(refused(&["-c"]), "--config requires a path argument");
    assert_eq!(refused(&["-s"]), "--spawn requires a command argument");
    assert!(help_text("9.9").starts_with("TideWM 9.9 -- "));
    assert!(help_text("9.9").contains("\n    -v, --version "));
}

#[test]
fn numbers_are_written_and_read() {
    assert_eq!(to_decimal(0), "0");
    assert_eq!(to_decimal(u64::MAX), u64::MAX.to_string());
    assert_eq!(to_signed_decimal(i64::MIN), i64::MIN.to_string());
    assert_eq!(to_signed_decimal(-7), "-7");
    for text in ["0", "+5", "4294967295", "4294967296", "", "+", "-1", "1a", " 1"] {
        assert_eq!(parse_u32(text), text.parse::<u32>().ok(), "{text}");
    }
    for text in ["0", "+5", "-5", "-2147483648", "2147483648", "-", "--1", "1 "] {
        assert_eq!(parse_i32(text), text.parse::<i32>().ok(), "{text}");
    }
}

#[test]
fn texts_are_taken_apart() {
    assert_eq!(split_words("\u{a0}a b\u{3000}c "), strings(&["a", "b", "c"]));
    assert_eq!(trim(" \t x y \n"), "x y");
    assert_eq!(join(&strings(&["a", "b", "c"]), ", "), "a, b, c");
    assert_eq!(find_after_prefix("x\r\nkey:1\nkey:2", "key:"), Some("1".to_string()));
    assert_eq!(find_after_prefix("xkey:1", "key:"), None);
    assert!(text_le("a", "ab") && text_le("Z", "a") && !text_le("b", "ab"));
}

#[test]
fn the_end_of_the_x11_helper_takes_its_display_along() {
    let display = Some(":1".to_string());
    let mut satellite = Satellite { pid: Some(40), display: display.clone() };
    let other = satellite.child_exited(41, &display);
    assert!(!other.satellite && !other.unset_display);
    assert_eq!(satellite.pid, Some(40));

    let exit = satellite.child_exited(40, &display);
    assert!(exit.satellite && exit.unset_display);
    assert_eq!(satellite.pid, None);
    assert_eq!(satellite.display, None);

    let mut satellite = Satellite { pid: Some(40), display };
    let exit = satellite.child_exited(40, &Some(":2".to_string()));
    assert!(exit.satellite && !exit.unset_display);

    let mut satellite = Satellite { pid: Some(-1), display: None };
    assert!(!satellite.child_exited(u32::MAX, &None).satellite);
}

#[test]
fn windows_of_the_x11_helper_are_x11_windows() {
    let satellite = Satellite { pid: Some(40), display: None };
    assert!(satellite.is_xwayland_surface(Some(40)));
    assert!(!satellite.is_xwayland_surface(Some(41)));
    assert!(!satellite.is_xwayland_surface(None));
    assert!(!Satellite { pid: None, display: None }.is_xwayland_surface(None));
}
