//! The session a compositor starts: its identity, its environment, its helpers.

use vstd::prelude::*;
use vstd::seq_lib::to_multiset_insert;
use vstd::string::*;

use crate::text::{join, split_words, text_eq, text_le};

verus! {

/// What is known of a build: `commit <hash>[-dirty]`, its profile, and `built <date>`.
pub open spec fn build_tag_parts(
    commit: Option<Seq<char>>,
    dirty: bool,
    debug: bool,
    date: Option<Seq<char>>,
) -> Seq<Seq<char>> {
    let suffix = if dirty {
        "-dirty"@
    } else {
        ""@
    };
    let profile = if debug {
        "debug build"@
    } else {
        "release build"@
    };
    let first = match commit {
        Some(c) => seq!["commit "@ + c + suffix],
        None => seq![],
    };
    let last = match date {
        Some(d) => seq!["built "@ + d],
        None => seq![],
    };
    first + seq![profile] + last
}

/// The view of a string that may be missing.
pub open spec fn text_opt(s: Option<String>) -> Option<Seq<char>> {
    match s {
        Some(s) => Some(s@),
        None => None,
    }
}

/// How this build names itself: its version, and in parentheses what else is known of it.
pub fn build_tag(
    version: &str,
    commit: &Option<String>,
    dirty: bool,
    debug: bool,
    date: &Option<String>,
) -> (r: String)
    ensures
        r@ == version@ + " ("@ + crate::text::joined(
            build_tag_parts(text_opt(*commit), dirty, debug, text_opt(*date)),
            ", "@,
        ) + ")"@,
{
    let mut parts: Vec<String> = Vec::new();
    if let Some(c) = commit {
        let mut part: String = "commit ".to_owned();
        part.append(c.as_str());
        part.append(
            if dirty {
                "-dirty"
            } else {
                ""
            },
        );
        parts.push(part);
    }
    parts.push(
        if debug {
            "debug build".to_owned()
        } else {
            "release build".to_owned()
        },
    );
    if let Some(d) = date {
        let mut part: String = "built ".to_owned();
        part.append(d.as_str());
        parts.push(part);
    }
    assert(crate::text::texts(parts@) =~= build_tag_parts(
        text_opt(*commit),
        dirty,
        debug,
        text_opt(*date),
    ));
    let known: String = join(&parts, ", ");
    let mut tag: String = version.to_owned();
    tag.append(" (");
    tag.append(known.as_str());
    tag.append(")");
    tag
}

/// Why a command cannot be started.
#[derive(Clone, Copy, Debug, PartialEq, Eq, Structural)]
pub enum SpawnError {
    /// It has no words.
    EmptyCommand,
}

/// A command line, taken apart at its white space: the program, then what it is
/// given. No quoting, no expansion.
pub fn spawn_command(cmd: &str) -> (r: Result<(String, Vec<String>), SpawnError>)
    ensures
        match r {
            Ok((program, args)) => seq![program@] + crate::text::texts(args@)
                == crate::text::words(cmd@),
            Err(SpawnError::EmptyCommand) => crate::text::words(cmd@).len() == 0,
        },
{
    let mut parts: Vec<String> = split_words(cmd);
    let ghost all = crate::text::texts(parts@);
    if parts.len() == 0 {
        return Err(SpawnError::EmptyCommand);
    }
    let program: String = parts.remove(0);
    assert(seq![program@] + crate::text::texts(parts@) =~= all);
    Ok((program, parts))
}

/// The character occurs in the string.
pub open spec fn has_char(s: Seq<char>, c: char) -> bool {
    exists|i: int| 0 <= i < s.len() && s[i] == c
}

fn contains_char(s: &str, c: char) -> (r: bool)
    ensures
        r == has_char(s@, c),
{
    let n: usize = s.unicode_len();
    let mut i: usize = 0;
    while i < n
        invariant
            n == s@.len(),
            i <= n,
            forall|j: int| 0 <= j < i ==> s@[j] != c,
        decreases n - i,
    {
        if s.get_char(i) == c {
            assert(s@[i as int] == c);
            return true;
        }
        i += 1;
    }
    false
}

/// A process can be given such a variable.
pub open spec fn env_entry_ok(key: Seq<char>, value: Seq<char>) -> bool {
    key.len() > 0 && !has_char(key, '=') && !has_char(key, '\0') && !has_char(value, '\0')
}

/// Whether a variable can be put into the environment: it has a name, without `=`
/// in it, and neither holds a zero character.
pub fn validate_env_entry(key: &str, value: &str) -> (r: bool)
    ensures
        r == env_entry_ok(key@, value@),
{
    key.unicode_len() > 0 && !contains_char(key, '=') && !contains_char(key, '\0')
        && !contains_char(value, '\0')
}

/// The names of the variables that can be put into the environment.
pub open spec fn valid_keys(env: Seq<(String, String)>) -> Seq<Seq<char>>
    decreases env.len(),
{
    if env.len() == 0 {
        seq![]
    } else {
        let rest = valid_keys(env.drop_last());
        let (key, value) = env.last();
        if env_entry_ok(key@, value@) {
            rest.push(key@)
        } else {
            rest
        }
    }
}

/// Each string comes before the next, or equals it.
pub open spec fn sorted(list: Seq<Seq<char>>) -> bool {
    forall|i: int, j: int|
        0 <= i <= j < list.len() ==> crate::text::lex_le(#[trigger] list[i], #[trigger] list[j])
}

fn insert_sorted(list: &mut Vec<String>, item: String)
    requires
        sorted(crate::text::texts(old(list)@)),
    ensures
        sorted(crate::text::texts(final(list)@)),
        crate::text::texts(final(list)@).to_multiset() == crate::text::texts(
            old(list)@,
        ).to_multiset().insert(item@),
{
    let ghost before = crate::text::texts(list@);
    let mut at: usize = 0;
    while at < list.len() && text_le(list[at].as_str(), item.as_str())
        invariant
            at <= list@.len(),
            before == crate::text::texts(list@),
            forall|j: int| 0 <= j < at ==> crate::text::lex_le(#[trigger] before[j], item@),
        ensures
            at <= list@.len(),
            before == crate::text::texts(list@),
            forall|j: int| 0 <= j < at ==> crate::text::lex_le(#[trigger] before[j], item@),
            at < list@.len() ==> !crate::text::lex_le(before[at as int], item@),
        decreases list@.len() - at,
    {
        assert(before[at as int] == list@[at as int]@);
        at += 1;
    }
    let ghost key = item@;
    proof {
        if at < list@.len() {
            assert(before[at as int] == list@[at as int]@);
        }
    }
    list.insert(at, item);
    proof {
        let after = crate::text::texts(list@);
        assert(after =~= before.insert(at as int, key));
        to_multiset_insert(before, at as int, key);
        assert forall|i: int, j: int| 0 <= i <= j < after.len() implies crate::text::lex_le(
            #[trigger] after[i],
            #[trigger] after[j],
        ) by {
            let pi = if i > at {
                i - 1
            } else {
                i
            };
            let pj = if j > at {
                j - 1
            } else {
                j
            };
            if i == at && j == at {
                crate::text::lemma_lex_total(key, key);
            } else if i == at {
                assert(crate::text::lex_le(before[at as int], before[pj]));
                crate::text::lemma_lex_total(before[at as int], key);
                crate::text::lemma_lex_trans(key, before[at as int], before[pj]);
            } else if j == at {
                assert(crate::text::lex_le(before[pi], key));
            } else {
                assert(crate::text::lex_le(before[pi], before[pj]));
            }
        }
    }
}

/// The names of the variables that can be exported to the session, in order.
pub fn validated_session_environment_keys(env: &Vec<(String, String)>) -> (r: Vec<String>)
    ensures
        sorted(crate::text::texts(r@)),
        crate::text::texts(r@).to_multiset() == valid_keys(env@).to_multiset(),
{
    let mut keys: Vec<String> = Vec::new();
    let mut i: usize = 0;
    assert(crate::text::texts(keys@) =~= seq![]);
    assert(env@.take(0) =~= seq![]);
    while i < env.len()
        invariant
            i <= env@.len(),
            sorted(crate::text::texts(keys@)),
            crate::text::texts(keys@).to_multiset() == valid_keys(
                env@.take(i as int),
            ).to_multiset(),
        decreases env@.len() - i,
    {
        proof {
            let upto = env@.take(i + 1);
            assert(upto.drop_last() =~= env@.take(i as int));
            assert(upto.last() == env@[i as int]);
            let rest = valid_keys(env@.take(i as int));
            rest.to_multiset_ensures();
            assert(rest.push(env@[i as int].0@).to_multiset() =~= rest.to_multiset().insert(
                env@[i as int].0@,
            ));
        }
        if validate_env_entry(env[i].0.as_str(), env[i].1.as_str()) {
            insert_sorted(&mut keys, env[i].0.clone());
        }
        i += 1;
    }
    assert(env@.take(i as int) =~= env@);
    keys
}

/// A helper program and what it is given.
pub struct HelperCall {
    pub program: String,
    pub args: Vec<String>,
}

impl View for HelperCall {
    type V = (Seq<char>, Seq<Seq<char>>);

    open spec fn view(&self) -> (Seq<char>, Seq<Seq<char>>) {
        (self.program@, crate::text::texts(self.args@))
    }
}

/// What a list of calls says.
pub open spec fn call_views(calls: Seq<HelperCall>) -> Seq<(Seq<char>, Seq<Seq<char>>)> {
    calls.map_values(|c: HelperCall| c@)
}

/// The variables by which other compositors are reached.
pub open spec fn foreign_env() -> Seq<Seq<char>> {
    seq![
        "HYPRLAND_INSTANCE_SIGNATURE"@,
        "SWAYSOCK"@,
        "I3SOCK"@,
        "NIRI_SOCKET"@,
        "WAYFIRE_SOCKET"@,
    ]
}

/// The variables that tell what session this is.
pub open spec fn session_vars() -> Seq<Seq<char>> {
    seq![
        "WAYLAND_DISPLAY"@,
        "XDG_CURRENT_DESKTOP"@,
        "XDG_SESSION_DESKTOP"@,
        "DESKTOP_SESSION"@,
        "XDG_SESSION_TYPE"@,
        "TIDEWM_VERSION"@,
    ]
}

/// The helper calls that export a session's environment, in order: publish the
/// session's variables, then clear those of other compositors.
pub open spec fn export_call_views(keys: Seq<Seq<char>>) -> Seq<(Seq<char>, Seq<Seq<char>>)> {
    seq![
        ("dbus-update-activation-environment"@, seq!["--systemd"@] + session_vars() + keys),
        ("systemctl"@, seq!["--user"@, "import-environment"@] + session_vars() + keys),
        (
            "dbus-update-activation-environment"@,
            foreign_env().map_values(|k: Seq<char>| k + "="@),
        ),
        ("systemctl"@, seq!["--user"@, "unset-environment"@] + foreign_env()),
    ]
}

/// The variables by which other compositors are reached.
pub fn foreign_compositor_env() -> (r: Vec<String>)
    ensures
        crate::text::texts(r@) == foreign_env(),
{
    let mut out: Vec<String> = Vec::new();
    out.push("HYPRLAND_INSTANCE_SIGNATURE".to_owned());
    out.push("SWAYSOCK".to_owned());
    out.push("I3SOCK".to_owned());
    out.push("NIRI_SOCKET".to_owned());
    out.push("WAYFIRE_SOCKET".to_owned());
    assert(crate::text::texts(out@) =~= foreign_env());
    out
}

/// What a session's process environment is set to, by name and value.
pub open spec fn identity_vars(version: Seq<char>) -> Seq<(Seq<char>, Seq<char>)> {
    seq![
        ("XDG_CURRENT_DESKTOP"@, "tidewm"@),
        ("XDG_SESSION_DESKTOP"@, "tidewm"@),
        ("DESKTOP_SESSION"@, "tidewm"@),
        ("XDG_SESSION_TYPE"@, "wayland"@),
        ("TIDEWM_VERSION"@, version),
    ]
}

/// The variables that give the process and all it starts its identity.
pub fn session_identity(version: &str) -> (r: Vec<(String, String)>)
    ensures
        r@.map_values(|e: (String, String)| (e.0@, e.1@)) == identity_vars(version@),
{
    let mut out: Vec<(String, String)> = Vec::new();
    out.push(("XDG_CURRENT_DESKTOP".to_owned(), "tidewm".to_owned()));
    out.push(("XDG_SESSION_DESKTOP".to_owned(), "tidewm".to_owned()));
    out.push(("DESKTOP_SESSION".to_owned(), "tidewm".to_owned()));
    out.push(("XDG_SESSION_TYPE".to_owned(), "wayland".to_owned()));
    out.push(("TIDEWM_VERSION".to_owned(), version.to_owned()));
    assert(out@.map_values(|e: (String, String)| (e.0@, e.1@)) =~= identity_vars(version@));
    out
}

fn push_all(out: &mut Vec<String>, items: &Vec<String>)
    ensures
        crate::text::texts(final(out)@) == crate::text::texts(old(out)@) + crate::text::texts(
            items@,
        ),
{
    let ghost before = crate::text::texts(out@);
    let ghost all = crate::text::texts(items@);
    let mut i: usize = 0;
    assert(before + all.take(0) =~= before);
    while i < items.len()
        invariant
            i <= items@.len(),
            all == crate::text::texts(items@),
            crate::text::texts(out@) == before + all.take(i as int),
        decreases items@.len() - i,
    {
        out.push(items[i].clone());
        i += 1;
        assert(crate::text::texts(out@) =~= (before + all.take(i - 1)).push(all[i - 1]));
        assert(before + all.take(i as int) =~= (before + all.take(i - 1)).push(all[i - 1]));
    }
    assert(all.take(i as int) =~= all);
}

fn push_session_vars(out: &mut Vec<String>)
    ensures
        crate::text::texts(final(out)@) == crate::text::texts(old(out)@) + session_vars(),
{
    let ghost before = crate::text::texts(out@);
    out.push("WAYLAND_DISPLAY".to_owned());
    out.push("XDG_CURRENT_DESKTOP".to_owned());
    out.push("XDG_SESSION_DESKTOP".to_owned());
    out.push("DESKTOP_SESSION".to_owned());
    out.push("XDG_SESSION_TYPE".to_owned());
    out.push("TIDEWM_VERSION".to_owned());
    assert(crate::text::texts(out@) =~= before + session_vars());
}

/// The helper calls that export a session's environment, in order.
pub fn export_session_environment(env_keys: &Vec<String>) -> (r: Vec<HelperCall>)
    ensures
        call_views(r@) == export_call_views(crate::text::texts(env_keys@)),
{
    let ghost keys = crate::text::texts(env_keys@);
    let mut calls: Vec<HelperCall> = Vec::new();

    let mut args: Vec<String> = Vec::new();
    args.push("--systemd".to_owned());
    assert(crate::text::texts(args@) =~= seq!["--systemd"@]);
    push_session_vars(&mut args);
    push_all(&mut args, env_keys);
    calls.push(HelperCall { program: "dbus-update-activation-environment".to_owned(), args });

    let mut args: Vec<String> = Vec::new();
    args.push("--user".to_owned());
    args.push("import-environment".to_owned());
    assert(crate::text::texts(args@) =~= seq!["--user"@, "import-environment"@]);
    push_session_vars(&mut args);
    push_all(&mut args, env_keys);
    calls.push(HelperCall { program: "systemctl".to_owned(), args });

    let foreign: Vec<String> = foreign_compositor_env();
    let mut args: Vec<String> = Vec::new();
    let mut i: usize = 0;
    let ghost cleared = foreign_env().map_values(|k: Seq<char>| k + "="@);
    assert(cleared.take(0) =~= seq![]);
    assert(crate::text::texts(args@) =~= seq![]);
    while i < foreign.len()
        invariant
            i <= foreign@.len(),
            crate::text::texts(foreign@) == foreign_env(),
            cleared == foreign_env().map_values(|k: Seq<char>| k + "="@),
            crate::text::texts(args@) == cleared.take(i as int),
        decreases foreign@.len() - i,
    {
        let mut entry: String = foreign[i].clone();
        entry.append("=");
        args.push(entry);
        proof {
            assert(crate::text::texts(foreign@)[i as int] == foreign@[i as int]@);
            assert(crate::text::texts(args@) =~= cleared.take(i as int).push(cleared[i as int]));
            assert(cleared.take(i + 1) =~= cleared.take(i as int).push(cleared[i as int]));
        }
        i += 1;
    }
    assert(cleared.take(i as int) =~= cleared) by {
        assert(crate::text::texts(foreign@).len() == foreign@.len());
    }
    calls.push(HelperCall { program: "dbus-update-activation-environment".to_owned(), args });

    let mut args: Vec<String> = Vec::new();
    args.push("--user".to_owned());
    args.push("unset-environment".to_owned());
    assert(crate::text::texts(args@) =~= seq!["--user"@, "unset-environment"@]);
    push_all(&mut args, &foreign);
    calls.push(HelperCall { program: "systemctl".to_owned(), args });

    assert(call_views(calls@) =~= export_call_views(keys));
    calls
}

/// The call that asks for the process of the portal frontend.
pub open spec fn portal_query_view() -> (Seq<char>, Seq<Seq<char>>) {
    (
        "systemctl"@,
        seq![
            "--user"@,
            "show"@,
            "-p"@,
            "MainPID"@,
            "--value"@,
            "xdg-desktop-portal.service"@,
        ],
    )
}

/// The call that restarts the portal frontend.
pub open spec fn portal_restart_view() -> (Seq<char>, Seq<Seq<char>>) {
    (
        "systemctl"@,
        seq!["--user"@, "--no-block"@, "restart"@, "xdg-desktop-portal.service"@],
    )
}

pub(crate) fn portal_query() -> (r: HelperCall)
    ensures
        r@ == portal_query_view(),
{
    let mut args: Vec<String> = Vec::new();
    args.push("--user".to_owned());
    args.push("show".to_owned());
    args.push("-p".to_owned());
    args.push("MainPID".to_owned());
    args.push("--value".to_owned());
    args.push("xdg-desktop-portal.service".to_owned());
    let call = HelperCall { program: "systemctl".to_owned(), args };
    assert(call@.1 =~= portal_query_view().1);
    call
}

pub(crate) fn portal_restart() -> (r: HelperCall)
    ensures
        r@ == portal_restart_view(),
{
    let mut args: Vec<String> = Vec::new();
    args.push("--user".to_owned());
    args.push("--no-block".to_owned());
    args.push("restart".to_owned());
    args.push("xdg-desktop-portal.service".to_owned());
    let call = HelperCall { program: "systemctl".to_owned(), args };
    assert(call@.1 =~= portal_restart_view().1);
    call
}

/// The helper process that serves X11 clients, and the display it serves.
pub struct Satellite {
    pub pid: Option<i32>,
    pub display: Option<String>,
}

/// What the end of a child process means.
#[derive(Clone, Copy, Debug, PartialEq, Eq, Structural)]
pub struct ChildExit {
    /// It was the helper: X11 clients are served no more.
    pub satellite: bool,
    /// The display is taken out of the environment.
    pub unset_display: bool,
}

impl Satellite {
    /// Whether a window of the client `pid` is an X11 one: whether the helper is that
    /// client.
    pub fn is_xwayland_surface(&self, pid: Option<i32>) -> (r: bool)
        ensures
            r == (self.pid is Some && pid == self.pid),
    {
        match (self.pid, pid) {
            (Some(helper), Some(pid)) => helper == pid,
            _ => false,
        }
    }

    /// A child process ended, while the environment named this display. Where it was the
    /// helper, it is forgotten, and the display it served is taken out of the environment,
    /// unless that names another one by now.
    pub fn child_exited(&mut self, pid: u32, environment: &Option<String>) -> (r: ChildExit)
        ensures
            r.satellite == (old(self).pid is Some && old(self).pid->0 == pid),
            r.unset_display == (r.satellite && old(self).display is Some && text_opt(*environment)
                == text_opt(old(self).display)),
            r.satellite ==> final(self).pid is None && final(self).display is None,
            !r.satellite ==> *final(self) == *old(self),
    {
        let satellite: bool = match self.pid {
            Some(own) => own >= 0 && own as u32 == pid,
            None => false,
        };
        if !satellite {
            return ChildExit { satellite: false, unset_display: false };
        }
        let unset_display: bool = match (&self.display, environment) {
            (Some(display), Some(named)) => text_eq(display.as_str(), named.as_str()),
            _ => false,
        };
        self.pid = None;
        self.display = None;
        ChildExit { satellite: true, unset_display }
    }
}

} // verus!
