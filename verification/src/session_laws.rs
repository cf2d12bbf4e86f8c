//! What holds of how the session is started and set up.

use vstd::prelude::*;
use vstd::string::*;

use crate::ancestors::{ancestors_of, parent_of};
use crate::capture::wanted;
use crate::cli::{help_lines, invoked, InvocationView};
use crate::compositor::root_of;
use crate::geometry::Rect;
use crate::ripple::{code_of, duration_of, next_commit, shapes_of, square_around, RippleConfig, RippleShape};
use crate::session::{
    build_tag_parts, env_entry_ok, export_call_views, foreign_env, identity_vars, portal_query_view,
    portal_restart_view, session_vars, sorted, valid_keys,
};
use crate::session_tasks::{
    bytes_opt, desktop_entry, entry_at, has_entry, pid_in, stage_after, SessionReply, Stage,
};
use crate::text::{parsed_i32, parsed_u32, trimmed};
use crate::text_laws::law_the_first_line_with_the_prefix_counts;
use crate::touchpad::{
    click_named, profile_named, scroll_named, settings_of, AccelProfile, ClickMethod, DragLockState,
    ScrollMethod, TouchpadConfig, TouchpadSetting,
};

verus! {

/// Without arguments the configuration and the command are those named before; of two of a
/// kind the last counts.
pub proof fn law_arguments_name_what_to_use(
    rest: Seq<Seq<char>>,
    value: Seq<char>,
    config: Option<Seq<char>>,
    spawn: Option<Seq<char>>,
)
    ensures
        invoked(Seq::empty(), config, spawn) == (InvocationView::Run { config, spawn }),
        invoked(seq!["-c"@, value] + rest, config, spawn) == invoked(rest, Some(value), spawn),
        invoked(seq!["--config"@, value] + rest, config, spawn) == invoked(rest, Some(value), spawn),
        invoked(seq!["-s"@, value] + rest, config, spawn) == invoked(rest, config, Some(value)),
        invoked(seq!["--spawn"@, value] + rest, config, spawn) == invoked(rest, config, Some(value)),
        invoked(seq!["-v"@] + rest, config, spawn) == InvocationView::Version,
        invoked(seq!["--version"@] + rest, config, spawn) == InvocationView::Version,
        invoked(seq!["-h"@] + rest, config, spawn) == InvocationView::Help,
        invoked(seq!["--help"@] + rest, config, spawn) == InvocationView::Help,
        invoked(seq!["-c"@], config, spawn) == InvocationView::Refused(
            "--config requires a path argument"@,
        ),
        invoked(seq!["--config"@], config, spawn) == InvocationView::Refused(
            "--config requires a path argument"@,
        ),
        invoked(seq!["-s"@], config, spawn) == InvocationView::Refused(
            "--spawn requires a command argument"@,
        ),
        invoked(seq!["--spawn"@], config, spawn) == InvocationView::Refused(
            "--spawn requires a command argument"@,
        ),
{
    lemma_flags_differ();
    assert((seq!["-c"@, value] + rest).skip(2) =~= rest);
    assert((seq!["--config"@, value] + rest).skip(2) =~= rest);
    assert((seq!["-s"@, value] + rest).skip(2) =~= rest);
    assert((seq!["--spawn"@, value] + rest).skip(2) =~= rest);
}

/// Any other argument is refused by its name.
pub proof fn law_other_arguments_are_refused(
    arg: Seq<char>,
    rest: Seq<Seq<char>>,
    config: Option<Seq<char>>,
    spawn: Option<Seq<char>>,
)
    requires
        arg != "-c"@ && arg != "--config"@ && arg != "-s"@ && arg != "--spawn"@ && arg != "-v"@
            && arg != "--version"@ && arg != "-h"@ && arg != "--help"@,
    ensures
        invoked(seq![arg] + rest, config, spawn) == InvocationView::Refused(
            "unrecognized argument '"@ + arg + "' (see --help)"@,
        ),
{
}

proof fn lemma_flags_differ()
    ensures
        "-c"@ != "-v"@,
        "-c"@ != "-h"@,
        "-c"@ != "-s"@,
        "-s"@ != "-v"@,
        "-s"@ != "-h"@,
        "-v"@ != "-h"@,
        "-c"@.len() == 2,
        "-s"@.len() == 2,
        "-v"@.len() == 2,
        "-h"@.len() == 2,
        "--config"@.len() == 8,
        "--spawn"@.len() == 7,
        "--version"@.len() == 9,
        "--help"@.len() == 6,
{
    reveal_strlit("-c");
    reveal_strlit("-s");
    reveal_strlit("-v");
    reveal_strlit("-h");
    reveal_strlit("--config");
    reveal_strlit("--spawn");
    reveal_strlit("--version");
    reveal_strlit("--help");
    assert("-c"@[1] == 'c' && "-s"@[1] == 's' && "-v"@[1] == 'v' && "-h"@[1] == 'h');
}

/// The help names the program with its version first, and then every argument.
pub proof fn law_the_help_names_every_argument(version: Seq<char>)
    ensures
        help_lines(version).len() == 10,
        help_lines(version)[0] == "TideWM "@ + version + " -- a water-styled Wayland compositor"@,
        help_lines(version)[3] == "    tidewm [OPTIONS]"@,
        help_lines(version)[6]
            == "    -c, --config <path>    Use this config file instead of the default"@,
        help_lines(version)[7]
            == "    -s, --spawn <command>  Spawn one specific command at launch (no shell parsing)"@,
        help_lines(version)[8] == "    -v, --version          Print version and exit"@,
        help_lines(version)[9] == "    -h, --help             Print this help and exit"@,
        help_lines(version)[1] == ""@ && help_lines(version)[4] == ""@,
        help_lines(version)[2] == "USAGE:"@ && help_lines(version)[5] == "OPTIONS:"@,
{
}

/// A build is told by its commit where that is known, by how it was built, and by its date
/// where that is known.
pub proof fn law_builds_are_told_by_commit_and_date(
    commit: Option<Seq<char>>,
    dirty: bool,
    debug: bool,
    date: Option<Seq<char>>,
)
    ensures
        ({
            let parts = build_tag_parts(commit, dirty, debug, date);
            let n = (if commit is Some {
                1int
            } else {
                0
            });
            &&& parts.len() == n + 1 + (if date is Some {
                1int
            } else {
                0
            })
            &&& commit is Some && dirty ==> parts[0] == "commit "@ + commit->0 + "-dirty"@
            &&& commit is Some && !dirty ==> parts[0] == "commit "@ + commit->0
            &&& debug ==> parts[n] == "debug build"@
            &&& !debug ==> parts[n] == "release build"@
            &&& date is Some ==> parts.last() == "built "@ + date->0
        }),
{
    reveal_strlit("");
    if commit is Some && !dirty {
        assert("commit "@ + commit->0 + ""@ =~= "commit "@ + commit->0);
    }
}

/// A variable may be set where its name is there and holds no equals sign, and neither the
/// name nor the value holds the character that ends them.
pub proof fn law_variables_have_proper_names(key: Seq<char>, value: Seq<char>, i: int)
    ensures
        env_entry_ok(key, value) ==> key.len() > 0,
        env_entry_ok(key, value) && 0 <= i < key.len() ==> key[i] != '=' && key[i] != '\0',
        env_entry_ok(key, value) && 0 <= i < value.len() ==> value[i] != '\0',
        key.len() > 0 && (forall|j: int|
            0 <= j < key.len() ==> #[trigger] key[j] != '=' && key[j] != '\0') && (forall|j: int|
            0 <= j < value.len() ==> #[trigger] value[j] != '\0') ==> env_entry_ok(key, value),
{
}

/// The names that may be set are all kept, and no others; they come out in order.
pub proof fn law_proper_names_are_kept(
    env: Seq<(String, String)>,
    key: String,
    value: String,
    list: Seq<Seq<char>>,
    i: int,
)
    ensures
        valid_keys(Seq::empty()).len() == 0,
        env_entry_ok(key@, value@) ==> valid_keys(env.push((key, value))) == valid_keys(env).push(
            key@,
        ),
        !env_entry_ok(key@, value@) ==> valid_keys(env.push((key, value))) == valid_keys(env),
        sorted(list) && 0 <= i && i + 1 < list.len() ==> crate::text::lex_le(list[i], list[i + 1]),
{
    assert(env.push((key, value)).drop_last() =~= env);
}

/// The variables of the session and those of the user go to the message bus and to the
/// service manager; those of other compositors are emptied there.
pub proof fn law_the_session_is_made_known(keys: Seq<Seq<char>>, i: int)
    ensures
        ({
            let calls = export_call_views(keys);
            let own = session_vars();
            let foreign = foreign_env();
            &&& calls.len() == 4
            &&& calls[0].0 == "dbus-update-activation-environment"@ && calls[2].0
                == "dbus-update-activation-environment"@
            &&& calls[1].0 == "systemctl"@ && calls[3].0 == "systemctl"@
            &&& calls[0].1 == seq!["--systemd"@] + own + keys
            &&& calls[1].1 == seq!["--user"@, "import-environment"@] + own + keys
            &&& calls[2].1.len() == foreign.len()
            &&& 0 <= i < foreign.len() ==> calls[2].1[i] == foreign[i] + "="@
            &&& calls[3].1 == seq!["--user"@, "unset-environment"@] + foreign
        }),
{
}

/// The session is known by its display, its desktop, its kind and the version.
pub proof fn law_the_session_has_its_variables(version: Seq<char>)
    ensures
        session_vars().len() == 6,
        session_vars()[0] == "WAYLAND_DISPLAY"@,
        session_vars()[1] == "XDG_CURRENT_DESKTOP"@,
        session_vars()[2] == "XDG_SESSION_DESKTOP"@,
        session_vars()[3] == "DESKTOP_SESSION"@,
        session_vars()[4] == "XDG_SESSION_TYPE"@,
        session_vars()[5] == "TIDEWM_VERSION"@,
        identity_vars(version).len() == 5,
        identity_vars(version)[0] == ("XDG_CURRENT_DESKTOP"@, "tidewm"@),
        identity_vars(version)[1] == ("XDG_SESSION_DESKTOP"@, "tidewm"@),
        identity_vars(version)[2] == ("DESKTOP_SESSION"@, "tidewm"@),
        identity_vars(version)[3] == ("XDG_SESSION_TYPE"@, "wayland"@),
        identity_vars(version)[4] == ("TIDEWM_VERSION"@, version),
        foreign_env() == seq![
            "HYPRLAND_INSTANCE_SIGNATURE"@,
            "SWAYSOCK"@,
            "I3SOCK"@,
            "NIRI_SOCKET"@,
            "WAYFIRE_SOCKET"@,
        ],
{
}

/// The portal is asked for by its service, and restarted without waiting for it.
pub proof fn law_the_portal_is_a_service()
    ensures
        portal_query_view().0 == "systemctl"@,
        portal_query_view().1 == seq![
            "--user"@,
            "show"@,
            "-p"@,
            "MainPID"@,
            "--value"@,
            "xdg-desktop-portal.service"@,
        ],
        portal_restart_view().0 == "systemctl"@,
        portal_restart_view().1 == seq![
            "--user"@,
            "--no-block"@,
            "restart"@,
            "xdg-desktop-portal.service"@,
        ],
{
}

/// The number of a process is what was printed, without spaces around it; none is zero.
pub proof fn law_process_numbers_are_printed(bytes: Seq<u8>, n: u32)
    ensures
        pid_in(None) is None,
        !vstd::utf8::valid_utf8(bytes) ==> pid_in(Some(bytes)) is None,
        vstd::utf8::valid_utf8(bytes) && n != 0 && parsed_u32(
            trimmed(vstd::utf8::decode_utf8(bytes)),
        ) == Some(n) ==> pid_in(Some(bytes)) == Some(n),
        pid_in(Some(bytes)) is Some ==> (pid_in(Some(bytes))->0) != 0,
        vstd::utf8::valid_utf8(bytes) && parsed_u32(trimmed(vstd::utf8::decode_utf8(bytes))) is None
            ==> pid_in(Some(bytes)) is None,
{
}

/// An environment has an entry where it stands alone between the bytes that end entries,
/// or at either end.
pub proof fn law_entries_stand_alone(before: Seq<u8>, entry: Seq<u8>, after: Seq<u8>)
    ensures
        has_entry(before + seq![0u8] + entry + seq![0u8] + after, entry),
        has_entry(entry + seq![0u8] + after, entry),
        has_entry(before + seq![0u8] + entry, entry),
        has_entry(entry, entry),
{
    let n = before.len() as int;
    let m = entry.len() as int;
    let a = before + seq![0u8] + entry + seq![0u8] + after;
    assert(a.subrange(n + 1, n + 1 + m) =~= entry);
    assert(a[n] == 0 && a[n + 1 + m] == 0);
    assert(entry_at(a, entry, n + 1));
    let b = entry + seq![0u8] + after;
    assert(b.subrange(0, m) =~= entry);
    assert(b[m] == 0);
    assert(entry_at(b, entry, 0));
    let c = before + seq![0u8] + entry;
    assert(c.subrange(n + 1, n + 1 + m) =~= entry);
    assert(c[n] == 0);
    assert(entry_at(c, entry, n + 1));
    assert(entry.subrange(0, m) =~= entry);
    assert(entry_at(entry, entry, 0));
}

/// Where an entry stands, its bytes stand, and what is around it ends entries.
pub proof fn law_found_entries_are_whole(environ: Seq<u8>, entry: Seq<u8>, i: int, k: int)
    requires
        entry_at(environ, entry, i),
    ensures
        0 <= i && i + entry.len() <= environ.len(),
        0 <= k < entry.len() ==> environ[i + k] == entry[k],
        i > 0 ==> environ[i - 1] == 0,
        i + entry.len() < environ.len() ==> environ[(i + entry.len()) as int] == 0,
        desktop_entry() == "XDG_CURRENT_DESKTOP=tidewm".spec_bytes(),
{
    if 0 <= k < entry.len() {
        assert(environ.subrange(i, (i + entry.len()) as int)[k] == environ[i + k]);
    }
}

/// The session is set up step by step: every call in turn, then the portal is asked for; it
/// is restarted only where it runs with another desktop's environment.
pub proof fn law_the_portal_is_restarted_when_stale(
    i: usize,
    calls: int,
    reply: SessionReply,
    out: Option<Vec<u8>>,
    pid: u32,
    environ: Vec<u8>,
)
    requires
        i < calls <= usize::MAX,
    ensures
        i + 1 < calls ==> stage_after(Stage::Export(i), calls, reply) == Stage::Export(
            (i + 1) as usize,
        ),
        i + 1 == calls ==> stage_after(Stage::Export(i), calls, reply) == Stage::Query,
        pid_in(bytes_opt(out)) is Some ==> stage_after(
            Stage::Query,
            calls,
            SessionReply::Printed(out),
        ) == Stage::Read(pid_in(bytes_opt(out))->0),
        pid_in(bytes_opt(out)) is None ==> stage_after(
            Stage::Query,
            calls,
            SessionReply::Printed(out),
        ) == Stage::Finished,
        !(reply is Printed) ==> stage_after(Stage::Query, calls, reply) == Stage::Finished,
        has_entry(environ@, desktop_entry()) ==> stage_after(
            Stage::Read(pid),
            calls,
            SessionReply::Contents(Some(environ)),
        ) == Stage::Finished,
        !has_entry(environ@, desktop_entry()) ==> stage_after(
            Stage::Read(pid),
            calls,
            SessionReply::Contents(Some(environ)),
        ) == Stage::Restart,
        stage_after(Stage::Read(pid), calls, SessionReply::Contents(None)) == Stage::Finished,
        stage_after(Stage::Restart, calls, reply) == Stage::Finished,
        stage_after(Stage::Finished, calls, reply) == Stage::Finished,
        bytes_opt(Some(environ)) == Some(environ@),
{
}

/// The parent of a process is the number behind the word for it, on the first line that
/// starts with the word.
pub proof fn law_the_parent_stands_in_its_line(value: Seq<char>, line: Seq<char>, rest: Seq<char>)
    requires
        forall|i: int| 0 <= i < value.len() ==> #[trigger] value[i] != '\n',
        value.len() > 0,
        value.last() != '\r',
        forall|i: int| 0 <= i < line.len() ==> #[trigger] line[i] != '\n',
        line.len() > 0,
        line.last() != '\r',
    ensures
        parent_of("PPid:"@ + value + seq!['\n'] + rest) == parsed_i32(trimmed(value)),
        !("PPid:"@).is_prefix_of(line) ==> parent_of(line + seq!['\n'] + rest) == parent_of(rest),
        parent_of(Seq::empty()) is None,
{
    reveal_strlit("PPid:");
    let whole = "PPid:"@ + value;
    assert("PPid:"@.is_prefix_of(whole));
    assert forall|i: int| 0 <= i < whole.len() implies #[trigger] whole[i] != '\n' by {
        if i >= 5 {
            assert(whole[i] == value[i - 5]);
        }
    }
    assert(whole.skip(5) =~= value);
    assert(whole.last() == value.last());
    law_the_first_line_with_the_prefix_counts(whole, rest, "PPid:"@);
    law_the_first_line_with_the_prefix_counts(line, rest, "PPid:"@);
    assert("PPid:"@ + value + seq!['\n'] + rest =~= whole + seq!['\n'] + rest);
}

/// The ancestors of a process are its parent and the ancestors of that, up to the limit; the
/// first process of all, and one of which nothing is known, end them.
pub proof fn law_ancestors_follow_each_other(
    status: Option<Seq<char>>,
    rest: Seq<Option<Seq<char>>>,
    limit: nat,
    i: int,
)
    ensures
        ({
            let all = ancestors_of(seq![status] + rest, limit + 1);
            let parent = parent_of(status->0);
            &&& status is Some && parent is Some && parent->0 > 1 ==> all == seq![parent->0]
                + ancestors_of(rest, limit)
            &&& status is None ==> all.len() == 0
            &&& status is Some && (parent is None || parent->0 <= 1) ==> all.len() == 0
            &&& ancestors_of(rest, 0).len() == 0
            &&& ancestors_of(Seq::empty(), limit).len() == 0
        }),
{
    assert((seq![status] + rest).skip(1) =~= rest);
}

/// There are never more ancestors than the limit, and the first process of all is none.
pub proof fn law_ancestors_have_a_limit(statuses: Seq<Option<Seq<char>>>, limit: nat)
    ensures
        ancestors_of(statuses, limit).len() <= limit,
        ancestors_of(statuses, limit).len() <= statuses.len(),
        forall|i: int|
            0 <= i < ancestors_of(statuses, limit).len() ==> #[trigger] ancestors_of(
                statuses,
                limit,
            )[i] > 1,
    decreases limit,
{
    if limit > 0 && statuses.len() > 0 && statuses[0] is Some {
        let parent = parent_of(statuses[0]->0);
        if parent is Some && parent->0 > 1 {
            let rest = ancestors_of(statuses.skip(1), (limit - 1) as nat);
            law_ancestors_have_a_limit(statuses.skip(1), (limit - 1) as nat);
            let all = ancestors_of(statuses, limit);
            assert forall|i: int| 0 <= i < all.len() implies #[trigger] all[i] > 1 by {
                if i > 0 {
                    assert(all[i] == rest[i - 1]);
                }
            }
        }
    }
}

/// The root of a surface is its farthest ancestor, or the surface itself.
pub proof fn law_the_root_is_the_farthest_ancestor(surface: u64, ancestors: Seq<u64>, a: u64)
    ensures
        root_of(surface, Seq::empty()) == surface,
        root_of(surface, ancestors.push(a)) == a,
{
}

/// A capture session goes on as long as its client is there.
pub proof fn law_captures_go_on_while_wanted(alive: Seq<u64>, s: u64)
    ensures
        wanted(alive)(s) <==> alive.contains(s),
{
}

/// Each shape has its code; a ripple without shapes is a ring, and one without a duration
/// lasts six hundred and fifty milliseconds.
pub proof fn law_ripples_have_defaults(cfg: RippleConfig, shape: RippleShape)
    ensures
        shape is Ring ==> code_of(shape) == 0,
        shape is Square ==> code_of(shape) == 1,
        shape is Droplet ==> code_of(shape) == 2,
        shape is Cross ==> code_of(shape) == 3,
        cfg.duration_ms is Some ==> duration_of(cfg) == cfg.duration_ms->0,
        cfg.duration_ms is None ==> duration_of(cfg) == 650,
        cfg.shapes@.len() == 0 ==> shapes_of(cfg) == seq![RippleShape::Ring],
        cfg.shapes@.len() > 0 ==> shapes_of(cfg) == cfg.shapes@,
{
}

/// A ripple is drawn in the square around its centre, anew for each frame.
pub proof fn law_ripples_are_drawn_around_their_centre(
    center: (i32, i32),
    radius: int,
    commit: usize,
)
    requires
        crate::ripple::radius_fits(center, radius),
    ensures
        ({
            let r: Rect = square_around(center, radius);
            &&& center.0 - r.x == radius && r.x + r.w - center.0 == radius
            &&& center.1 - r.y == radius && r.y + r.h - center.1 == radius
        }),
        next_commit(commit) != commit,
        commit < usize::MAX ==> next_commit(commit) == commit + 1,
        next_commit(usize::MAX) == 0,
{
}

/// Names in the configuration mean what they say, and any other name means nothing.
pub proof fn law_touchpad_names_mean_what_they_say(name: Seq<char>)
    ensures
        profile_named(name) == Some(AccelProfile::Flat) <==> name == "flat"@,
        profile_named(name) == Some(AccelProfile::Adaptive) <==> name == "adaptive"@,
        click_named(name) == Some(ClickMethod::ButtonAreas) <==> name == "button-areas"@,
        click_named(name) == Some(ClickMethod::Clickfinger) <==> name == "clickfinger"@,
        scroll_named(name) == Some(ScrollMethod::NoScroll) <==> name == "none"@,
        scroll_named(name) == Some(ScrollMethod::TwoFinger) <==> name == "two-finger"@,
        scroll_named(name) == Some(ScrollMethod::Edge) <==> name == "edge"@,
        scroll_named(name) == Some(ScrollMethod::OnButtonDown) <==> name == "on-button-down"@,
{
    reveal_strlit("flat");
    reveal_strlit("adaptive");
    reveal_strlit("button-areas");
    reveal_strlit("clickfinger");
    reveal_strlit("none");
    reveal_strlit("two-finger");
    reveal_strlit("edge");
    reveal_strlit("on-button-down");
    assert("flat"@.len() == 4 && "adaptive"@.len() == 8 && "button-areas"@.len() == 12
        && "clickfinger"@.len() == 11 && "none"@.len() == 4 && "two-finger"@.len() == 10
        && "edge"@.len() == 4 && "on-button-down"@.len() == 14);
    assert("none"@[0] == 'n' && "edge"@[0] == 'e');
}

proof fn lemma_in_sum(a: Seq<TouchpadSetting>, b: Seq<TouchpadSetting>, x: TouchpadSetting)
    ensures
        (a + b).contains(x) <==> a.contains(x) || b.contains(x),
{
    if a.contains(x) {
        let i = choose|i: int| 0 <= i < a.len() && a[i] == x;
        assert((a + b)[i] == x);
    }
    if b.contains(x) {
        let i = choose|i: int| 0 <= i < b.len() && b[i] == x;
        assert((a + b)[a.len() + i] == x);
    }
    if (a + b).contains(x) {
        let i = choose|i: int| 0 <= i < (a + b).len() && (a + b)[i] == x;
        if i < a.len() {
            assert(a[i] == x);
        } else {
            assert(b[i - a.len()] == x);
        }
    }
}

proof fn lemma_listed(setting: Option<TouchpadSetting>, x: TouchpadSetting)
    ensures
        crate::touchpad::listed(setting).contains(x) <==> setting == Some(x),
{
    reveal(crate::touchpad::listed);
    let list = crate::touchpad::listed(setting);
    if let Some(s) = setting {
        assert(list[0] == s);
    } else {
        assert(list.len() == 0);
    }
}

#[verifier::opaque]
spec fn in_turn(
    o1: Option<TouchpadSetting>,
    o2: Option<TouchpadSetting>,
    o3: Option<TouchpadSetting>,
    o4: Option<TouchpadSetting>,
    o5: Option<TouchpadSetting>,
    o6: Option<TouchpadSetting>,
    o7: Option<TouchpadSetting>,
    o8: Option<TouchpadSetting>,
    o9: Option<TouchpadSetting>,
    o10: Option<TouchpadSetting>,
    o11: Option<TouchpadSetting>,
) -> Seq<TouchpadSetting> {
    crate::touchpad::listed(o1) + crate::touchpad::listed(o2) + crate::touchpad::listed(o3)
        + crate::touchpad::listed(o4) + crate::touchpad::listed(o5) + crate::touchpad::listed(o6)
        + crate::touchpad::listed(o7) + crate::touchpad::listed(o8) + crate::touchpad::listed(o9)
        + crate::touchpad::listed(o10) + crate::touchpad::listed(o11)
}

proof fn lemma_joins(a: Seq<TouchpadSetting>, o: Option<TouchpadSetting>, x: TouchpadSetting)
    ensures
        (a + crate::touchpad::listed(o)).contains(x) <==> a.contains(x) || o == Some(x),
{
    lemma_in_sum(a, crate::touchpad::listed(o), x);
    lemma_listed(o, x);
}

proof fn lemma_members(
    o1: Option<TouchpadSetting>,
    o2: Option<TouchpadSetting>,
    o3: Option<TouchpadSetting>,
    o4: Option<TouchpadSetting>,
    o5: Option<TouchpadSetting>,
    o6: Option<TouchpadSetting>,
    o7: Option<TouchpadSetting>,
    o8: Option<TouchpadSetting>,
    o9: Option<TouchpadSetting>,
    o10: Option<TouchpadSetting>,
    o11: Option<TouchpadSetting>,
    x: TouchpadSetting,
)
    ensures
        in_turn(o1, o2, o3, o4, o5, o6, o7, o8, o9, o10, o11).contains(x) <==> o1 == Some(x) || o2
            == Some(x) || o3 == Some(x) || o4 == Some(x) || o5 == Some(x) || o6 == Some(x) || o7
            == Some(x) || o8 == Some(x) || o9 == Some(x) || o10 == Some(x) || o11 == Some(x),
{
    reveal(in_turn);
    let a1 = crate::touchpad::listed(o1);
    let a2 = a1 + crate::touchpad::listed(o2);
    let a3 = a2 + crate::touchpad::listed(o3);
    let a4 = a3 + crate::touchpad::listed(o4);
    let a5 = a4 + crate::touchpad::listed(o5);
    let a6 = a5 + crate::touchpad::listed(o6);
    let a7 = a6 + crate::touchpad::listed(o7);
    let a8 = a7 + crate::touchpad::listed(o8);
    let a9 = a8 + crate::touchpad::listed(o9);
    let a10 = a9 + crate::touchpad::listed(o10);
    lemma_listed(o1, x);
    lemma_joins(a1, o2, x);
    lemma_joins(a2, o3, x);
    lemma_joins(a3, o4, x);
    lemma_joins(a4, o5, x);
    lemma_joins(a5, o6, x);
    lemma_joins(a6, o7, x);
    lemma_joins(a7, o8, x);
    lemma_joins(a8, o9, x);
    lemma_joins(a9, o10, x);
    lemma_joins(a10, o11, x);
}

/// Every setting of the configuration is made as it says, and what the configuration leaves
/// open is left as it is.
pub proof fn law_touchpads_are_set_as_configured(cfg: TouchpadConfig, x: TouchpadSetting)
    ensures
        ({
            let all = settings_of(cfg);
            &&& x matches TouchpadSetting::TapToClick(b) ==> (all.contains(x) <==> cfg.tap_to_click
                == Some(b))
            &&& x matches TouchpadSetting::TapAndDrag(b) ==> (all.contains(x) <==> cfg.tap_and_drag
                == Some(b))
            &&& x matches TouchpadSetting::DragLock(state) ==> (all.contains(x) <==> cfg.drag_lock
                == Some(state == DragLockState::EnabledTimeout))
            &&& x matches TouchpadSetting::DisableWhileTyping(b) ==> (all.contains(x)
                <==> cfg.disable_while_typing == Some(b))
            &&& x matches TouchpadSetting::NaturalScroll(b) ==> (all.contains(x)
                <==> cfg.natural_scroll == Some(b))
            &&& x matches TouchpadSetting::LeftHanded(b) ==> (all.contains(x) <==> cfg.left_handed
                == Some(b))
            &&& x matches TouchpadSetting::MiddleEmulation(b) ==> (all.contains(x)
                <==> cfg.middle_emulation == Some(b))
            &&& x matches TouchpadSetting::AccelSpeed(n) ==> (all.contains(x) <==> cfg.accel_speed
                == Some(n))
            &&& x matches TouchpadSetting::Profile(p) ==> (all.contains(x) <==> cfg.accel_profile
                is Some && profile_named((cfg.accel_profile->0)@) == Some(p))
            &&& x matches TouchpadSetting::Click(m) ==> (all.contains(x) <==> cfg.click_method
                is Some && click_named((cfg.click_method->0)@) == Some(m))
            &&& x matches TouchpadSetting::Scroll(m) ==> (all.contains(x) <==> cfg.scroll_method
                is Some && scroll_named((cfg.scroll_method->0)@) == Some(m))
        }),
{
    let tap = match cfg.tap_to_click {
        Some(b) => Some(TouchpadSetting::TapToClick(b)),
        None => None,
    };
    let drag = match cfg.tap_and_drag {
        Some(b) => Some(TouchpadSetting::TapAndDrag(b)),
        None => None,
    };
    let lock = match cfg.drag_lock {
        Some(b) => Some(
            TouchpadSetting::DragLock(
                if b {
                    DragLockState::EnabledTimeout
                } else {
                    DragLockState::Disabled
                },
            ),
        ),
        None => None,
    };
    let typing = match cfg.disable_while_typing {
        Some(b) => Some(TouchpadSetting::DisableWhileTyping(b)),
        None => None,
    };
    let natural = match cfg.natural_scroll {
        Some(b) => Some(TouchpadSetting::NaturalScroll(b)),
        None => None,
    };
    let left = match cfg.left_handed {
        Some(b) => Some(TouchpadSetting::LeftHanded(b)),
        None => None,
    };
    let middle = match cfg.middle_emulation {
        Some(b) => Some(TouchpadSetting::MiddleEmulation(b)),
        None => None,
    };
    let speed = match cfg.accel_speed {
        Some(s) => Some(TouchpadSetting::AccelSpeed(s)),
        None => None,
    };
    let profile = match cfg.accel_profile {
        Some(name) => match profile_named(name@) {
            Some(p) => Some(TouchpadSetting::Profile(p)),
            None => None,
        },
        None => None,
    };
    let click = match cfg.click_method {
        Some(name) => match click_named(name@) {
            Some(m) => Some(TouchpadSetting::Click(m)),
            None => None,
        },
        None => None,
    };
    let scroll = match cfg.scroll_method {
        Some(name) => match scroll_named(name@) {
            Some(m) => Some(TouchpadSetting::Scroll(m)),
            None => None,
        },
        None => None,
    };
    lemma_members(
        tap,
        drag,
        lock,
        typing,
        natural,
        left,
        middle,
        speed,
        profile,
        click,
        scroll,
        x,
    );
    assert(settings_of(cfg) == in_turn(
        tap,
        drag,
        lock,
        typing,
        natural,
        left,
        middle,
        speed,
        profile,
        click,
        scroll,
    )) by {
        reveal(in_turn);
    }
}

} // verus!
