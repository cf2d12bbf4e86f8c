//! What holds of everything that goes over the control socket.

use vstd::prelude::*;
use vstd::string::*;

use crate::bsp::root_windows;
use crate::desk::FloatingTag;
use crate::ipc::{
    all_kinds, first_break, json_line, joined_path, kind_names, once_each, resolved,
    socket_path_of, subscription_json, EventKind, MAX_BATCH_ACTIONS, MAX_CONNECTIONS,
    MAX_REQUEST_BYTES, SUBSCRIBER_PENDING_CAP,
};
use crate::ipc_documents::{
    entry_keys, floating_on, focused_view, is_entry, is_listed, lists_workspaces, output_view,
    outputs_view, window_at, window_members, windows_view, workspace_view, workspaces_view, IpcEvent,
    IpcFacts, OutputFacts, WindowFacts, WorkspaceEntry,
};
use crate::ipc_requests::{
    answers, batch_fits, batch_size_error, error_with, first_unknown, ok_with, ActionRun, Request,
};
use crate::json::{json_bytes, json_of, JsonView};
use crate::layouts::WorkspaceKey;
use crate::text::decimal;
use crate::toplevels::Toplevels;

verus! {

/// A document has a member that says this.
pub open spec fn member_says(json: JsonView, name: Seq<char>, value: JsonView) -> bool {
    json is Object && json->Object_0.contains_key(name) && json->Object_0[name] == value
}

/// When an output shows another workspace, the event names the output, the workspace that
/// it showed before and the one that it shows now.
pub proof fn law_a_workspace_change_tells_both(
    top: Toplevels,
    facts: IpcFacts,
    output: String,
    from: u32,
    to: u32,
)
    ensures
        ({
            let event = IpcEvent::WorkspaceChanged { output, from, to };
            let data = event.data(top, facts);
            &&& member_says(data, "from"@, JsonView::Number(from as int))
            &&& member_says(data, "to"@, JsonView::Number(to as int))
            &&& member_says(data, "output"@, JsonView::Text(output@))
            &&& event.called() == "workspace-changed"@
            &&& event.kind_of() == EventKind::Workspace
        }),
{
    reveal_strlit("output");
    reveal_strlit("from");
    reveal_strlit("to");
    assert("output"@.len() == 6 && "from"@.len() == 4 && "to"@.len() == 2);
}

/// Of a window that is gone its number, its application and its title are told, each if
/// it had one.
pub proof fn law_a_closed_window_is_told_as_it_was(
    top: Toplevels,
    facts: IpcFacts,
    window_id: Option<u64>,
    app_id: Option<String>,
    title: Option<String>,
)
    ensures
        ({
            let event = IpcEvent::WindowClosed { window_id, app_id, title };
            let data = event.data(top, facts);
            &&& window_id is Some ==> member_says(
                data,
                "window_id"@,
                JsonView::Number(window_id->0 as int),
            )
            &&& app_id is Some ==> member_says(data, "app_id"@, JsonView::Text((app_id->0)@))
            &&& title is Some ==> member_says(data, "title"@, JsonView::Text((title->0)@))
            &&& window_id is None ==> member_says(data, "window_id"@, JsonView::Null)
            &&& app_id is None ==> member_says(data, "app_id"@, JsonView::Null)
            &&& title is None ==> member_says(data, "title"@, JsonView::Null)
            &&& event.called() == "window-closed"@
            &&& event.kind_of() == EventKind::Window
        }),
{
    reveal_strlit("window_id");
    reveal_strlit("app_id");
    reveal_strlit("title");
    assert("window_id"@.len() == 9 && "app_id"@.len() == 6 && "title"@.len() == 5);
}

proof fn lemma_window_at(windows: Seq<WindowFacts>, s: u64, i: int)
    requires
        0 <= i < windows.len(),
        windows[i].surface == s,
        forall|j: int| 0 <= j < i ==> (#[trigger] windows[j]).surface != s,
    ensures
        window_at(windows, s) == i,
    decreases windows.len(),
{
    if i > 0 {
        assert(windows[0].surface != s);
        let rest = windows.skip(1);
        assert(rest[i - 1] == windows[i]);
        assert forall|j: int| 0 <= j < i - 1 implies (#[trigger] rest[j]).surface != s by {
            assert(rest[j] == windows[j + 1]);
        }
        lemma_window_at(rest, s, i - 1);
    }
}

proof fn lemma_window_not_seen(windows: Seq<WindowFacts>, s: u64)
    requires
        forall|j: int| 0 <= j < windows.len() ==> (#[trigger] windows[j]).surface != s,
    ensures
        window_at(windows, s) == windows.len(),
    decreases windows.len(),
{
    if windows.len() > 0 {
        assert(windows[0].surface != s);
        let rest = windows.skip(1);
        assert forall|j: int| 0 <= j < rest.len() implies (#[trigger] rest[j]).surface != s by {
            assert(rest[j] == windows[j + 1]);
        }
        lemma_window_not_seen(rest, s);
    }
}

/// What happens to a window that is seen is told with the entry of that window, and that
/// it demands attention, or how deep it lies, beside it.
pub proof fn law_events_tell_of_the_window(
    top: Toplevels,
    facts: IpcFacts,
    s: u64,
    i: int,
    urgent: bool,
    tier: u8,
)
    requires
        0 <= i < facts.windows@.len(),
        facts.windows@[i].surface == s,
        forall|j: int| 0 <= j < i ==> (#[trigger] facts.windows@[j]).surface != s,
    ensures
        ({
            let members = window_members(top, facts, facts.windows@[i]);
            let alarm = IpcEvent::UrgentChanged { surface: s, urgent };
            let depth = IpcEvent::DepthChanged { surface: s, tier };
            &&& (IpcEvent::WindowOpened { surface: s }).data(top, facts) == JsonView::Object(members)
            &&& (IpcEvent::WindowChanged { surface: s }).data(top, facts) == JsonView::Object(members)
            &&& (IpcEvent::FocusChanged { surface: Some(s) }).data(top, facts) == JsonView::Object(
                members,
            )
            &&& member_says(alarm.data(top, facts), "urgent"@, JsonView::Bool(urgent))
            &&& member_says(depth.data(top, facts), "tier"@, JsonView::Number(tier as int))
            &&& forall|name: Seq<char>| #[trigger]
                members.contains_key(name) && name != "urgent"@ ==> member_says(
                    alarm.data(top, facts),
                    name,
                    members[name],
                )
            &&& forall|name: Seq<char>| #[trigger]
                members.contains_key(name) && name != "tier"@ ==> member_says(
                    depth.data(top, facts),
                    name,
                    members[name],
                )
            &&& facts.focused == Some(s) ==> focused_view(top, facts) == JsonView::Object(members)
        }),
{
    lemma_window_at(facts.windows@, s, i);
}

/// Of a window that is not seen nothing is told but its number, where it may be gone, and
/// what happened to it.
pub proof fn law_events_tell_little_of_unseen_windows(
    top: Toplevels,
    facts: IpcFacts,
    s: u64,
    urgent: bool,
    tier: u8,
)
    requires
        forall|j: int| 0 <= j < facts.windows@.len() ==> (#[trigger] facts.windows@[j]).surface != s,
    ensures
        ({
            let alarm = (IpcEvent::UrgentChanged { surface: s, urgent }).data(top, facts);
            let depth = (IpcEvent::DepthChanged { surface: s, tier }).data(top, facts);
            let id = if top.numeric_ids@.contains_key(s) {
                JsonView::Number(top.numeric_ids@[s] as int)
            } else {
                JsonView::Null
            };
            &&& (IpcEvent::WindowOpened { surface: s }).data(top, facts) == JsonView::Null
            &&& (IpcEvent::WindowChanged { surface: s }).data(top, facts) == JsonView::Null
            &&& (IpcEvent::FocusChanged { surface: Some(s) }).data(top, facts) == JsonView::Null
            &&& member_says(alarm, "window_id"@, id)
            &&& member_says(alarm, "urgent"@, JsonView::Bool(urgent))
            &&& member_says(depth, "window_id"@, id)
            &&& member_says(depth, "tier"@, JsonView::Number(tier as int))
            &&& facts.focused == Some(s) ==> focused_view(top, facts) == JsonView::Null
        }),
{
    lemma_window_not_seen(facts.windows@, s);
    reveal_strlit("window_id");
    reveal_strlit("urgent");
    reveal_strlit("tier");
    assert("window_id"@.len() == 9 && "urgent"@.len() == 6 && "tier"@.len() == 4);
}

/// Where nothing has the focus, and where the configuration was read again, there is
/// nothing more to tell.
pub proof fn law_some_events_have_no_data(top: Toplevels, facts: IpcFacts)
    ensures
        (IpcEvent::FocusChanged { surface: None }).data(top, facts) == JsonView::Null,
        IpcEvent::ConfigReloaded.data(top, facts) == JsonView::Null,
        facts.focused is None ==> focused_view(top, facts) == JsonView::Null,
{
}

/// Each event is called by what happened, and is told to those who asked for its kind.
pub proof fn law_events_are_called_by_what_happened(
    event: IpcEvent,
    s: u64,
    focus: Option<u64>,
    urgent: bool,
    tier: u8,
)
    ensures
        event == (IpcEvent::WindowOpened { surface: s }) ==> event.called() == "window-opened"@
            && event.kind_of() == EventKind::Window,
        event == (IpcEvent::WindowChanged { surface: s }) ==> event.called() == "window-changed"@
            && event.kind_of() == EventKind::Window,
        event == (IpcEvent::FocusChanged { surface: focus }) ==> event.called() == "focus-changed"@
            && event.kind_of() == EventKind::Focus,
        event == (IpcEvent::UrgentChanged { surface: s, urgent }) ==> event.called()
            == "urgent-changed"@ && event.kind_of() == EventKind::Urgent,
        event == (IpcEvent::DepthChanged { surface: s, tier }) ==> event.called()
            == "depth-changed"@ && event.kind_of() == EventKind::Depth,
        event is ConfigReloaded ==> event.called() == "config-reloaded"@ && event.kind_of()
            == EventKind::Config,
{
}

/// Each kind of events is called by what it is about.
pub proof fn law_kinds_are_called_by_what_they_are_about(kind: EventKind)
    ensures
        kind is Window ==> kind.called() == "window"@,
        kind is Workspace ==> kind.called() == "workspace"@,
        kind is Focus ==> kind.called() == "focus"@,
        kind is Urgent ==> kind.called() == "urgent"@,
        kind is Depth ==> kind.called() == "depth"@,
        kind is Config ==> kind.called() == "config"@,
{
}

proof fn lemma_window_names()
    ensures
        "window_id"@.len() == 9,
        "title"@.len() == 5,
        "app_id"@.len() == 6,
        "output"@.len() == 6,
        "workspace"@.len() == 9,
        "floating"@.len() == 8,
        "pinned"@.len() == 6,
        "pseudo_tiled"@.len() == 12,
        "fullscreen"@.len() == 10,
        "urgent"@.len() == 6,
        "maximized"@.len() == 9,
        "focused"@.len() == 7,
        "scratchpad"@.len() == 10,
        "window_id"@ != "workspace"@,
        "window_id"@ != "maximized"@,
        "workspace"@ != "maximized"@,
        "app_id"@ != "output"@,
        "app_id"@ != "pinned"@,
        "app_id"@ != "urgent"@,
        "output"@ != "pinned"@,
        "output"@ != "urgent"@,
        "pinned"@ != "urgent"@,
        "fullscreen"@ != "scratchpad"@,
{
    reveal_strlit("window_id");
    reveal_strlit("title");
    reveal_strlit("app_id");
    reveal_strlit("output");
    reveal_strlit("workspace");
    reveal_strlit("floating");
    reveal_strlit("pinned");
    reveal_strlit("pseudo_tiled");
    reveal_strlit("fullscreen");
    reveal_strlit("urgent");
    reveal_strlit("maximized");
    reveal_strlit("focused");
    reveal_strlit("scratchpad");
    assert("window_id"@[1] == 'i' && "workspace"@[1] == 'o' && "maximized"@[1] == 'a');
    assert("app_id"@[0] == 'a' && "output"@[0] == 'o' && "pinned"@[0] == 'p' && "urgent"@[0] == 'u');
    assert("fullscreen"@[0] == 'f' && "scratchpad"@[0] == 's');
}

/// The entry of a window says what the window is called, and of each mode whether the
/// window is in it; what fills the whole output is not listed as maximized.
pub proof fn law_a_window_is_told_as_it_is(top: Toplevels, facts: IpcFacts, w: WindowFacts)
    ensures
        ({
            let s = w.surface;
            let entry = JsonView::Object(window_members(top, facts, w));
            let desk = top.desk.modes;
            &&& top.numeric_ids@.contains_key(s) ==> member_says(
                entry,
                "window_id"@,
                JsonView::Number(top.numeric_ids@[s] as int),
            )
            &&& !top.numeric_ids@.contains_key(s) ==> member_says(
                entry,
                "window_id"@,
                JsonView::Null,
            )
            &&& w.title is Some ==> member_says(entry, "title"@, JsonView::Text((w.title->0)@))
            &&& w.title is None ==> member_says(entry, "title"@, JsonView::Null)
            &&& w.app_id is Some ==> member_says(entry, "app_id"@, JsonView::Text((w.app_id->0)@))
            &&& w.app_id is None ==> member_says(entry, "app_id"@, JsonView::Null)
            &&& member_says(
                entry,
                "floating"@,
                JsonView::Bool(desk.floating_workspace@.contains_key(s)),
            )
            &&& member_says(entry, "pinned"@, JsonView::Bool(desk.pinned@.contains_key(s)))
            &&& member_says(entry, "pseudo_tiled"@, JsonView::Bool(top.pseudo_tiled@.contains_key(s)))
            &&& member_says(entry, "fullscreen"@, JsonView::Bool(desk.fullscreen@.contains_key(s)))
            &&& member_says(
                entry,
                "maximized"@,
                JsonView::Bool(desk.maximized@.contains_key(s) && !desk.fullscreen@.contains_key(s)),
            )
            &&& member_says(entry, "urgent"@, JsonView::Bool(top.urgent@.contains_key(s)))
            &&& member_says(entry, "focused"@, JsonView::Bool(facts.focused == Some(s)))
        }),
{
    lemma_window_names();
}

/// A window is listed where it floats, and else where it is tiled: by the workspace of
/// its tag or of its tile. Its output is that of its tile, else that of its tag, else the
/// one where it is seen.
pub proof fn law_a_window_is_told_where_it_is(
    top: Toplevels,
    facts: IpcFacts,
    w: WindowFacts,
    key: WorkspaceKey,
)
    ensures
        ({
            let s = w.surface;
            let entry = JsonView::Object(window_members(top, facts, w));
            let tags = top.desk.modes.floating_workspace@;
            let home = top.desk.facts.layouts.home(s);
            let seen = top.desk.facts.visible@;
            &&& tags.contains_key(s) ==> member_says(
                entry,
                "workspace"@,
                JsonView::Number(tags[s].workspace as int),
            )
            &&& !tags.contains_key(s) && home == Some(key) ==> member_says(
                entry,
                "workspace"@,
                JsonView::Number(key.1 as int),
            )
            &&& !tags.contains_key(s) && home is None ==> member_says(
                entry,
                "workspace"@,
                JsonView::Null,
            )
            &&& home == Some(key) ==> member_says(entry, "output"@, JsonView::Text(key.0))
            &&& home is None && tags.contains_key(s) && facts.names@.contains_key(tags[s].output)
                ==> member_says(
                entry,
                "output"@,
                JsonView::Text(facts.names@[tags[s].output]@),
            )
            &&& home is None && !tags.contains_key(s) && seen.contains_key(s)
                && seen[s].output is Some && facts.names@.contains_key(seen[s].output->0)
                ==> member_says(
                entry,
                "output"@,
                JsonView::Text(facts.names@[seen[s].output->0]@),
            )
            &&& home is None && !tags.contains_key(s) && !seen.contains_key(s) ==> member_says(
                entry,
                "output"@,
                JsonView::Null,
            )
            &&& tags.contains_key(s) && facts.scratchpads@.contains_key(tags[s].workspace as u64)
                ==> member_says(
                entry,
                "scratchpad"@,
                JsonView::Text(facts.scratchpads@[tags[s].workspace as u64]@),
            )
            &&& tags.contains_key(s) && !facts.scratchpads@.contains_key(tags[s].workspace as u64)
                ==> !entry->Object_0.contains_key("scratchpad"@)
        }),
{
    lemma_window_names();
}

/// The windows are listed in the order in which they are seen, each with its entry.
pub proof fn law_each_window_has_an_entry(top: Toplevels, facts: IpcFacts, i: int)
    requires
        0 <= i < facts.windows@.len(),
    ensures
        windows_view(top, facts).len() == facts.windows@.len(),
        windows_view(top, facts)[i] == JsonView::Object(
            window_members(top, facts, facts.windows@[i]),
        ),
{
}

/// The entry of an output says its name, where it is, how large it is and how often it
/// is drawn, how it is turned, and which workspace it shows.
pub proof fn law_an_output_is_told_as_it_is(top: Toplevels, o: OutputFacts)
    ensures
        ({
            let entry = output_view(top, o);
            let place = seq![
                JsonView::Number(o.position.0 as int),
                JsonView::Number(o.position.1 as int),
            ];
            &&& member_says(entry, "name"@, JsonView::Text(o.name@))
            &&& member_says(entry, "position"@, JsonView::List(place))
            &&& o.mode is None ==> member_says(entry, "size"@, JsonView::Null) && member_says(
                entry,
                "refresh_mhz"@,
                JsonView::Null,
            )
            &&& o.mode is Some ==> member_says(
                entry,
                "size"@,
                JsonView::List(
                    seq![
                        JsonView::Number((o.mode->0).0 as int),
                        JsonView::Number((o.mode->0).1 as int),
                    ],
                ),
            ) && member_says(entry, "refresh_mhz"@, JsonView::Number((o.mode->0).2 as int))
            &&& member_says(entry, "scale"@, json_of(o.scale))
            &&& member_says(
                entry,
                "active_workspace"@,
                JsonView::Number(top.desk.facts.layouts.shown(o.name@) as int),
            )
            &&& o.transform is Normal ==> member_says(
                entry,
                "transform"@,
                JsonView::Text("Normal"@),
            )
            &&& o.transform is Rotated90 ==> member_says(entry, "transform"@, JsonView::Text("_90"@))
            &&& o.transform is Rotated180 ==> member_says(
                entry,
                "transform"@,
                JsonView::Text("_180"@),
            )
            &&& o.transform is Rotated270 ==> member_says(
                entry,
                "transform"@,
                JsonView::Text("_270"@),
            )
            &&& o.transform is Flipped ==> member_says(
                entry,
                "transform"@,
                JsonView::Text("Flipped"@),
            )
            &&& o.transform is Flipped90 ==> member_says(
                entry,
                "transform"@,
                JsonView::Text("Flipped90"@),
            )
            &&& o.transform is Flipped180 ==> member_says(
                entry,
                "transform"@,
                JsonView::Text("Flipped180"@),
            )
            &&& o.transform is Flipped270 ==> member_says(
                entry,
                "transform"@,
                JsonView::Text("Flipped270"@),
            )
        }),
{
    reveal_strlit("name");
    reveal_strlit("position");
    reveal_strlit("size");
    reveal_strlit("refresh_mhz");
    reveal_strlit("scale");
    reveal_strlit("transform");
    reveal_strlit("active_workspace");
    assert("name"@.len() == 4 && "position"@.len() == 8 && "size"@.len() == 4
        && "refresh_mhz"@.len() == 11 && "scale"@.len() == 5 && "transform"@.len() == 9
        && "active_workspace"@.len() == 16);
    assert("name"@[0] == 'n' && "size"@[0] == 's');
}

/// The outputs are listed in order, each with its entry.
pub proof fn law_each_output_has_an_entry(top: Toplevels, outputs: Seq<OutputFacts>, i: int)
    requires
        0 <= i < outputs.len(),
    ensures
        outputs_view(top, outputs).len() == outputs.len(),
        outputs_view(top, outputs)[i] == output_view(top, outputs[i]),
{
}

/// The entry of a workspace says its output, its number, whether it is shown and how
/// many windows it has, and what it is called where it is put away.
pub proof fn law_a_workspace_is_told_as_it_is(facts: IpcFacts, e: WorkspaceEntry)
    ensures
        ({
            let entry = workspace_view(facts, e);
            &&& member_says(entry, "output"@, JsonView::Text(e.output@))
            &&& member_says(entry, "workspace"@, JsonView::Number(e.workspace as int))
            &&& member_says(entry, "active"@, JsonView::Bool(e.active))
            &&& member_says(entry, "window_count"@, JsonView::Number(e.window_count as int))
            &&& facts.scratchpads@.contains_key(e.workspace as u64) ==> member_says(
                entry,
                "scratchpad"@,
                JsonView::Text(facts.scratchpads@[e.workspace as u64]@),
            )
            &&& !facts.scratchpads@.contains_key(e.workspace as u64)
                ==> !entry->Object_0.contains_key("scratchpad"@)
        }),
{
    reveal_strlit("output");
    reveal_strlit("workspace");
    reveal_strlit("active");
    reveal_strlit("window_count");
    reveal_strlit("scratchpad");
    assert("output"@.len() == 6 && "workspace"@.len() == 9 && "active"@.len() == 6
        && "window_count"@.len() == 12 && "scratchpad"@.len() == 10);
    assert("output"@[0] == 'o' && "active"@[0] == 'a');
}

/// A workspace is listed as soon as it has a tiled window, is shown on an output in use,
/// or has a floating window.
pub proof fn law_workspaces_in_use_are_listed(
    top: Toplevels,
    facts: IpcFacts,
    key: WorkspaceKey,
    i: int,
    s: u64,
)
    ensures
        root_windows(top.desk.facts.layouts.root_at(key)).len() > 0 ==> is_listed(top, facts, key),
        0 <= i < facts.outputs@.len() && facts.outputs@[i]@ == key.0
            && top.desk.facts.layouts.shown(key.0) == key.1 ==> is_listed(top, facts, key),
        top.desk.modes.floating_workspace@.contains_key(s)
            && top.desk.modes.floating_workspace@[s].workspace == key.1
            && facts.names@.contains_key(top.desk.modes.floating_workspace@[s].output)
            && facts.names@[top.desk.modes.floating_workspace@[s].output]@ == key.0 ==> is_listed(
            top,
            facts,
            key,
        ),
{
}

/// No other workspace is listed.
pub proof fn law_unused_workspaces_are_not_listed(top: Toplevels, facts: IpcFacts, key: WorkspaceKey)
    requires
        root_windows(top.desk.facts.layouts.root_at(key)).len() == 0,
        top.desk.facts.layouts.shown(key.0) != key.1,
        forall|s: u64| #[trigger]
            top.desk.modes.floating_workspace@.contains_key(s)
                ==> top.desk.modes.floating_workspace@[s].workspace != key.1,
    ensures
        !is_listed(top, facts, key),
{
}

/// Every workspace that is listed has one entry, and no workspace has two.
pub proof fn law_listed_workspaces_have_one_entry(
    top: Toplevels,
    facts: IpcFacts,
    json: JsonView,
    key: WorkspaceKey,
)
    requires
        lists_workspaces(top, facts, json),
    ensures
        json is List,
        exists|entries: Seq<WorkspaceEntry>|
            {
                &&& json->List_0 == #[trigger] workspaces_view(facts, entries)
                &&& workspaces_view(facts, entries).len() == entries.len()
                &&& forall|i: int|
                    0 <= i < entries.len() ==> (#[trigger] workspaces_view(facts, entries)[i])
                        == workspace_view(facts, entries[i])
                &&& is_listed(top, facts, key) <==> exists|i: int|
                    0 <= i < entries.len() && (#[trigger] entries[i]).output@ == key.0
                        && entries[i].workspace == key.1
                &&& forall|i: int, j: int|
                    0 <= i < j < entries.len() ==> (#[trigger] entries[i]).output@ != (
                    #[trigger] entries[j]).output@ || entries[i].workspace != entries[j].workspace
                &&& forall|i: int|
                    0 <= i < entries.len() ==> is_entry(top, facts, #[trigger] entries[i])
            },
{
    let entries = choose|entries: Seq<WorkspaceEntry>|
        {
            &&& json == JsonView::List(#[trigger] workspaces_view(facts, entries))
            &&& entry_keys(entries).no_duplicates()
            &&& forall|k: WorkspaceKey| #[trigger]
                entry_keys(entries).contains(k) <==> is_listed(top, facts, k)
            &&& forall|i: int| 0 <= i < entries.len() ==> is_entry(top, facts, #[trigger] entries[i])
        };
    let keys = entry_keys(entries);
    assert(keys.contains(key) <==> is_listed(top, facts, key));
    if exists|i: int|
        0 <= i < entries.len() && (#[trigger] entries[i]).output@ == key.0 && entries[i].workspace
            == key.1 {
        let i = choose|i: int|
            0 <= i < entries.len() && (#[trigger] entries[i]).output@ == key.0
                && entries[i].workspace == key.1;
        assert(keys[i] == key);
    }
    if keys.contains(key) {
        let i = choose|i: int| 0 <= i < keys.len() && keys[i] == key;
        assert(entries[i].output@ == key.0);
    }
    assert forall|i: int, j: int|
        0 <= i < j < entries.len() implies (#[trigger] entries[i]).output@ != (
    #[trigger] entries[j]).output@ || entries[i].workspace != entries[j].workspace by {
        assert(keys[i] != keys[j]);
    }
}

/// A workspace counts its tiled windows and those that float on it: one more for each.
pub proof fn law_floating_windows_are_counted(
    tags: Seq<(u64, FloatingTag)>,
    facts: IpcFacts,
    key: WorkspaceKey,
    s: u64,
    tag: FloatingTag,
)
    ensures
        floating_on(Seq::empty(), facts, key) == 0,
        facts.names@.contains_key(tag.output) && facts.names@[tag.output]@ == key.0
            && tag.workspace == key.1 ==> floating_on(tags.push((s, tag)), facts, key)
            == floating_on(tags, facts, key) + 1,
        tag.workspace != key.1 ==> floating_on(tags.push((s, tag)), facts, key) == floating_on(
            tags,
            facts,
            key,
        ),
        facts.names@.contains_key(tag.output) && facts.names@[tag.output]@ != key.0 ==> floating_on(
            tags.push((s, tag)),
            facts,
            key,
        ) == floating_on(tags, facts, key),
{
    assert(tags.push((s, tag)).drop_last() =~= tags);
}

/// An entry says that its workspace is active where the output shows it, and counts its
/// tiled windows with those that float on it.
pub proof fn law_entries_tell_the_truth(top: Toplevels, facts: IpcFacts, e: WorkspaceEntry)
    requires
        is_entry(top, facts, e),
    ensures
        e.active <==> top.desk.facts.layouts.shown(e.output@) == e.workspace,
        e.window_count == root_windows(
            top.desk.facts.layouts.root_at((e.output@, e.workspace)),
        ).len() + floating_on(
            top.desk.modes.floating_workspace.entries@,
            facts,
            (e.output@, e.workspace),
        ),
{
}

/// An answer says whether all is well; if so, it holds what was asked for, and if not,
/// what is wrong.
pub proof fn law_answers_say_whether_all_is_well(data: JsonView, message: Seq<char>)
    ensures
        member_says(ok_with(data), "ok"@, JsonView::Bool(true)),
        member_says(ok_with(data), "data"@, data),
        !ok_with(data)->Object_0.contains_key("error"@),
        member_says(error_with(message), "ok"@, JsonView::Bool(false)),
        member_says(error_with(message), "error"@, JsonView::Text(message)),
        !error_with(message)->Object_0.contains_key("data"@),
{
    reveal_strlit("ok");
    reveal_strlit("data");
    reveal_strlit("error");
    assert("ok"@.len() == 2 && "data"@.len() == 4 && "error"@.len() == 5);
}

/// Each question is answered with what it asks for.
pub proof fn law_questions_are_answered(
    top: Toplevels,
    facts: IpcFacts,
    outputs: Seq<OutputFacts>,
    json: JsonView,
)
    ensures
        answers(top, facts, outputs, Request::Outputs, json) ==> json == ok_with(
            JsonView::List(outputs_view(top, outputs)),
        ),
        answers(top, facts, outputs, Request::Windows, json) ==> json == ok_with(
            JsonView::List(windows_view(top, facts)),
        ),
        answers(top, facts, outputs, Request::FocusedWindow, json) ==> json == ok_with(
            focused_view(top, facts),
        ),
        answers(top, facts, outputs, Request::ActiveSubmap, json) && facts.active_submap is Some
            ==> json == ok_with(JsonView::Text((facts.active_submap->0)@)),
        answers(top, facts, outputs, Request::ActiveSubmap, json) && facts.active_submap is None
            ==> json == ok_with(JsonView::Null),
        answers(top, facts, outputs, Request::Workspaces, json) ==> exists|data: JsonView| #[trigger]
            lists_workspaces(top, facts, data) && json == ok_with(data),
        answers(top, facts, outputs, Request::Subscribe { events: None }, json) ==> json
            == error_with("subscribe must be the first and only request on a fresh connection"@),
{
}

/// A batch has from one to a hundred and twenty-eight actions.
pub proof fn law_batches_have_a_limit(n: nat)
    ensures
        batch_fits(n) <==> 1 <= n <= 128,
        batch_size_error() == error_with("batch must contain 1..="@ + decimal(128) + " actions"@),
{
}

/// Everything before the first action that is not known is known.
pub proof fn law_the_first_unknown_action_is_named(known: Seq<bool>, i: int)
    requires
        0 <= i < first_unknown(known),
    ensures
        first_unknown(known) <= known.len(),
        known[i],
    decreases known.len(),
{
    if known.len() > 0 && known[0] {
        if i > 0 {
            law_the_first_unknown_action_is_named(known.skip(1), i - 1);
            assert(known.skip(1)[i - 1] == known[i]);
        } else if first_unknown(known.skip(1)) > 0 {
            law_the_first_unknown_action_is_named(known.skip(1), 0);
        }
    }
}

/// When all actions were run, a batch is told how many they were, and a single action
/// nothing.
pub proof fn law_runs_are_answered(run: ActionRun)
    ensures
        member_says(run.success(), "ok"@, JsonView::Bool(true)),
        run.batch ==> member_says(
            run.success()->Object_0["data"@],
            "executed"@,
            JsonView::Number(run.count as int),
        ),
        !run.batch ==> run.success()->Object_0["data"@] == JsonView::Null,
{
    reveal_strlit("ok");
    reveal_strlit("data");
    assert("ok"@.len() == 2 && "data"@.len() == 4);
}

/// A subscriber is told its number and the names of the kinds of events it will get, in
/// turn.
pub proof fn law_subscribers_are_told_what_they_get(id: u64, kinds: Seq<EventKind>, i: int)
    requires
        0 <= i < kinds.len(),
    ensures
        ({
            let answer = subscription_json(id, kinds);
            let data = answer->Object_0["data"@];
            &&& member_says(answer, "ok"@, JsonView::Bool(true))
            &&& answer->Object_0.contains_key("data"@)
            &&& member_says(data, "subscription_id"@, JsonView::Number(id as int))
            &&& member_says(data, "events"@, JsonView::List(kind_names(kinds)))
            &&& kind_names(kinds).len() == kinds.len()
            &&& kind_names(kinds)[i] == JsonView::Text(kinds[i].called())
        }),
{
    reveal_strlit("ok");
    reveal_strlit("data");
    reveal_strlit("subscription_id");
    reveal_strlit("events");
    assert("ok"@.len() == 2 && "data"@.len() == 4 && "subscription_id"@.len() == 15
        && "events"@.len() == 6);
}

/// What a subscriber asked for it gets, once each and nothing else; one that asked for
/// nothing gets everything.
pub proof fn law_subscribers_get_what_they_asked_for(asked: Seq<EventKind>, kind: EventKind)
    ensures
        resolved(asked).contains(kind) <==> asked.contains(kind) || asked.len() == 0,
        resolved(asked).no_duplicates(),
    decreases asked.len(),
{
    if asked.len() == 0 {
        let all = all_kinds();
        assert(resolved(asked) == all);
        assert(all[0] is Window && all[1] is Workspace && all[2] is Focus && all[3] is Urgent
            && all[4] is Depth && all[5] is Config);
        assert(all.contains(kind)) by {
            match kind {
                EventKind::Window => assert(all[0] == kind),
                EventKind::Workspace => assert(all[1] == kind),
                EventKind::Focus => assert(all[2] == kind),
                EventKind::Urgent => assert(all[3] == kind),
                EventKind::Depth => assert(all[4] == kind),
                EventKind::Config => assert(all[5] == kind),
            }
        }
    } else {
        lemma_once_each(asked, kind);
    }
}

proof fn lemma_once_each(asked: Seq<EventKind>, kind: EventKind)
    ensures
        once_each(asked).contains(kind) <==> asked.contains(kind),
        once_each(asked).no_duplicates(),
    decreases asked.len(),
{
    if asked.len() > 0 {
        let rest = asked.drop_last();
        let before = once_each(rest);
        lemma_once_each(rest, kind);
        assert(asked =~= rest.push(asked.last()));
        if rest.contains(kind) {
            let i = choose|i: int| 0 <= i < rest.len() && rest[i] == kind;
            assert(asked[i] == kind);
            let j = choose|j: int| 0 <= j < before.len() && before[j] == kind;
            assert(once_each(asked)[j] == kind);
        }
        if asked.last() == kind {
            assert(asked[asked.len() - 1] == kind);
            if !before.contains(kind) {
                assert(once_each(asked)[before.len() as int] == kind);
            }
        }
        if asked.contains(kind) && asked.last() != kind {
            let i = choose|i: int| 0 <= i < asked.len() && asked[i] == kind;
            assert(rest[i] == kind);
        }
        if once_each(asked).contains(kind) && !before.contains(kind) {
            let i = choose|i: int| 0 <= i < once_each(asked).len() && once_each(asked)[i] == kind;
            if i < before.len() {
                assert(before[i] == kind);
            }
        }
    }
}

/// The first line of what came in holds no line break, and ends at one or where
/// everything ends.
pub proof fn law_the_first_line_ends_at_a_break(bytes: Seq<u8>)
    ensures
        first_break(bytes) <= bytes.len(),
        first_break(bytes) < bytes.len() ==> bytes[first_break(bytes) as int] == 10,
        forall|i: int| 0 <= i < first_break(bytes) ==> #[trigger] bytes[i] != 10,
    decreases bytes.len(),
{
    if bytes.len() > 0 && bytes[0] != 0x0a {
        let rest = bytes.skip(1);
        law_the_first_line_ends_at_a_break(rest);
        if first_break(rest) < rest.len() {
            assert(rest[first_break(rest) as int] == bytes[first_break(bytes) as int]);
        }
        assert forall|i: int| 0 <= i < first_break(bytes) implies #[trigger] bytes[i] != 10 by {
            if i > 0 {
                assert(rest[i - 1] == bytes[i]);
            }
        }
    }
}

/// The socket lies in the runtime directory, or in the one for temporary files, and bears
/// the number of the process.
pub proof fn law_the_socket_bears_the_process_number(dir: Seq<char>, pid: nat)
    ensures
        dir.len() > 0 && dir.last() != '/' ==> socket_path_of(Some(dir), pid) == dir + seq!['/'] + (
        "tidewm-"@ + decimal(pid) + ".sock"@),
        dir.len() > 0 && dir.last() == '/' ==> socket_path_of(Some(dir), pid) == dir + ("tidewm-"@
            + decimal(pid) + ".sock"@),
        socket_path_of(None, pid) == "/tmp"@ + seq!['/'] + ("tidewm-"@ + decimal(pid) + ".sock"@),
        joined_path(Seq::empty(), "x"@) == "x"@,
{
    reveal_strlit("/tmp");
    assert("/tmp"@.last() == 'p');
    assert(Seq::<char>::empty() + "x"@ =~= "x"@);
}

/// A document goes out in a line of its own: its bytes and one line break.
pub proof fn law_documents_go_out_in_lines(json: JsonView)
    ensures
        json_line(json).len() == json_bytes(json).len() + 1,
        json_line(json).last() == 10,
        json_line(json).drop_last() == json_bytes(json),
{
    assert(json_line(json).drop_last() =~= json_bytes(json));
}

/// The limits of the socket: sixty-four connections, requests of up to sixty-four
/// kilobytes, and a quarter of a megabyte that a subscriber may leave unread.
pub proof fn law_the_socket_has_limits()
    ensures
        MAX_CONNECTIONS == 64,
        MAX_REQUEST_BYTES == 64 * 1024,
        SUBSCRIBER_PENDING_CAP == 256 * 1024,
        MAX_BATCH_ACTIONS == 128,
{
}

} // verus!
