//! What is seen of the records that the library keeps: every field as it is, and every list
//! item by item.

use vstd::prelude::*;

use crate::bsp::{hit_view, hit_views, split_views, PathSplit, SplitHit};
use crate::cast_registry::{reservation_views, text_views, Reservation};
use crate::cast_session::{
    announcement_views, fails, start_views, stream_views, BusError, BusErrorKind, CastSession,
    RecordedStream, StartSpec,
};
use crate::cli::{Invocation, InvocationView};
use crate::desk::{home_view, HomeOutput, HomeView, WindowModes};
use crate::ext_workspace::{
    desired_views, event_views, group_views, workspace_views, TrackedGroup, TrackedWorkspace,
    WorkspaceEvent,
};
use crate::ipc::is_one_line;
use crate::json::{json_list, json_members, json_of, JsonView, ObjectBuilder};
use crate::layouts::key_views;
use crate::portal::{no_sender, SessionEntry};
use crate::ratio::Ratio;
use crate::resize::{handle_views, SplitResizeHandle};
use crate::screencast::{output_views, OutputSnapshot, ScreencastSource, SourceView};
use crate::session::{call_views, text_opt, HelperCall};
use crate::source_picker::{choice_views, SourceChoice};
use crate::text::texts;
use crate::wlr_foreign_toplevel::{handle_views as toplevel_views, WlrForeignToplevelHandle};
use crate::wlr_output_management::{head_views, TrackedHead};

verus! {

/// A hit is seen with its place, its path, its axis, its areas and its revision.
pub proof fn law_hits_are_seen_as_they_are(hit: SplitHit, hits: Seq<SplitHit>, i: int)
    ensures
        hit@.output == hit.output@ && hit@.workspace == hit.workspace,
        hit@.path == hit.path@ && hit@.axis == hit.axis,
        hit@.area == hit.area && hit@.root_area == hit.root_area,
        hit@.target_side == hit.target_side && hit@.topology_revision == hit.topology_revision,
        hit_view(Some(hit)) == Some(hit@),
        hit_view(None) is None,
        hit_views(hits).len() == hits.len(),
        0 <= i < hits.len() ==> hit_views(hits)[i] == hits[i]@,
{
}

/// A handle is seen with its hit, where it starts and its weight.
pub proof fn law_handles_are_seen_as_they_are(
    handle: SplitResizeHandle,
    handles: Seq<SplitResizeHandle>,
    starts: Seq<(SplitHit, Ratio)>,
    splits: Seq<PathSplit>,
    i: int,
)
    ensures
        handle@.hit == handle.hit@ && handle@.start_ratio == handle.start_ratio && handle@.weight
            == handle.weight,
        handle_views(handles).len() == handles.len(),
        0 <= i < handles.len() ==> handle_views(handles)[i] == handles[i]@,
        crate::press::start_views(starts).len() == starts.len(),
        0 <= i < starts.len() ==> crate::press::start_views(starts)[i] == (
            starts[i].0@,
            starts[i].1,
        ) && crate::press::start_view(Some(starts[i])) == Some((starts[i].0@, starts[i].1)),
        crate::press::start_view(None) is None,
        split_views(splits).len() == splits.len(),
        0 <= i < splits.len() ==> {
            let v = split_views(splits)[i];
            &&& v.path == splits[i].path@ && v.axis == splits[i].axis
            &&& v.area == splits[i].area && v.ratio == splits[i].ratio
        },
{
}

/// The modes of windows are seen each under its own name, and a home by number or by name.
pub proof fn law_modes_and_homes_are_seen_as_they_are(modes: WindowModes, home: HomeOutput)
    ensures
        modes@.fullscreen == modes.fullscreen@,
        modes@.maximized == modes.maximized@,
        modes@.floating == modes.floating_workspace@,
        modes@.pinned == modes.pinned@,
        home matches HomeOutput::Number(n) ==> home@ == HomeView::Number(n),
        home matches HomeOutput::Name(name) ==> home@ == HomeView::Name(name@),
        home_view(Some(home)) == Some(home@),
        home_view(None) is None,
{
}

/// A stream is seen with its path, its source, its size, its cursor and its worker; a
/// session with all that it holds.
pub proof fn law_sessions_are_seen_as_they_are(
    stream: RecordedStream,
    session: CastSession,
    start: StartSpec,
)
    ensures
        stream@.path == stream.path@ && stream@.source == stream.source@,
        stream@.width == stream.width && stream@.height == stream.height,
        stream@.cursor_mode == stream.cursor_mode && stream@.pipewire == stream.pipewire,
        session@.owner == session.owner@ && session@.path == session.path@,
        session@.closed == session.closed && session@.starting == session.starting,
        session@.stream_slots == session.stream_slots && session@.streams == stream_views(
            session.streams@,
        ),
        start@.path == start.path@ && start@.source == start.source@,
        start@.width == start.width && start@.height == start.height && start@.draw_cursor
            == start.draw_cursor,
{
}

/// A source is seen as the output or the window it is, and outputs with their size.
pub proof fn law_sources_are_seen_as_they_are(
    source: ScreencastSource,
    output: OutputSnapshot,
    choice: SourceChoice,
)
    ensures
        source matches ScreencastSource::Output(name) ==> source@ == SourceView::Output(name@),
        source matches ScreencastSource::Window(id) ==> source@ == SourceView::Window(id),
        output@.name == output.name@ && output@.width == output.width && output@.height
            == output.height,
        choice@.source == choice.source@ && choice@.source_type == choice.source_type,
        choice@.width == choice.width && choice@.height == choice.height && choice@.label
            == choice.label@,
{
}

/// Lists of what is shared are seen item by item.
pub proof fn law_shared_lists_are_seen_in_order(
    streams: Seq<RecordedStream>,
    starts: Seq<StartSpec>,
    told: Seq<(String, u32)>,
    outputs: Seq<OutputSnapshot>,
    choices: Seq<SourceChoice>,
    reservations: Seq<Reservation>,
    i: int,
)
    ensures
        stream_views(streams).len() == streams.len(),
        0 <= i < streams.len() ==> stream_views(streams)[i] == streams[i]@,
        start_views(starts).len() == starts.len(),
        0 <= i < starts.len() ==> start_views(starts)[i] == starts[i]@,
        announcement_views(told).len() == told.len(),
        0 <= i < told.len() ==> announcement_views(told)[i] == (told[i].0@, told[i].1),
        output_views(outputs).len() == outputs.len(),
        0 <= i < outputs.len() ==> output_views(outputs)[i] == outputs[i]@,
        choice_views(choices).len() == choices.len(),
        0 <= i < choices.len() ==> choice_views(choices)[i] == choices[i]@,
        reservation_views(reservations).len() == reservations.len(),
        0 <= i < reservations.len() ==> reservation_views(reservations)[i] == (
            reservations[i].owner@,
            reservations[i].path@,
        ),
{
}

/// A call fails with the kind and the words it is said to fail with, and not otherwise.
pub proof fn law_calls_fail_with_their_words(
    e: BusError,
    value: u64,
    kind: BusErrorKind,
    message: Seq<char>,
)
    ensures
        fails(Err::<u64, BusError>(e), e.kind, e.message@),
        fails(Err::<u64, BusError>(e), kind, message) ==> e.kind == kind && e.message@ == message,
        !fails(Ok::<u64, BusError>(value), kind, message),
        no_sender() == "no sender on portal screencast DBus call"@,
{
}

/// A portal session is seen with its owner, whether it is registered, what was selected and
/// its stream.
pub proof fn law_portal_sessions_are_seen_as_they_are(entry: SessionEntry)
    ensures
        entry@.owner == entry.owner@ && entry@.registered == entry.registered,
        entry@.draw_cursor == entry.draw_cursor && entry@.source_types == entry.source_types,
        entry@.stream == entry.stream,
{
}

/// Groups and workspaces are seen with their objects, and events with their output.
pub proof fn law_workspaces_are_seen_as_they_are(
    w: TrackedWorkspace,
    g: TrackedGroup,
    groups: Seq<TrackedGroup>,
    workspaces: Seq<TrackedWorkspace>,
    events: Seq<WorkspaceEvent>,
    desired: Seq<(String, Vec<(u32, bool)>)>,
    i: int,
)
    ensures
        w@.number == w.number && w@.instances == w.instances@ && w@.active == w.active,
        g@.name == g.output_name@ && g@.instances == g.instances@ && g@.workspaces
            == workspace_views(g.workspaces@),
        group_views(groups).len() == groups.len(),
        0 <= i < groups.len() ==> group_views(groups)[i] == groups[i]@,
        workspace_views(workspaces).len() == workspaces.len(),
        0 <= i < workspaces.len() ==> workspace_views(workspaces)[i] == workspaces[i]@,
        event_views(events).len() == events.len(),
        0 <= i < events.len() ==> event_views(events)[i] == (events[i].output@, events[i].step),
        desired_views(desired).len() == desired.len(),
        0 <= i < desired.len() ==> desired_views(desired)[i] == (desired[i].0@, desired[i].1@),
{
}

/// The windows and outputs that other programs see are seen as they are.
pub proof fn law_handles_and_heads_are_seen_as_they_are(
    h: WlrForeignToplevelHandle,
    handles: Seq<WlrForeignToplevelHandle>,
    head: TrackedHead,
    heads: Seq<TrackedHead>,
    i: int,
)
    ensures
        h@.id == h.id && h@.title == h.title@ && h@.app_id == h.app_id@,
        h@.instances == h.instances@ && h@.closed == h.closed,
        toplevel_views(handles).len() == handles.len(),
        0 <= i < handles.len() ==> toplevel_views(handles)[i] == handles[i]@,
        head@.output == head.output && head@.resources == head.resources@,
        head_views(heads).len() == heads.len(),
        0 <= i < heads.len() ==> head_views(heads)[i] == heads[i]@,
{
}

/// An invocation is seen as what it asks for.
pub proof fn law_invocations_are_seen_as_they_are(
    config: Option<String>,
    spawn: Option<String>,
    message: String,
    text: String,
)
    ensures
        Invocation::Version@ == InvocationView::Version,
        Invocation::Help@ == InvocationView::Help,
        Invocation::Refused(message)@ == InvocationView::Refused(message@),
        (Invocation::Run { config, spawn })@ == (InvocationView::Run {
            config: text_opt(config),
            spawn: text_opt(spawn),
        }),
        text_opt(Some(text)) == Some(text@),
        text_opt(None) is None,
{
}

/// Texts, keys and calls are seen item by item.
pub proof fn law_texts_are_seen_in_order(
    list: Seq<String>,
    keys: Seq<(String, u32)>,
    call: HelperCall,
    calls: Seq<HelperCall>,
    i: int,
)
    ensures
        texts(list).len() == list.len(),
        0 <= i < list.len() ==> texts(list)[i] == list[i]@ && text_views(list)[i] == list[i]@,
        text_views(list).len() == list.len(),
        key_views(keys).len() == keys.len(),
        0 <= i < keys.len() ==> key_views(keys)[i] == (keys[i].0@, keys[i].1),
        call@.0 == call.program@ && call@.1 == texts(call.args@),
        call_views(calls).len() == calls.len(),
        0 <= i < calls.len() ==> call_views(calls)[i] == calls[i]@,
{
}

/// A document says what was put into it: the last word under each name, and the items of a
/// list in order.
pub proof fn law_documents_say_what_was_put_in(
    members: Seq<(String, serde_json::Value)>,
    name: String,
    value: serde_json::Value,
    other: Seq<char>,
    values: Seq<serde_json::Value>,
    builder: ObjectBuilder,
    i: int,
)
    ensures
        json_members(members.push((name, value))).contains_key(name@),
        json_members(members.push((name, value)))[name@] == json_of(value),
        other != name@ ==> (json_members(members.push((name, value))).contains_key(other)
            <==> json_members(members).contains_key(other)),
        other != name@ && json_members(members).contains_key(other) ==> json_members(
            members.push((name, value)),
        )[other] == json_members(members)[other],
        json_members(Seq::empty()) == Map::<Seq<char>, JsonView>::empty(),
        json_list(values).len() == values.len(),
        0 <= i < values.len() ==> json_list(values)[i] == json_of(values[i]),
        builder.says() == json_members(builder.members@),
{
    assert(members.push((name, value)).drop_last() =~= members);
}

/// One line has one line break, at its end.
pub proof fn law_a_line_breaks_once(bytes: Seq<u8>, i: int)
    ensures
        is_one_line(bytes) ==> bytes.len() > 0 && bytes.last() == 10,
        is_one_line(bytes) && 0 <= i < bytes.len() && bytes[i] == 10 ==> i == bytes.len() - 1,
{
}

} // verus!
