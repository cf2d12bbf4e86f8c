//! A sharing session on the bus, from its making to its end.

use vstd::prelude::*;
use vstd::string::*;

use crate::cast_registry::{
    checked_path, law_object_paths_are_valid, not_session, numbered_path, object_path_of, owned_by,
    ObjectKind, SessionRegistry, MAX_SESSIONS, MAX_SESSIONS_PER_CLIENT,
};
use crate::screencast::{
    copy_source, OutputSnapshot, ScreencastSource, SourceView, WindowSnapshot,
};
use crate::text::{join, joined, text_eq, texts};

verus! {

/// How many streams a session has at most.
pub const MAX_STREAMS_PER_SESSION: usize = 8;

/// What went wrong with a call.
#[derive(Clone, Copy, Debug, PartialEq, Eq, Structural)]
pub enum BusErrorKind {
    Failed,
    LimitsExceeded,
    InvalidArgs,
    AccessDenied,
    Disconnected,
}

/// What a caller is told when something went wrong.
pub struct BusError {
    pub kind: BusErrorKind,
    pub message: String,
}

/// The call failed, with this message.
pub open spec fn fails<T>(r: Result<T, BusError>, kind: BusErrorKind, message: Seq<char>) -> bool {
    match r {
        Ok(_) => false,
        Err(e) => e.kind == kind && e.message@ == message,
    }
}

fn error(kind: BusErrorKind, message: &str) -> (r: BusError)
    ensures
        r.kind == kind,
        r.message@ == message@,
{
    BusError { kind, message: message.to_owned() }
}

/// Numbers for objects, each given once.
pub struct IdCounter {
    pub next: u64,
}

impl IdCounter {
    pub fn new() -> (r: Self)
        ensures
            r.next == 1,
    {
        IdCounter { next: 1 }
    }

    /// The next number.
    pub fn take(&mut self) -> (r: u64)
        ensures
            r == old(self).next,
            final(self).next == if old(self).next == u64::MAX {
                0
            } else {
                (old(self).next + 1) as u64
            },
    {
        let id: u64 = self.next;
        self.next = if id == u64::MAX {
            0
        } else {
            id + 1
        };
        id
    }
}

/// A stream that a client asked for.
pub struct RecordedStream {
    pub path: String,
    pub source: ScreencastSource,
    pub width: u32,
    pub height: u32,
    pub cursor_mode: u32,
    /// The worker that produces it, while it runs.
    pub pipewire: Option<u64>,
}

/// What a stream is.
#[verifier::ext_equal]
pub struct StreamView {
    pub path: Seq<char>,
    pub source: SourceView,
    pub width: u32,
    pub height: u32,
    pub cursor_mode: u32,
    pub pipewire: Option<u64>,
}

impl View for RecordedStream {
    type V = StreamView;

    open spec fn view(&self) -> StreamView {
        StreamView {
            path: self.path@,
            source: self.source@,
            width: self.width,
            height: self.height,
            cursor_mode: self.cursor_mode,
            pipewire: self.pipewire,
        }
    }
}

/// What streams are.
pub open spec fn stream_views(s: Seq<RecordedStream>) -> Seq<StreamView> {
    s.map_values(|r: RecordedStream| r@)
}

/// A sharing session.
pub struct CastSession {
    pub owner: String,
    pub path: String,
    pub closed: bool,
    pub starting: bool,
    /// How many streams there are, or are about to be.
    pub stream_slots: usize,
    pub streams: Vec<RecordedStream>,
}

/// What a session is.
#[verifier::ext_equal]
pub struct CastView {
    pub owner: Seq<char>,
    pub path: Seq<char>,
    pub closed: bool,
    pub starting: bool,
    pub stream_slots: usize,
    pub streams: Seq<StreamView>,
}

impl View for CastSession {
    type V = CastView;

    open spec fn view(&self) -> CastView {
        CastView {
            owner: self.owner@,
            path: self.path@,
            closed: self.closed,
            starting: self.starting,
            stream_slots: self.stream_slots,
            streams: stream_views(self.streams@),
        }
    }
}

/// What became of making a session known on the bus.
pub enum ServeOutcome {
    /// It could not be made known.
    NotServed(String),
    /// The bus could not be asked whether the client is still there.
    Unknown(String),
    /// The client is gone.
    OwnerGone,
    /// The client is there.
    Alive,
}

/// What is there to do about a session that is not to be.
pub struct Served {
    pub result: Result<(), BusError>,
    /// The object that was made known is taken back.
    pub abandon: bool,
}

/// A client asks for a session. It gets one with a path of its own, unless there are
/// too many.
pub fn create_session(
    registry: &mut SessionRegistry,
    ids: &mut IdCounter,
    sender: &Option<String>,
) -> (r: Result<CastSession, BusError>)
    requires
        old(registry).wf(),
    ensures
        final(registry).wf(),
        match sender {
            None => {
                &&& fails(r, BusErrorKind::Failed, "no sender on screencast DBus call"@)
                &&& final(registry).views() == old(registry).views()
                &&& final(ids).next == old(ids).next
            },
            Some(owner) => {
                let path = object_path_of(ObjectKind::Session, old(ids).next as nat);
                let room = old(registry).views().len() < MAX_SESSIONS && owned_by(
                    old(registry).views(),
                    owner@,
                ) < MAX_SESSIONS_PER_CLIENT;
                &&& final(ids).next == if old(ids).next == u64::MAX {
                    0
                } else {
                    (old(ids).next + 1) as u64
                }
                &&& room ==> r is Ok && r->Ok_0@ == (CastView {
                    owner: owner@,
                    path,
                    closed: false,
                    starting: false,
                    stream_slots: 0,
                    streams: Seq::empty(),
                })
                &&& !room ==> fails(
                    r,
                    BusErrorKind::LimitsExceeded,
                    "too many active screencast sessions"@,
                )
                &&& final(registry).views() == if room && !old(registry).views().contains(
                    (owner@, path),
                ) {
                    old(registry).views().push((owner@, path))
                } else {
                    old(registry).views()
                }
            },
        },
{
    let owner: String = match sender {
        Some(owner) => owner.clone(),
        None => {
            return Err(error(BusErrorKind::Failed, "no sender on screencast DBus call"));
        },
    };
    let id: u64 = ids.take();
    proof {
        law_object_paths_are_valid(ObjectKind::Session, id as nat);
    }
    let path: String = match checked_path(numbered_path(ObjectKind::Session, id)) {
        Ok(path) => path,
        Err(message) => {
            return Err(error(BusErrorKind::Failed, message));
        },
    };
    if !registry.reserve(owner.as_str(), path.as_str()) {
        return Err(error(BusErrorKind::LimitsExceeded, "too many active screencast sessions"));
    }
    let session: CastSession = CastSession {
        owner,
        path,
        closed: false,
        starting: false,
        stream_slots: 0,
        streams: Vec::new(),
    };
    assert(session@.streams =~= Seq::<StreamView>::empty());
    Ok(session)
}

/// A session that was reserved was made known on the bus, or not. Unless it was, and
/// the client is still there, it is not to be.
pub fn session_served(
    registry: &mut SessionRegistry,
    session: &CastSession,
    outcome: &ServeOutcome,
) -> (r: Served)
    requires
        old(registry).wf(),
    ensures
        final(registry).wf(),
        final(registry).views() == if outcome is Alive {
            old(registry).views()
        } else {
            old(registry).views().filter(not_session(session@.owner, session@.path))
        },
        match outcome {
            ServeOutcome::Alive => r.result is Ok && !r.abandon,
            ServeOutcome::NotServed(message) => fails(r.result, BusErrorKind::Failed, message@)
                && !r.abandon,
            ServeOutcome::Unknown(message) => fails(r.result, BusErrorKind::Failed, message@)
                && r.abandon,
            ServeOutcome::OwnerGone => fails(
                r.result,
                BusErrorKind::Disconnected,
                "screencast client disconnected while creating session"@,
            ) && r.abandon,
        },
{
    match outcome {
        ServeOutcome::Alive => Served { result: Ok(()), abandon: false },
        ServeOutcome::NotServed(message) => {
            registry.remove(session.owner.as_str(), session.path.as_str());
            Served {
                result: Err(error(BusErrorKind::Failed, message.as_str())),
                abandon: false,
            }
        },
        ServeOutcome::Unknown(message) => {
            registry.remove(session.owner.as_str(), session.path.as_str());
            Served { result: Err(error(BusErrorKind::Failed, message.as_str())), abandon: true }
        },
        ServeOutcome::OwnerGone => {
            registry.remove(session.owner.as_str(), session.path.as_str());
            Served {
                result: Err(
                    error(
                        BusErrorKind::Disconnected,
                        "screencast client disconnected while creating session",
                    ),
                ),
                abandon: true,
            }
        },
    }
}

/// What a client wants to share.
pub enum StreamRequest {
    Monitor { connector: String },
    /// A window, by the number that came with the call, if one did.
    Window { id: Option<u64> },
}

/// The size of the first output of a name.
pub open spec fn output_size(outputs: Seq<OutputSnapshot>, name: Seq<char>) -> Option<(u32, u32)>
    decreases outputs.len(),
{
    if outputs.len() == 0 {
        None
    } else if outputs[0].name@ == name {
        Some((outputs[0].width, outputs[0].height))
    } else {
        output_size(outputs.skip(1), name)
    }
}

/// The size of the first window of a number.
pub open spec fn window_size(windows: Seq<WindowSnapshot>, id: u64) -> Option<(u32, u32)>
    decreases windows.len(),
{
    if windows.len() == 0 {
        None
    } else if windows[0].id == id {
        Some((windows[0].width, windows[0].height))
    } else {
        window_size(windows.skip(1), id)
    }
}

/// The size of the last output of a name.
pub open spec fn latest_output_size(outputs: Seq<OutputSnapshot>, name: Seq<char>) -> Option<
    (u32, u32),
>
    decreases outputs.len(),
{
    if outputs.len() == 0 {
        None
    } else if outputs.last().name@ == name {
        Some((outputs.last().width, outputs.last().height))
    } else {
        latest_output_size(outputs.drop_last(), name)
    }
}

/// The size of the last window of a number.
pub open spec fn latest_window_size(windows: Seq<WindowSnapshot>, id: u64) -> Option<(u32, u32)>
    decreases windows.len(),
{
    if windows.len() == 0 {
        None
    } else if windows.last().id == id {
        Some((windows.last().width, windows.last().height))
    } else {
        latest_window_size(windows.drop_last(), id)
    }
}

fn find_output_size(outputs: &Vec<OutputSnapshot>, name: &str) -> (r: Option<(u32, u32)>)
    ensures
        r == output_size(outputs@, name@),
{
    let mut i: usize = 0;
    assert(outputs@.skip(0) =~= outputs@);
    while i < outputs.len()
        invariant
            i <= outputs@.len(),
            output_size(outputs@, name@) == output_size(outputs@.skip(i as int), name@),
        decreases outputs@.len() - i,
    {
        assert(outputs@.skip(i as int)[0] == outputs@[i as int]);
        assert(outputs@.skip(i as int).skip(1) =~= outputs@.skip(i + 1));
        if text_eq(outputs[i].name.as_str(), name) {
            return Some((outputs[i].width, outputs[i].height));
        }
        i += 1;
    }
    None
}

fn find_window_size(windows: &Vec<WindowSnapshot>, id: u64) -> (r: Option<(u32, u32)>)
    ensures
        r == window_size(windows@, id),
{
    let mut i: usize = 0;
    assert(windows@.skip(0) =~= windows@);
    while i < windows.len()
        invariant
            i <= windows@.len(),
            window_size(windows@, id) == window_size(windows@.skip(i as int), id),
        decreases windows@.len() - i,
    {
        assert(windows@.skip(i as int)[0] == windows@[i as int]);
        assert(windows@.skip(i as int).skip(1) =~= windows@.skip(i + 1));
        if windows[i].id == id {
            return Some((windows[i].width, windows[i].height));
        }
        i += 1;
    }
    None
}

/// The size of what a stream shows, as it is now.
pub open spec fn source_size(
    source: SourceView,
    outputs: Seq<OutputSnapshot>,
    windows: Seq<WindowSnapshot>,
) -> Option<(u32, u32)> {
    match source {
        SourceView::Output(name) => latest_output_size(outputs, name),
        SourceView::Window(id) => latest_window_size(windows, id),
    }
}

fn current_size(
    source: &ScreencastSource,
    outputs: &Vec<OutputSnapshot>,
    windows: &Vec<WindowSnapshot>,
) -> (r: Option<(u32, u32)>)
    ensures
        r == source_size(source@, outputs@, windows@),
{
    match source {
        ScreencastSource::Output(name) => {
            let mut i: usize = outputs.len();
            assert(outputs@.take(i as int) =~= outputs@);
            while i > 0
                invariant
                    i <= outputs@.len(),
                    source@ == SourceView::Output(name@),
                    latest_output_size(outputs@, name@) == latest_output_size(
                        outputs@.take(i as int),
                        name@,
                    ),
                decreases i,
            {
                i -= 1;
                assert(outputs@.take(i + 1).last() == outputs@[i as int]);
                assert(outputs@.take(i + 1).drop_last() =~= outputs@.take(i as int));
                if text_eq(outputs[i].name.as_str(), name.as_str()) {
                    return Some((outputs[i].width, outputs[i].height));
                }
            }
            None
        },
        ScreencastSource::Window(id) => {
            let mut i: usize = windows.len();
            assert(windows@.take(i as int) =~= windows@);
            while i > 0
                invariant
                    i <= windows@.len(),
                    source@ == SourceView::Window(*id),
                    latest_window_size(windows@, *id) == latest_window_size(
                        windows@.take(i as int),
                        *id,
                    ),
                decreases i,
            {
                i -= 1;
                assert(windows@.take(i + 1).last() == windows@[i as int]);
                assert(windows@.take(i + 1).drop_last() =~= windows@.take(i as int));
                if windows[i].id == *id {
                    return Some((windows[i].width, windows[i].height));
                }
            }
            None
        },
    }
}

/// What is wrong with a call before it takes effect: whom it comes from, or that the
/// session is closed.
pub open spec fn refusal(session: CastView, sender: Option<String>) -> Option<
    (BusErrorKind, Seq<char>),
> {
    if sender is None {
        Some((BusErrorKind::Failed, "no sender on screencast DBus call"@))
    } else if (sender->0)@ != session.owner {
        Some((BusErrorKind::AccessDenied, "screencast session belongs to another DBus client"@))
    } else if session.closed {
        Some((BusErrorKind::Failed, "session is closed"@))
    } else {
        None
    }
}

/// The source of a stream, its size and how it shows the pointer; or what is wrong
/// with asking for it.
pub open spec fn stream_request(
    request: StreamRequest,
    cursor: Option<u32>,
    outputs: Seq<OutputSnapshot>,
    windows: Seq<WindowSnapshot>,
) -> Result<(SourceView, u32, u32, u32), Seq<char>> {
    match request {
        StreamRequest::Monitor { connector } => match output_size(outputs, connector@) {
            None => Err("unknown output connector: "@ + connector@),
            Some((w, h)) => Ok(
                (
                    SourceView::Output(connector@),
                    w,
                    h,
                    if cursor == Some(0u32) {
                        0
                    } else {
                        1
                    },
                ),
            ),
        },
        StreamRequest::Window { id } => match id {
            None => Err("missing window-id"@),
            Some(id) => match window_size(windows, id) {
                None => Err("unknown window-id"@),
                Some((w, h)) => Ok(
                    (
                        SourceView::Window(id),
                        w,
                        h,
                        match cursor {
                            Some(mode) => mode,
                            None => 0,
                        },
                    ),
                ),
            },
        },
    }
}

/// What is to be started of a stream.
pub struct StartSpec {
    pub path: String,
    pub source: ScreencastSource,
    pub width: u32,
    pub height: u32,
    pub draw_cursor: bool,
}

/// What a `StartSpec` says.
pub struct StartView {
    pub path: Seq<char>,
    pub source: SourceView,
    pub width: u32,
    pub height: u32,
    pub draw_cursor: bool,
}

impl View for StartSpec {
    type V = StartView;

    open spec fn view(&self) -> StartView {
        StartView {
            path: self.path@,
            source: self.source@,
            width: self.width,
            height: self.height,
            draw_cursor: self.draw_cursor,
        }
    }
}

/// What the specifications say.
pub open spec fn start_views(s: Seq<StartSpec>) -> Seq<StartView> {
    s.map_values(|x: StartSpec| x@)
}

/// A stream without a worker that ended.
pub open spec fn without_dead(s: StreamView, alive: bool) -> StreamView {
    StreamView {
        pipewire: if alive {
            s.pipewire
        } else {
            None
        },
        ..s
    }
}

/// Streams with the sizes that those without a worker are to have, what is to be
/// started of them, and whether everything that they show is there. Behind the first
/// that shows nothing no other is looked at.
pub struct Preparation {
    pub streams: Seq<StreamView>,
    pub specs: Seq<StartView>,
    pub complete: bool,
}

/// The streams prepared one by one.
pub open spec fn prepared(
    streams: Seq<StreamView>,
    outputs: Seq<OutputSnapshot>,
    windows: Seq<WindowSnapshot>,
) -> Preparation
    decreases streams.len(),
{
    if streams.len() == 0 {
        Preparation { streams: Seq::empty(), specs: Seq::empty(), complete: true }
    } else {
        let before = prepared(streams.drop_last(), outputs, windows);
        let s = streams.last();
        if !before.complete || s.pipewire is Some {
            Preparation { streams: before.streams.push(s), ..before }
        } else {
            match source_size(s.source, outputs, windows) {
                None => Preparation {
                    streams: before.streams.push(s),
                    complete: false,
                    ..before
                },
                Some((w, h)) => Preparation {
                    streams: before.streams.push(StreamView { width: w, height: h, ..s }),
                    specs: before.specs.push(
                        StartView {
                            path: s.path,
                            source: s.source,
                            width: w,
                            height: h,
                            draw_cursor: s.cursor_mode != 0,
                        },
                    ),
                    complete: true,
                },
            }
        }
    }
}

/// A worker that was started for a stream.
pub struct Started {
    pub path: String,
    pub handle: u64,
    pub node: u32,
}

/// The index of the first stream of a path, and the number of streams where there is
/// none.
pub open spec fn stream_at(streams: Seq<StreamView>, path: Seq<char>) -> nat
    decreases streams.len(),
{
    if streams.len() == 0 || streams[0].path == path {
        0
    } else {
        1 + stream_at(streams.skip(1), path)
    }
}

/// The streams with their workers; a worker for a stream that is gone is not kept.
pub open spec fn with_workers(streams: Seq<StreamView>, started: Seq<Started>) -> Seq<StreamView>
    decreases started.len(),
{
    if started.len() == 0 {
        streams
    } else {
        let before = with_workers(streams, started.drop_last());
        let s = started.last();
        let i = stream_at(before, s.path@) as int;
        if i < before.len() {
            before.update(i, StreamView { pipewire: Some(s.handle), ..before[i] })
        } else {
            before
        }
    }
}

/// The workers that are kept, in order: the clients of their streams are told the
/// nodes.
pub open spec fn announced(streams: Seq<StreamView>, started: Seq<Started>) -> Seq<(Seq<char>, u32)>
    decreases started.len(),
{
    if started.len() == 0 {
        Seq::empty()
    } else {
        let before = announced(streams, started.drop_last());
        let s = started.last();
        if stream_at(streams, s.path@) < streams.len() {
            before.push((s.path@, s.node))
        } else {
            before
        }
    }
}

proof fn lemma_workers_keep_paths(streams: Seq<StreamView>, started: Seq<Started>)
    ensures
        with_workers(streams, started).len() == streams.len(),
        forall|i: int|
            0 <= i < streams.len() ==> (#[trigger] with_workers(streams, started)[i]).path
                == streams[i].path,
    decreases started.len(),
{
    if started.len() > 0 {
        lemma_workers_keep_paths(streams, started.drop_last());
    }
}

proof fn lemma_stream_at_same_paths(a: Seq<StreamView>, b: Seq<StreamView>, path: Seq<char>)
    requires
        a.len() == b.len(),
        forall|i: int| 0 <= i < a.len() ==> (#[trigger] a[i]).path == b[i].path,
    ensures
        stream_at(a, path) == stream_at(b, path),
    decreases a.len(),
{
    if a.len() > 0 {
        assert(a[0].path == b[0].path);
        let (x, y) = (a.skip(1), b.skip(1));
        assert forall|i: int| 0 <= i < x.len() implies (#[trigger] x[i]).path == y[i].path by {
            assert(a[i + 1].path == b[i + 1].path);
        }
        lemma_stream_at_same_paths(x, y, path);
    }
}

/// What the announcements say.
pub open spec fn announcement_views(s: Seq<(String, u32)>) -> Seq<(Seq<char>, u32)> {
    s.map_values(|a: (String, u32)| (a.0@, a.1))
}

impl CastSession {
    /// As many streams as there are have a slot.
    pub open spec fn wf(&self) -> bool {
        self.stream_slots <= MAX_STREAMS_PER_SESSION
    }

    fn refused(&self, sender: &Option<String>) -> (r: Option<BusError>)
        ensures
            match refusal(self@, *sender) {
                Some((kind, message)) => r is Some && (r->0).kind == kind && (r->0).message@
                    == message,
                None => r is None,
            },
    {
        match self.not_owner(sender) {
            Some(e) => Some(e),
            None => if self.closed {
                Some(error(BusErrorKind::Failed, "session is closed"))
            } else {
                None
            },
        }
    }

    fn not_owner(&self, sender: &Option<String>) -> (r: Option<BusError>)
        ensures
            match refusal(CastView { closed: false, ..self@ }, *sender) {
                Some((kind, message)) => r is Some && (r->0).kind == kind && (r->0).message@
                    == message,
                None => r is None,
            },
    {
        match sender {
            None => Some(error(BusErrorKind::Failed, "no sender on screencast DBus call")),
            Some(sender) => if text_eq(sender.as_str(), self.owner.as_str()) {
                None
            } else {
                Some(
                    error(
                        BusErrorKind::AccessDenied,
                        "screencast session belongs to another DBus client",
                    ),
                )
            },
        }
    }

    /// A client asks for a stream. It gets one with a path of its own, which has a slot
    /// until it is known whether it could be made known on the bus.
    pub fn record(
        &mut self,
        ids: &mut IdCounter,
        sender: &Option<String>,
        request: &StreamRequest,
        cursor: Option<u32>,
        outputs: &Vec<OutputSnapshot>,
        windows: &Vec<WindowSnapshot>,
    ) -> (r: Result<RecordedStream, BusError>)
        requires
            old(self).wf(),
        ensures
            final(self).wf(),
            match refusal(old(self)@, *sender) {
                Some((kind, message)) => fails(r, kind, message) && final(self)@ == old(self)@
                    && final(ids).next == old(ids).next,
                None => match stream_request(*request, cursor, outputs@, windows@) {
                    Err(message) => fails(r, BusErrorKind::InvalidArgs, message) && final(self)@
                        == old(self)@ && final(ids).next == old(ids).next,
                    Ok((source, width, height, cursor_mode)) => {
                        &&& final(ids).next == if old(ids).next == u64::MAX {
                            0
                        } else {
                            (old(ids).next + 1) as u64
                        }
                        &&& if old(self)@.stream_slots < MAX_STREAMS_PER_SESSION {
                            &&& r is Ok
                            &&& r->Ok_0@ == (StreamView {
                                path: object_path_of(ObjectKind::Stream, old(ids).next as nat),
                                source,
                                width,
                                height,
                                cursor_mode,
                                pipewire: None,
                            })
                            &&& final(self)@ == (CastView {
                                stream_slots: (old(self)@.stream_slots + 1) as usize,
                                ..old(self)@
                            })
                        } else {
                            &&& fails(
                                r,
                                BusErrorKind::LimitsExceeded,
                                "too many streams in screencast session"@,
                            )
                            &&& final(self)@ == old(self)@
                        }
                    },
                },
            },
    {
        if let Some(e) = self.refused(sender) {
            return Err(e);
        }
        let (source, width, height, cursor_mode): (ScreencastSource, u32, u32, u32) = match request {
            StreamRequest::Monitor { connector } => match find_output_size(
                outputs,
                connector.as_str(),
            ) {
                Some((w, h)) => {
                    let mode: u32 = match cursor {
                        Some(mode) => if mode == 0 {
                            0
                        } else {
                            1
                        },
                        None => 1,
                    };
                    (ScreencastSource::Output(connector.clone()), w, h, mode)
                },
                None => {
                    let mut message: String = "unknown output connector: ".to_owned();
                    message.append(connector.as_str());
                    return Err(BusError { kind: BusErrorKind::InvalidArgs, message });
                },
            },
            StreamRequest::Window { id } => match id {
                None => {
                    return Err(error(BusErrorKind::InvalidArgs, "missing window-id"));
                },
                Some(id) => match find_window_size(windows, *id) {
                    None => {
                        return Err(error(BusErrorKind::InvalidArgs, "unknown window-id"));
                    },
                    Some((w, h)) => {
                        let mode: u32 = match cursor {
                            Some(mode) => mode,
                            None => 0,
                        };
                        (ScreencastSource::Window(*id), w, h, mode)
                    },
                },
            },
        };
        let id: u64 = ids.take();
        proof {
            law_object_paths_are_valid(ObjectKind::Stream, id as nat);
        }
        let path: String = match checked_path(numbered_path(ObjectKind::Stream, id)) {
            Ok(path) => path,
            Err(message) => {
                return Err(error(BusErrorKind::Failed, message));
            },
        };
        if self.stream_slots >= MAX_STREAMS_PER_SESSION {
            return Err(
                error(BusErrorKind::LimitsExceeded, "too many streams in screencast session"),
            );
        }
        self.stream_slots = self.stream_slots + 1;
        Ok(RecordedStream { path, source, width, height, cursor_mode, pipewire: None })
    }

    /// A stream was made known on the bus, or not. It belongs to the session if it was
    /// and the session is not closed meanwhile; else its slot is free again. Gives the
    /// answer, and whether the stream's object is taken back.
    pub fn recorded(&mut self, stream: RecordedStream, served: &Result<(), String>) -> (r: Served)
        requires
            old(self).wf(),
            old(self).stream_slots > 0,
        ensures
            final(self).wf(),
            match served {
                Err(message) => {
                    &&& fails(r.result, BusErrorKind::Failed, message@)
                    &&& !r.abandon
                    &&& final(self)@ == (CastView {
                        stream_slots: (old(self)@.stream_slots - 1) as usize,
                        ..old(self)@
                    })
                },
                Ok(_) => if old(self)@.closed {
                    &&& fails(r.result, BusErrorKind::Failed, "session is closed"@)
                    &&& r.abandon
                    &&& final(self)@ == (CastView {
                        stream_slots: (old(self)@.stream_slots - 1) as usize,
                        ..old(self)@
                    })
                } else {
                    &&& r.result is Ok
                    &&& !r.abandon
                    &&& final(self)@ == (CastView {
                        streams: old(self)@.streams.push(stream@),
                        ..old(self)@
                    })
                },
            },
    {
        match served {
            Err(message) => {
                self.stream_slots = self.stream_slots - 1;
                Served {
                    result: Err(error(BusErrorKind::Failed, message.as_str())),
                    abandon: false,
                }
            },
            Ok(_) => {
                if self.closed {
                    self.stream_slots = self.stream_slots - 1;
                    return Served {
                        result: Err(error(BusErrorKind::Failed, "session is closed")),
                        abandon: true,
                    };
                }
                let ghost before = self@.streams;
                let ghost view = stream@;
                self.streams.push(stream);
                assert(self@.streams =~= before.push(view));
                Served { result: Ok(()), abandon: false }
            },
        }
    }

    fn drop_dead(&mut self, alive: &Vec<bool>)
        requires
            alive@.len() == old(self).streams@.len(),
        ensures
            final(self)@ == (CastView {
                streams: Seq::new(
                    old(self)@.streams.len(),
                    |i: int| without_dead(old(self)@.streams[i], alive@[i]),
                ),
                ..old(self)@
            }),
    {
        let ghost before = self@;
        let ghost goal = Seq::new(
            before.streams.len(),
            |i: int| without_dead(before.streams[i], alive@[i]),
        );
        let mut i: usize = 0;
        while i < self.streams.len()
            invariant
                i <= self.streams@.len(),
                self.streams@.len() == before.streams.len(),
                alive@.len() == before.streams.len(),
                goal == Seq::new(
                    before.streams.len(),
                    |i: int| without_dead(before.streams[i], alive@[i]),
                ),
                self@ == (CastView { streams: self@.streams, ..before }),
                forall|j: int| 0 <= j < i ==> self@.streams[j] == #[trigger] goal[j],
                forall|j: int|
                    i <= j < before.streams.len() ==> self@.streams[j]
                        == #[trigger] before.streams[j],
            decreases self.streams@.len() - i,
        {
            let ghost now = self@.streams;
            assert(before.streams[i as int] == self.streams@[i as int]@);
            if !alive[i] {
                self.streams[i].pipewire = None;
            }
            assert(self.streams@[i as int]@ == goal[i as int]);
            assert(forall|j: int|
                0 <= j < before.streams.len() && j != i ==> self@.streams[j] == now[j]);
            i += 1;
        }
        assert(self@.streams =~= goal);
    }

    /// The session is to start: its streams that have no worker, or whose worker ended,
    /// get their sizes anew and are to be started. `alive` says of each stream whether
    /// its worker runs. A session starts once at a time.
    pub fn start(
        &mut self,
        sender: &Option<String>,
        outputs: &Vec<OutputSnapshot>,
        windows: &Vec<WindowSnapshot>,
        alive: &Vec<bool>,
    ) -> (r: Result<Vec<StartSpec>, BusError>)
        requires
            old(self).wf(),
            alive@.len() == old(self).streams@.len(),
        ensures
            final(self).wf(),
            match refusal(old(self)@, *sender) {
                Some((kind, message)) => fails(r, kind, message) && final(self)@ == old(self)@,
                None => if old(self)@.starting {
                    fails(r, BusErrorKind::Failed, "screencast session is already starting"@)
                        && final(self)@ == old(self)@
                } else if old(self)@.streams.len() == 0 {
                    fails(r, BusErrorKind::Failed, "session has no streams"@) && final(self)@
                        == old(self)@
                } else {
                    let live = Seq::new(
                        old(self)@.streams.len(),
                        |i: int| without_dead(old(self)@.streams[i], alive@[i]),
                    );
                    let p = prepared(live, outputs@, windows@);
                    &&& final(self)@ == (CastView {
                        streams: p.streams,
                        starting: p.complete,
                        ..old(self)@
                    })
                    &&& p.complete ==> r is Ok && start_views(r->Ok_0@) == p.specs
                    &&& !p.complete ==> fails(
                        r,
                        BusErrorKind::Failed,
                        "capture source is no longer available"@,
                    )
                },
            },
    {
        if let Some(e) = self.refused(sender) {
            return Err(e);
        }
        if self.starting {
            return Err(error(BusErrorKind::Failed, "screencast session is already starting"));
        }
        if self.streams.len() == 0 {
            return Err(error(BusErrorKind::Failed, "session has no streams"));
        }
        self.drop_dead(alive);
        let ghost live = self@.streams;
        let ghost before = self@;
        let mut specs: Vec<StartSpec> = Vec::new();
        let mut complete: bool = true;
        let mut i: usize = 0;
        proof {
            assert(live.take(0) =~= Seq::<StreamView>::empty());
            assert(start_views(specs@) =~= Seq::<StartView>::empty());
        }
        while i < self.streams.len()
            invariant
                i <= self.streams@.len(),
                self.streams@.len() == live.len(),
                self@ == (CastView { streams: self@.streams, ..before }),
                complete == prepared(live.take(i as int), outputs@, windows@).complete,
                start_views(specs@) == prepared(live.take(i as int), outputs@, windows@).specs,
                prepared(live.take(i as int), outputs@, windows@).streams.len() == i,
                forall|j: int|
                    0 <= j < i ==> self@.streams[j] == #[trigger] prepared(
                        live.take(i as int),
                        outputs@,
                        windows@,
                    ).streams[j],
                forall|j: int| i <= j < live.len() ==> self@.streams[j] == #[trigger] live[j],
            decreases self.streams@.len() - i,
        {
            let ghost now = self@.streams;
            let ghost p = prepared(live.take(i as int), outputs@, windows@);
            let ghost q = prepared(live.take(i + 1), outputs@, windows@);
            proof {
                assert(live[i as int] == self.streams@[i as int]@);
                assert(live.take(i + 1).drop_last() =~= live.take(i as int));
                assert(live.take(i + 1).last() == live[i as int]);
            }
            if complete && self.streams[i].pipewire.is_none() {
                match current_size(&self.streams[i].source, outputs, windows) {
                    None => {
                        complete = false;
                    },
                    Some((width, height)) => {
                        self.streams[i].width = width;
                        self.streams[i].height = height;
                        let ghost sofar = specs@;
                        let spec_of: StartSpec = StartSpec {
                            path: self.streams[i].path.clone(),
                            source: copy_source(&self.streams[i].source),
                            width,
                            height,
                            draw_cursor: self.streams[i].cursor_mode != 0,
                        };
                        let ghost said = spec_of@;
                        specs.push(spec_of);
                        assert(start_views(specs@) =~= start_views(sofar).push(said));
                    },
                }
            }
            proof {
                assert(self.streams@[i as int]@ == q.streams[i as int]);
                assert(forall|j: int| 0 <= j < live.len() && j != i ==> self@.streams[j] == now[j]);
                assert(forall|j: int| 0 <= j < i ==> q.streams[j] == p.streams[j]);
            }
            i += 1;
        }
        proof {
            assert(live.take(live.len() as int) =~= live);
            assert(self@.streams =~= prepared(live, outputs@, windows@).streams);
        }
        if !complete {
            return Err(error(BusErrorKind::Failed, "capture source is no longer available"));
        }
        self.starting = true;
        Ok(specs)
    }

    fn find_stream(&self, path: &str) -> (r: Option<usize>)
        ensures
            match r {
                Some(i) => i < self@.streams.len() && i == stream_at(self@.streams, path@),
                None => stream_at(self@.streams, path@) >= self@.streams.len(),
            },
    {
        let ghost all = self@.streams;
        let mut i: usize = 0;
        assert(all.skip(0) =~= all);
        while i < self.streams.len()
            invariant
                all == self@.streams,
                i <= all.len(),
                stream_at(all, path@) == i + stream_at(all.skip(i as int), path@),
            decreases all.len() - i,
        {
            assert(all.skip(i as int)[0] == self.streams@[i as int]@);
            assert(all.skip(i as int).skip(1) =~= all.skip(i + 1));
            if text_eq(self.streams[i].path.as_str(), path) {
                return Some(i);
            }
            i += 1;
        }
        None
    }

    /// The workers were started, or one of them could not be. Gives the nodes that
    /// clients are told, by the paths of their streams. Nothing is kept where one could
    /// not be started, or the session was stopped meanwhile.
    pub fn started(&mut self, started: &Result<Vec<Started>, String>) -> (r: Result<
        Vec<(String, u32)>,
        BusError,
    >)
        requires
            old(self).wf(),
        ensures
            final(self).wf(),
            match started {
                Err(message) => fails(r, BusErrorKind::Failed, message@) && final(self)@
                    == old(self)@,
                Ok(workers) => if old(self)@.closed {
                    fails(r, BusErrorKind::Failed, "session was stopped while starting"@)
                        && final(self)@ == old(self)@
                } else {
                    &&& final(self)@ == (CastView {
                        streams: with_workers(old(self)@.streams, workers@),
                        ..old(self)@
                    })
                    &&& r is Ok
                    &&& announcement_views(r->Ok_0@) == announced(old(self)@.streams, workers@)
                },
            },
    {
        match started {
            Err(message) => Err(error(BusErrorKind::Failed, message.as_str())),
            Ok(workers) => {
                if self.closed {
                    return Err(error(BusErrorKind::Failed, "session was stopped while starting"));
                }
                let ghost before = self@;
                let mut out: Vec<(String, u32)> = Vec::new();
                let mut k: usize = 0;
                proof {
                    assert(workers@.take(0) =~= Seq::<Started>::empty());
                    assert(announcement_views(out@) =~= Seq::<(Seq<char>, u32)>::empty());
                }
                while k < workers.len()
                    invariant
                        k <= workers@.len(),
                        self@ == (CastView {
                            streams: with_workers(before.streams, workers@.take(k as int)),
                            ..before
                        }),
                        announcement_views(out@) == announced(
                            before.streams,
                            workers@.take(k as int),
                        ),
                    decreases workers@.len() - k,
                {
                    let ghost now = self@.streams;
                    proof {
                        assert(workers@.take(k + 1).drop_last() =~= workers@.take(k as int));
                        assert(workers@.take(k + 1).last() == workers@[k as int]);
                        lemma_workers_keep_paths(before.streams, workers@.take(k as int));
                        lemma_stream_at_same_paths(
                            now,
                            before.streams,
                            workers@[k as int].path@,
                        );
                    }
                    if let Some(i) = self.find_stream(workers[k].path.as_str()) {
                        assert(now[i as int] == self.streams@[i as int]@);
                        self.streams[i].pipewire = Some(workers[k].handle);
                        assert(self@.streams =~= now.update(i as int, self.streams@[i as int]@));
                        let ghost sofar = out@;
                        out.push((workers[k].path.clone(), workers[k].node));
                        assert(announcement_views(out@) =~= announcement_views(sofar).push(
                            (workers@[k as int].path@, workers@[k as int].node),
                        ));
                    }
                    k += 1;
                }
                assert(workers@.take(workers@.len() as int) =~= workers@);
                Ok(out)
            },
        }
    }

    /// The start is over, well or not: the session may start again.
    pub fn start_done(&mut self)
        requires
            old(self).wf(),
        ensures
            final(self).wf(),
            final(self)@ == (CastView { starting: false, ..old(self)@ }),
    {
        let ghost before = self@.streams;
        self.starting = false;
        assert(self@.streams =~= before);
    }

    /// Closes the session. Gives its streams, which end; nothing where it was closed
    /// before.
    pub fn close_and_take_streams(&mut self) -> (r: Option<Vec<RecordedStream>>)
        requires
            old(self).wf(),
        ensures
            final(self).wf(),
            if old(self)@.closed {
                r is None && final(self)@ == old(self)@
            } else {
                &&& r is Some && stream_views((r->0)@) == old(self)@.streams
                &&& final(self)@ == (CastView {
                    closed: true,
                    streams: Seq::empty(),
                    ..old(self)@
                })
            },
    {
        if self.closed {
            return None;
        }
        self.closed = true;
        let mut taken: Vec<RecordedStream> = Vec::new();
        taken.append(&mut self.streams);
        assert(self@.streams =~= Seq::<StreamView>::empty());
        assert(stream_views(taken@) =~= old(self)@.streams);
        Some(taken)
    }

    /// The session is to stop. Gives its streams, which end; nothing where it was
    /// stopped before.
    pub fn stop(&mut self, sender: &Option<String>) -> (r: Result<
        Option<Vec<RecordedStream>>,
        BusError,
    >)
        requires
            old(self).wf(),
        ensures
            final(self).wf(),
            match refusal(CastView { closed: false, ..old(self)@ }, *sender) {
                Some((kind, message)) => fails(r, kind, message) && final(self)@ == old(self)@,
                None => if old(self)@.closed {
                    r is Ok && r->Ok_0 is None && final(self)@ == old(self)@
                } else {
                    &&& r is Ok && r->Ok_0 is Some
                    &&& stream_views((r->Ok_0->0)@) == old(self)@.streams
                    &&& final(self)@ == (CastView {
                        closed: true,
                        streams: Seq::empty(),
                        ..old(self)@
                    })
                },
            },
    {
        if let Some(e) = self.not_owner(sender) {
            return Err(e);
        }
        Ok(self.close_and_take_streams())
    }
}

/// What could not be done when a session stopped.
#[derive(Clone, Copy, Debug, PartialEq, Eq, Structural)]
pub enum CleanupStep {
    SignalStream,
    StreamPath,
    RemoveStream,
    SignalSession,
}

/// What is said of something that could not be done.
pub open spec fn cleanup_text(step: CleanupStep, path: Seq<char>, reason: Seq<char>) -> Seq<char> {
    match step {
        CleanupStep::SignalStream => "could not signal "@ + path + " closed: "@ + reason,
        CleanupStep::StreamPath => "invalid stream path "@ + path + ": "@ + reason,
        CleanupStep::RemoveStream => "could not remove "@ + path + ": "@ + reason,
        CleanupStep::SignalSession => "could not signal session closed: "@ + reason,
    }
}

/// What is said of something that could not be done.
pub fn cleanup_error(step: CleanupStep, path: &str, reason: &str) -> (r: String)
    ensures
        r@ == cleanup_text(step, path@, reason@),
{
    match step {
        CleanupStep::SignalStream => {
            let mut text: String = "could not signal ".to_owned();
            text.append(path);
            text.append(" closed: ");
            text.append(reason);
            text
        },
        CleanupStep::StreamPath => {
            let mut text: String = "invalid stream path ".to_owned();
            text.append(path);
            text.append(": ");
            text.append(reason);
            text
        },
        CleanupStep::RemoveStream => {
            let mut text: String = "could not remove ".to_owned();
            text.append(path);
            text.append(": ");
            text.append(reason);
            text
        },
        CleanupStep::SignalSession => {
            let mut text: String = "could not signal session closed: ".to_owned();
            text.append(reason);
            text
        },
    }
}

/// What the client is answered when its session stopped.
pub fn stop_result(errors: &Vec<String>) -> (r: Result<(), BusError>)
    ensures
        if errors@.len() == 0 {
            r is Ok
        } else {
            fails(r, BusErrorKind::Failed, joined(texts(errors@), "; "@))
        },
{
    if errors.len() == 0 {
        Ok(())
    } else {
        Err(BusError { kind: BusErrorKind::Failed, message: join(errors, "; ") })
    }
}

/// A closed session stays closed, and takes no more streams: whatever is asked of it is
/// refused.
pub proof fn law_closed_sessions_refuse(session: CastView, sender: Option<String>)
    requires
        session.closed,
    ensures
        refusal(session, sender) is Some,
{
}

} // verus!
