//! The portal through which applications share the screen: its sessions, and the one
//! stream that each may have.

use vstd::prelude::*;
use vstd::string::*;

use crate::assoc::Assoc;
use crate::cast_session::{fails, BusError, BusErrorKind, IdCounter};
use crate::text::{decimal, text_eq, to_decimal};

verus! {

/// How many sessions there are at most.
pub const MAX_PORTAL_SESSIONS: usize = 8;

pub const SOURCE_TYPE_MONITOR: u32 = 1;

pub const SOURCE_TYPE_WINDOW: u32 = 2;

pub const SOURCE_TYPE_VIRTUAL: u32 = 4;

/// All types of sources that can be shared.
pub const SOURCE_TYPES: u32 = 7;

/// The pointer is hidden, or drawn into the picture.
pub const CURSOR_MODES: u32 = 3;

/// The version of the interface that is spoken.
pub const PORTAL_VERSION: u32 = 3;

/// The version of the sessions' interface.
pub const SESSION_VERSION: u32 = 1;

pub const RESPONSE_SUCCESS: u32 = 0;

pub const RESPONSE_CANCELLED: u32 = 1;

pub const RESPONSE_OTHER_ERROR: u32 = 2;

/// Where the stream of a session stands.
#[derive(Clone, Copy, Debug, PartialEq, Eq, Structural)]
pub enum PortalStreamState {
    Idle,
    Starting,
    /// A worker, by its number, produces it.
    Active(u64),
    Closed,
}

/// A session.
pub struct SessionEntry {
    pub owner: String,
    /// It is known on the bus; before, nobody can use it.
    pub registered: bool,
    /// Whether the pointer is drawn; unknown until the client chose.
    pub draw_cursor: Option<bool>,
    /// What the client lets the user choose from; unknown until it said so.
    pub source_types: Option<u32>,
    pub stream: PortalStreamState,
}

/// What a session is.
pub struct EntryView {
    pub owner: Seq<char>,
    pub registered: bool,
    pub draw_cursor: Option<bool>,
    pub source_types: Option<u32>,
    pub stream: PortalStreamState,
}

impl View for SessionEntry {
    type V = EntryView;

    open spec fn view(&self) -> EntryView {
        EntryView {
            owner: self.owner@,
            registered: self.registered,
            draw_cursor: self.draw_cursor,
            source_types: self.source_types,
            stream: self.stream,
        }
    }
}

impl SessionEntry {
    /// A session that nobody can use yet.
    pub fn new(owner: String) -> (r: Self)
        ensures
            r@ == (EntryView {
                owner: owner@,
                registered: false,
                draw_cursor: None,
                source_types: None,
                stream: PortalStreamState::Idle,
            }),
    {
        SessionEntry {
            owner,
            registered: false,
            draw_cursor: None,
            source_types: None,
            stream: PortalStreamState::Idle,
        }
    }

    /// Closes the session for good. Gives the worker that ends, if one runs.
    pub fn close(&mut self) -> (r: Option<u64>)
        ensures
            final(self)@ == closed(old(self)@),
            r == match old(self)@.stream {
                PortalStreamState::Active(worker) => Some(worker),
                _ => None,
            },
    {
        let before: PortalStreamState = self.stream;
        self.stream = PortalStreamState::Closed;
        match before {
            PortalStreamState::Active(worker) => Some(worker),
            _ => None,
        }
    }

    /// The client says what it lets the user choose from, and whether the pointer is
    /// drawn. Gives the response.
    pub fn select_sources(&mut self, types: Option<u32>, cursor_mode: Option<u32>) -> (r: u32)
        ensures
            ({
                let wanted = (match types {
                    Some(types) => types,
                    None => SOURCE_TYPE_MONITOR,
                }) & SOURCE_TYPES;
                let cursor = match cursor_mode {
                    Some(mode) => mode,
                    None => 1,
                };
                if wanted == 0 {
                    r == RESPONSE_OTHER_ERROR && final(self)@ == old(self)@
                } else {
                    r == RESPONSE_SUCCESS && final(self)@ == (EntryView {
                        draw_cursor: Some(cursor & 2 != 0),
                        source_types: Some(wanted),
                        ..old(self)@
                    })
                }
            }),
    {
        let wanted: u32 = (match types {
            Some(types) => types,
            None => SOURCE_TYPE_MONITOR,
        }) & SOURCE_TYPES;
        if wanted == 0 {
            return RESPONSE_OTHER_ERROR;
        }
        let cursor: u32 = match cursor_mode {
            Some(mode) => mode,
            None => 1,
        };
        self.draw_cursor = Some(cursor & 2 != 0);
        self.source_types = Some(wanted);
        RESPONSE_SUCCESS
    }

    /// The session is to start. It can where the client chose its sources and the stream
    /// is idle; gives what it chose, and holds the stream while the user is asked.
    pub fn start(&mut self) -> (r: Option<(bool, u32, StartReservation)>)
        ensures
            ({
                let ready = old(self)@.draw_cursor is Some && old(self)@.source_types is Some
                    && old(self)@.stream is Idle;
                &&& r is Some == ready
                &&& ready ==> (r->0).0 == old(self)@.draw_cursor->0 && (r->0).1
                    == old(self)@.source_types->0
                &&& final(self)@ == if ready {
                    begun(old(self)@)
                } else {
                    old(self)@
                }
            }),
    {
        match (self.draw_cursor, self.source_types) {
            (Some(draw_cursor), Some(source_types)) => match StartReservation::begin(self) {
                Some(reservation) => Some((draw_cursor, source_types, reservation)),
                None => None,
            },
            _ => None,
        }
    }
}

/// A session whose stream is about to start, where it was idle.
pub open spec fn begun(e: EntryView) -> EntryView {
    if e.stream is Idle {
        EntryView { stream: PortalStreamState::Starting, ..e }
    } else {
        e
    }
}

/// A session whose stream started, where it was about to.
pub open spec fn completed(e: EntryView, worker: u64) -> EntryView {
    if e.stream is Starting {
        EntryView { stream: PortalStreamState::Active(worker), ..e }
    } else {
        e
    }
}

/// A session whose stream is idle again, where it was about to start.
pub open spec fn cancelled(e: EntryView) -> EntryView {
    if e.stream is Starting {
        EntryView { stream: PortalStreamState::Idle, ..e }
    } else {
        e
    }
}

/// A session that is closed for good.
pub open spec fn closed(e: EntryView) -> EntryView {
    EntryView { stream: PortalStreamState::Closed, ..e }
}

/// Holds a stream from the moment it is to start until it does or does not.
pub struct StartReservation {}

impl StartReservation {
    /// Holds the stream of a session, where it is idle.
    pub fn begin(entry: &mut SessionEntry) -> (r: Option<Self>)
        ensures
            r is Some == (old(entry)@.stream is Idle),
            final(entry)@ == begun(old(entry)@),
    {
        match entry.stream {
            PortalStreamState::Idle => {
                entry.stream = PortalStreamState::Starting;
                Some(StartReservation {})
            },
            _ => None,
        }
    }

    /// The stream started. Where the session was closed meanwhile, the worker is given
    /// back.
    pub fn complete(self, entry: &mut SessionEntry, worker: u64) -> (r: Result<(), u64>)
        ensures
            r == if old(entry)@.stream is Starting {
                Ok::<(), u64>(())
            } else {
                Err::<(), u64>(worker)
            },
            final(entry)@ == completed(old(entry)@, worker),
    {
        match entry.stream {
            PortalStreamState::Starting => {
                entry.stream = PortalStreamState::Active(worker);
                Ok(())
            },
            _ => Err(worker),
        }
    }

    /// The stream did not start: it is idle again, unless the session was closed
    /// meanwhile.
    pub fn cancel(self, entry: &mut SessionEntry)
        ensures
            final(entry)@ == cancelled(old(entry)@),
    {
        if let PortalStreamState::Starting = entry.stream {
            entry.stream = PortalStreamState::Idle;
        }
    }
}

/// What came of asking the user and starting a worker.
#[derive(Clone, Copy, Debug, PartialEq, Eq, Structural)]
pub enum StartOutcome {
    /// The user could not be asked.
    NotAsked,
    /// The user chose nothing.
    Cancelled,
    /// The worker could not be started.
    Failed,
    Started { worker: u64, node: u32, width: u32, height: u32, source_type: u32 },
}

/// The stream that the application is told of. It lies at the origin.
#[derive(Clone, Copy, Debug, PartialEq, Eq, Structural)]
pub struct StreamInfo {
    pub node: u32,
    pub width: u32,
    pub height: u32,
    pub source_type: u32,
}

/// What the application is answered, and the worker that ends because nobody wants it
/// any more.
#[derive(Clone, Copy, Debug, PartialEq, Eq, Structural)]
pub struct StartReply {
    pub response: u32,
    pub stream: Option<StreamInfo>,
    pub unwanted: Option<u64>,
}

/// The start of a session is over.
pub fn finish_start(
    entry: &mut SessionEntry,
    reservation: StartReservation,
    outcome: StartOutcome,
) -> (r: StartReply)
    ensures
        match outcome {
            StartOutcome::Started { worker, node, width, height, source_type } => {
                let held = old(entry)@.stream is Starting;
                &&& final(entry)@ == completed(old(entry)@, worker)
                &&& r == if held {
                    StartReply {
                        response: RESPONSE_SUCCESS,
                        stream: Some(StreamInfo { node, width, height, source_type }),
                        unwanted: None,
                    }
                } else {
                    StartReply {
                        response: RESPONSE_OTHER_ERROR,
                        stream: None,
                        unwanted: Some(worker),
                    }
                }
            },
            _ => {
                &&& final(entry)@ == cancelled(old(entry)@)
                &&& r == (StartReply {
                    response: if outcome is Cancelled {
                        RESPONSE_CANCELLED
                    } else {
                        RESPONSE_OTHER_ERROR
                    },
                    stream: None,
                    unwanted: None,
                })
            },
        },
{
    match outcome {
        StartOutcome::Started { worker, node, width, height, source_type } => {
            match reservation.complete(entry, worker) {
                Ok(_) => StartReply {
                    response: RESPONSE_SUCCESS,
                    stream: Some(StreamInfo { node, width, height, source_type }),
                    unwanted: None,
                },
                Err(worker) => StartReply {
                    response: RESPONSE_OTHER_ERROR,
                    stream: None,
                    unwanted: Some(worker),
                },
            }
        },
        StartOutcome::Cancelled => {
            reservation.cancel(entry);
            StartReply { response: RESPONSE_CANCELLED, stream: None, unwanted: None }
        },
        _ => {
            reservation.cancel(entry);
            StartReply { response: RESPONSE_OTHER_ERROR, stream: None, unwanted: None }
        },
    }
}

/// The sessions by their paths; each is known by a number of its own.
pub struct SessionMap {
    pub by_path: Assoc<String, u64>,
}

impl SessionMap {
    pub open spec fn wf(&self) -> bool {
        self.by_path.wf()
    }

    /// How many sessions there are.
    pub open spec fn count(&self) -> nat {
        self.by_path.entries@.len()
    }

    pub fn new() -> (r: Self)
        ensures
            r.wf(),
            r.by_path@ == Map::<Seq<char>, u64>::empty(),
            r.count() == 0,
    {
        SessionMap { by_path: Assoc::new() }
    }

    /// Takes a path for a session, unless it is taken or there are too many. Gives
    /// whether it did.
    pub fn reserve_session(&mut self, path: String, session: u64) -> (r: bool)
        requires
            old(self).wf(),
        ensures
            final(self).wf(),
            r == (old(self).count() < MAX_PORTAL_SESSIONS && !old(self).by_path@.contains_key(
                path@,
            )),
            final(self).by_path@ == if r {
                old(self).by_path@.insert(path@, session)
            } else {
                old(self).by_path@
            },
    {
        if self.by_path.entries.len() >= MAX_PORTAL_SESSIONS || self.by_path.contains(&path) {
            return false;
        }
        self.by_path.insert(path, session);
        true
    }

    /// Gives up a path, where it is this session's. Gives whether it was.
    pub fn remove_session_if_same(&mut self, path: &String, expected: u64) -> (r: bool)
        requires
            old(self).wf(),
        ensures
            final(self).wf(),
            r == (old(self).by_path@.contains_key(path@) && old(self).by_path@[path@] == expected),
            final(self).by_path@ == if r {
                old(self).by_path@.remove(path@)
            } else {
                old(self).by_path@
            },
    {
        let same: bool = match self.by_path.get(path) {
            Some(current) => *current == expected,
            None => false,
        };
        if !same {
            return false;
        }
        let _ = self.by_path.remove(path);
        true
    }

    /// The session of a path.
    pub fn session_at(&self, path: &String) -> (r: Option<u64>)
        requires
            self.wf(),
        ensures
            r == if self.by_path@.contains_key(path@) {
                Some(self.by_path@[path@])
            } else {
                None
            },
    {
        match self.by_path.get(path) {
            Some(session) => Some(*session),
            None => None,
        }
    }
}

/// The portal.
pub struct Portal {
    pub sessions: SessionMap,
    /// All sessions that were not forgotten, by their numbers.
    pub entries: Assoc<u64, SessionEntry>,
    pub next_session: u64,
}

/// What is wrong with a call that does not say whom it comes from.
pub open spec fn no_sender() -> Seq<char> {
    "no sender on portal screencast DBus call"@
}

fn sender_missing() -> (r: BusError)
    ensures
        r.kind == BusErrorKind::Failed,
        r.message@ == no_sender(),
{
    BusError {
        kind: BusErrorKind::Failed,
        message: "no sender on portal screencast DBus call".to_owned(),
    }
}

/// What an application is answered that asked for a session.
pub struct SessionReply {
    pub response: u32,
    /// The name it is known by.
    pub token: Option<String>,
}

impl Portal {
    /// Every path leads to a session, and the numbers given so far are below the next.
    pub open spec fn wf(&self) -> bool {
        &&& self.sessions.wf()
        &&& self.entries.wf()
        &&& forall|p: Seq<char>| #[trigger]
            self.sessions.by_path@.contains_key(p) ==> self.entries@.contains_key(
                self.sessions.by_path@[p],
            )
        &&& forall|n: u64| #[trigger] self.entries@.contains_key(n) ==> n < self.next_session
    }

    pub fn new() -> (r: Self)
        ensures
            r.wf(),
            r.sessions.by_path@ == Map::<Seq<char>, u64>::empty(),
            r.entries@ == Map::<u64, SessionEntry>::empty(),
            r.next_session == 0,
    {
        Portal { sessions: SessionMap::new(), entries: Assoc::new(), next_session: 0 }
    }

    /// An application asks for a session at a path. Gives its number; none where the
    /// path is taken or there are too many.
    pub fn create_session(&mut self, path: String, sender: &Option<String>) -> (r: Result<
        Option<u64>,
        BusError,
    >)
        requires
            old(self).wf(),
            old(self).next_session < u64::MAX,
        ensures
            final(self).wf(),
            match sender {
                None => fails(r, BusErrorKind::Failed, no_sender()) && *final(self) == *old(self),
                Some(owner) => {
                    let room = old(self).sessions.count() < MAX_PORTAL_SESSIONS && !old(self).sessions.by_path@.contains_key(path@);
                    let n = old(self).next_session;
                    &&& r is Ok
                    &&& r->Ok_0 == if room {
                        Some(n)
                    } else {
                        None
                    }
                    &&& if room {
                        &&& final(self).sessions.by_path@ == old(self).sessions.by_path@.insert(
                            path@,
                            n,
                        )
                        &&& final(self).entries@.contains_key(n)
                        &&& final(self).entries@[n]@ == (EntryView {
                            owner: owner@,
                            registered: false,
                            draw_cursor: None,
                            source_types: None,
                            stream: PortalStreamState::Idle,
                        })
                        &&& final(self).entries@ == old(self).entries@.insert(
                            n,
                            final(self).entries@[n],
                        )
                        &&& final(self).next_session == n + 1
                    } else {
                        final(self).sessions.by_path@ == old(self).sessions.by_path@ && final(self).entries@ == old(self).entries@ && final(self).next_session == n
                    }
                },
            },
    {
        let owner: String = match sender {
            Some(owner) => owner.clone(),
            None => {
                return Err(sender_missing());
            },
        };
        let n: u64 = self.next_session;
        if !self.sessions.reserve_session(path, n) {
            return Ok(None);
        }
        self.entries.insert(n, SessionEntry::new(owner));
        self.next_session = n + 1;
        Ok(Some(n))
    }

    /// The session was made known on the bus, or not. Only where it was can it be used;
    /// it then has a name.
    pub fn session_served(
        &mut self,
        ids: &mut IdCounter,
        path: &String,
        session: u64,
        served: bool,
    ) -> (r: SessionReply)
        requires
            old(self).wf(),
            old(self).entries@.contains_key(session),
        ensures
            final(self).wf(),
            if served {
                let token = "tidewm"@ + decimal(old(ids).next as nat);
                &&& r.response == RESPONSE_SUCCESS
                &&& r.token is Some && (r.token->0)@ == token
                &&& final(self).sessions == old(self).sessions
                &&& final(self).entries@.contains_key(session)
                &&& final(self).entries@[session]@ == (EntryView {
                    registered: true,
                    ..old(self).entries@[session]@
                })
                &&& final(self).entries@ == old(self).entries@.insert(
                    session,
                    final(self).entries@[session],
                )
                &&& final(ids).next == if old(ids).next == u64::MAX {
                    0
                } else {
                    (old(ids).next + 1) as u64
                }
            } else {
                let same = old(self).sessions.by_path@.contains_key(path@) && old(self).sessions.by_path@[path@] == session;
                &&& r.response == RESPONSE_OTHER_ERROR
                &&& r.token is None
                &&& final(self).entries == old(self).entries
                &&& final(self).sessions.by_path@ == if same {
                    old(self).sessions.by_path@.remove(path@)
                } else {
                    old(self).sessions.by_path@
                }
                &&& final(ids).next == old(ids).next
            },
            final(self).next_session == old(self).next_session,
    {
        if !served {
            let _ = self.sessions.remove_session_if_same(path, session);
            return SessionReply { response: RESPONSE_OTHER_ERROR, token: None };
        }
        let ghost before = self.entries@;
        if let Some(entry) = self.entries.remove(&session) {
            let mut entry: SessionEntry = entry;
            entry.registered = true;
            let ghost done = entry;
            self.entries.insert(session, entry);
            assert(self.entries@ =~= before.insert(session, done));
        }
        let id: u64 = ids.take();
        let mut token: String = "tidewm".to_owned();
        let number: String = to_decimal(id);
        token.append(number.as_str());
        SessionReply { response: RESPONSE_SUCCESS, token: Some(token) }
    }

    /// The session of a path, where the caller may use it: it is known on the bus, and
    /// the caller's own.
    pub open spec fn authorized(&self, path: Seq<char>, sender: Seq<char>) -> Option<u64> {
        if self.sessions.by_path@.contains_key(path) {
            let n = self.sessions.by_path@[path];
            if self.entries@[n]@.registered && self.entries@[n]@.owner == sender {
                Some(n)
            } else {
                None
            }
        } else {
            None
        }
    }

    /// The session of a path, where the caller may use it.
    pub fn authorized_session(&self, path: &String, sender: &Option<String>) -> (r: Result<
        Option<u64>,
        BusError,
    >)
        requires
            self.wf(),
        ensures
            match sender {
                None => fails(r, BusErrorKind::Failed, no_sender()),
                Some(sender) => r is Ok && r->Ok_0 == self.authorized(path@, sender@),
            },
    {
        let sender: &String = match sender {
            Some(sender) => sender,
            None => {
                return Err(sender_missing());
            },
        };
        match self.sessions.session_at(path) {
            Some(n) => match self.entries.get(&n) {
                Some(entry) => if entry.registered && text_eq(
                    entry.owner.as_str(),
                    sender.as_str(),
                ) {
                    Ok(Some(n))
                } else {
                    Ok(None)
                },
                None => Ok(None),
            },
            None => Ok(None),
        }
    }

    /// A client closes a session of its own: it is closed for good, and its path is free
    /// again where it still was the session's. Gives the worker that ends.
    pub fn close_session(&mut self, path: &String, session: u64, sender: &Option<String>) -> (r:
        Result<Option<u64>, BusError>)
        requires
            old(self).wf(),
            old(self).entries@.contains_key(session),
        ensures
            final(self).wf(),
            final(self).next_session == old(self).next_session,
            match sender {
                None => fails(r, BusErrorKind::Failed, no_sender()) && final(self).entries@
                    == old(self).entries@ && final(self).sessions == old(self).sessions,
                Some(sender) => if sender@ != old(self).entries@[session]@.owner {
                    &&& fails(
                        r,
                        BusErrorKind::AccessDenied,
                        "portal session belongs to another D-Bus client"@,
                    )
                    &&& final(self).entries@ == old(self).entries@
                    &&& final(self).sessions == old(self).sessions
                } else {
                    let same = old(self).sessions.by_path@.contains_key(path@) && old(self).sessions.by_path@[path@] == session;
                    &&& r is Ok
                    &&& r->Ok_0 == match old(self).entries@[session]@.stream {
                        PortalStreamState::Active(worker) => Some(worker),
                        _ => None,
                    }
                    &&& final(self).entries@.contains_key(session)
                    &&& final(self).entries@[session]@ == closed(old(self).entries@[session]@)
                    &&& final(self).entries@ == old(self).entries@.insert(
                        session,
                        final(self).entries@[session],
                    )
                    &&& final(self).sessions.by_path@ == if same {
                        old(self).sessions.by_path@.remove(path@)
                    } else {
                        old(self).sessions.by_path@
                    }
                },
            },
    {
        let sender: &String = match sender {
            Some(sender) => sender,
            None => {
                return Err(sender_missing());
            },
        };
        let own: bool = match self.entries.get(&session) {
            Some(entry) => text_eq(entry.owner.as_str(), sender.as_str()),
            None => false,
        };
        if !own {
            return Err(
                BusError {
                    kind: BusErrorKind::AccessDenied,
                    message: "portal session belongs to another D-Bus client".to_owned(),
                },
            );
        }
        let ghost before = self.entries@;
        let mut worker: Option<u64> = None;
        if let Some(entry) = self.entries.remove(&session) {
            let mut entry: SessionEntry = entry;
            worker = entry.close();
            let ghost done = entry;
            self.entries.insert(session, entry);
            assert(self.entries@ =~= before.insert(session, done));
        }
        let _ = self.sessions.remove_session_if_same(path, session);
        Ok(worker)
    }
}

/// A path leads to the session.
pub open spec fn has_path(by_path: Map<Seq<char>, u64>, session: u64) -> bool {
    exists|p: Seq<char>| #[trigger] by_path.contains_key(p) && by_path[p] == session
}

/// The session is over: it is closed, and no path leads to it.
pub open spec fn is_over(portal: Portal, session: u64) -> bool {
    &&& portal.entries@.contains_key(session)
    &&& portal.entries@[session]@.stream is Closed
    &&& !has_path(portal.sessions.by_path@, session)
}

impl Portal {
    /// Forgets a session that is over; one that is not stays.
    pub fn forget_session(&mut self, session: u64)
        requires
            old(self).wf(),
        ensures
            final(self).wf(),
            final(self).sessions == old(self).sessions,
            final(self).next_session == old(self).next_session,
            final(self).entries@ == if is_over(*old(self), session) {
                old(self).entries@.remove(session)
            } else {
                old(self).entries@
            },
    {
        let closed: bool = match self.entries.get(&session) {
            Some(entry) => match entry.stream {
                PortalStreamState::Closed => true,
                _ => false,
            },
            None => false,
        };
        if !closed {
            return;
        }
        let ghost paths = self.sessions.by_path;
        let mut i: usize = 0;
        while i < self.sessions.by_path.entries.len()
            invariant
                *self == *old(self),
                old(self).wf(),
                paths == self.sessions.by_path,
                paths.wf(),
                i <= paths.entries@.len(),
                forall|j: int| 0 <= j < i ==> (#[trigger] paths.entries@[j]).1 != session,
            decreases paths.entries@.len() - i,
        {
            proof {
                paths.lemma_entry(i as int);
            }
            if self.sessions.by_path.entries[i].1 == session {
                assert(has_path(paths@, session));
                return;
            }
            i += 1;
        }
        proof {
            assert forall|p: Seq<char>| #[trigger] paths@.contains_key(p) implies paths@[p]
                != session by {
                let j = paths.slot(p);
                paths.lemma_entry(j);
            }
        }
        let _ = self.entries.remove(&session);
    }
}

/// The paths but those of an owner's sessions.
pub open spec fn paths_left(
    by_path: Map<Seq<char>, u64>,
    entries: Map<u64, SessionEntry>,
    owner: Seq<char>,
) -> Map<Seq<char>, u64> {
    Map::new(
        |p: Seq<char>| by_path.contains_key(p) && entries[by_path[p]]@.owner != owner,
        |p: Seq<char>| by_path[p],
    )
}

impl Portal {
    /// A client is gone from the bus: its sessions give up their paths. Gives the paths
    /// and the sessions, which are to be closed, each once.
    pub fn owner_gone(&mut self, owner: &str) -> (r: Vec<(String, u64)>)
        requires
            old(self).wf(),
        ensures
            final(self).wf(),
            final(self).entries == old(self).entries,
            final(self).next_session == old(self).next_session,
            final(self).sessions.by_path@ == paths_left(
                old(self).sessions.by_path@,
                old(self).entries@,
                owner@,
            ),
            forall|i: int|
                0 <= i < r@.len() ==> old(self).sessions.by_path@.contains_key(
                    (#[trigger] r@[i]).0@,
                ) && old(self).sessions.by_path@[r@[i].0@] == r@[i].1 && old(self).entries@[r@[i].1]@.owner == owner@,
            forall|p: Seq<char>| #[trigger]
                old(self).sessions.by_path@.contains_key(p) && old(self).entries@[old(self).sessions.by_path@[p]]@.owner == owner@ ==> exists|i: int|
                    0 <= i < r@.len() && (#[trigger] r@[i]).0@ == p,
            forall|i: int, j: int|
                0 <= i < j < r@.len() ==> (#[trigger] r@[i]).0@ != (#[trigger] r@[j]).0@,
    {
        let ghost before = self.sessions.by_path@;
        let ghost entries = self.entries@;
        let ghost goal = paths_left(before, entries, owner@);
        let mut kept: Assoc<String, u64> = Assoc::new();
        let mut out: Vec<(String, u64)> = Vec::new();
        loop
            invariant_except_break
                self.entries == old(self).entries,
                entries == self.entries@,
                self.next_session == old(self).next_session,
                self.entries.wf(),
                self.sessions.by_path.wf(),
                kept.wf(),
                goal == paths_left(before, entries, owner@),
                forall|p: Seq<char>| #[trigger]
                    before.contains_key(p) ==> entries.contains_key(before[p]),
                forall|p: Seq<char>| #[trigger]
                    self.sessions.by_path@.contains_key(p) ==> before.contains_key(p) && before[p]
                        == self.sessions.by_path@[p],
                forall|p: Seq<char>| #[trigger]
                    kept@.contains_key(p) <==> goal.contains_key(p)
                        && !self.sessions.by_path@.contains_key(p),
                forall|p: Seq<char>| #[trigger] kept@.contains_key(p) ==> kept@[p] == before[p],
                forall|i: int|
                    0 <= i < out@.len() ==> before.contains_key((#[trigger] out@[i]).0@)
                        && before[out@[i].0@] == out@[i].1 && entries[out@[i].1]@.owner == owner@,
                forall|p: Seq<char>| #[trigger]
                    before.contains_key(p) && entries[before[p]]@.owner == owner@
                        && !self.sessions.by_path@.contains_key(p) ==> exists|i: int|
                        0 <= i < out@.len() && (#[trigger] out@[i]).0@ == p,
                forall|i: int|
                    0 <= i < out@.len() ==> !self.sessions.by_path@.contains_key(
                        (#[trigger] out@[i]).0@,
                    ),
                forall|i: int, j: int|
                    0 <= i < j < out@.len() ==> (#[trigger] out@[i]).0@ != (#[trigger] out@[j]).0@,
            ensures
                self.entries == old(self).entries,
                self.next_session == old(self).next_session,
                kept.wf(),
                kept@ == goal,
                forall|i: int|
                    0 <= i < out@.len() ==> before.contains_key((#[trigger] out@[i]).0@)
                        && before[out@[i].0@] == out@[i].1 && entries[out@[i].1]@.owner == owner@,
                forall|p: Seq<char>| #[trigger]
                    before.contains_key(p) && entries[before[p]]@.owner == owner@ ==> exists|
                        i: int,
                    |
                        0 <= i < out@.len() && (#[trigger] out@[i]).0@ == p,
                forall|i: int, j: int|
                    0 <= i < j < out@.len() ==> (#[trigger] out@[i]).0@ != (#[trigger] out@[j]).0@,
            decreases self.sessions.by_path.entries@.len(),
        {
            match self.sessions.by_path.pop() {
                Some((path, session)) => {
                    let ghost p = path@;
                    let own: bool = match self.entries.get(&session) {
                        Some(entry) => text_eq(entry.owner.as_str(), owner),
                        None => false,
                    };
                    if own {
                        let ghost sofar = out@;
                        out.push((path, session));
                        proof {
                            assert(out@[sofar.len() as int].0@ == p);
                            assert forall|q: Seq<char>| #[trigger]
                                before.contains_key(q) && entries[before[q]]@.owner == owner@
                                    && !self.sessions.by_path@.contains_key(q) implies exists|
                                    i: int,
                                |
                                    0 <= i < out@.len() && (#[trigger] out@[i]).0@ == q by {
                                if q != p {
                                    let i = choose|i: int|
                                        0 <= i < sofar.len() && (#[trigger] sofar[i]).0@ == q;
                                    assert(out@[i].0@ == q);
                                }
                            }
                        }
                    } else {
                        kept.insert(path, session);
                    }
                },
                None => {
                    assert(kept@ =~= goal);
                    break;
                },
            }
        }
        self.sessions.by_path = kept;
        out
    }
}

/// A start that was reserved and given up leaves the session as it was.
pub proof fn law_cancelled_start_rolls_back(e: EntryView)
    requires
        e.stream is Idle,
    ensures
        cancelled(begun(e)) == e,
{
}

/// While a session is about to start it cannot start again.
pub proof fn law_start_is_exclusive(e: EntryView)
    ensures
        !(begun(e).stream is Idle),
{
}

/// A closed session never starts: neither a start that was under way nor a new one
/// brings its stream back.
pub proof fn law_closed_is_final(e: EntryView, worker: u64)
    ensures
        begun(closed(e)) == closed(e),
        completed(closed(begun(e)), worker) == closed(e),
        cancelled(closed(begun(e))) == closed(e),
{
}

} // verus!
