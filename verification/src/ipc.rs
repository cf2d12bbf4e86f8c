//! The control socket: requests come in lines, are answered in lines, and those who
//! subscribe are told what happens.

use vstd::prelude::*;
use vstd::string::*;

use crate::assoc::Assoc;
use crate::json::{
    bool_value, json_bytes, json_list, json_of, list_value, text_value, unsigned_value, value_bytes,
    JsonView, ObjectBuilder,
};
use crate::text::{decimal, to_decimal};

verus! {

/// A request of more bytes is not waited for.
pub const MAX_REQUEST_BYTES: usize = 65536;

/// How many connections are served at a time.
pub const MAX_CONNECTIONS: usize = 64;

/// How many actions a batch has at most.
pub const MAX_BATCH_ACTIONS: usize = 128;

/// A subscriber that has more unread bytes than this is dropped.
pub const SUBSCRIBER_PENDING_CAP: usize = 262144;

/// The socket, which is removed when the guard goes.
pub struct SocketGuard {
    pub path: String,
}

/// A file in a directory.
pub open spec fn joined_path(dir: Seq<char>, name: Seq<char>) -> Seq<char> {
    if dir.len() == 0 || dir.last() == '/' {
        dir + name
    } else {
        dir + seq!['/'] + name
    }
}

/// Where the socket of the process `pid` lies.
pub open spec fn socket_path_of(runtime_dir: Option<Seq<char>>, pid: nat) -> Seq<char> {
    joined_path(
        match runtime_dir {
            Some(dir) => dir,
            None => "/tmp"@,
        },
        "tidewm-"@ + decimal(pid) + ".sock"@,
    )
}

impl SocketGuard {
    /// The socket of the process `pid`.
    pub fn new(runtime_dir: &Option<String>, pid: u32) -> (r: Self)
        ensures
            r.path@ == socket_path_of(
                match *runtime_dir {
                    Some(dir) => Some(dir@),
                    None => None,
                },
                pid as nat,
            ),
    {
        let dir: &str = match runtime_dir {
            Some(dir) => dir.as_str(),
            None => "/tmp",
        };
        let mut path: String = dir.to_owned();
        let n: usize = dir.unicode_len();
        if n > 0 && dir.get_char(n - 1) != '/' {
            proof {
                reveal_strlit("/");
            }
            path.append("/");
            assert("/"@ =~= seq!['/']);
        }
        let ghost base = path@;
        path.append("tidewm-");
        let number: String = to_decimal(pid as u64);
        path.append(number.as_str());
        path.append(".sock");
        assert(path@ =~= base + ("tidewm-"@ + decimal(pid as nat) + ".sock"@));
        SocketGuard { path }
    }
}

/// How many connections are served.
pub struct Connections {
    pub active: usize,
}

impl Connections {
    pub fn new() -> (r: Self)
        ensures
            r.active == 0,
    {
        Connections { active: 0 }
    }

    /// A client connects; gives whether it is served.
    pub fn accept(&mut self) -> (r: bool)
        ensures
            r == (old(self).active < MAX_CONNECTIONS),
            final(self).active == if r {
                old(self).active + 1
            } else {
                old(self).active as int
            },
    {
        if self.active >= MAX_CONNECTIONS {
            return false;
        }
        self.active = self.active + 1;
        true
    }

    /// An answer is under way; it counts, and is never refused.
    pub fn lease(&mut self)
        requires
            old(self).active < usize::MAX,
        ensures
            final(self).active == old(self).active + 1,
    {
        self.active = self.active + 1;
    }

    /// A connection ends, or an answer.
    pub fn release(&mut self)
        requires
            old(self).active > 0,
        ensures
            final(self).active == old(self).active - 1,
    {
        self.active = self.active - 1;
    }
}

/// Where the first line of the bytes ends: at the first line break, or behind all of
/// them where there is none.
pub open spec fn first_break(bytes: Seq<u8>) -> nat
    decreases bytes.len(),
{
    if bytes.len() == 0 || bytes[0] == 0x0a {
        0
    } else {
        1 + first_break(bytes.skip(1))
    }
}

/// What the bytes that have come in so far amount to.
pub enum Received {
    /// The request is not complete.
    Incomplete,
    /// It is too long; the client is dropped.
    TooLong,
    /// It is this line; nothing behind it is read.
    Line(Vec<u8>),
}

/// A request that comes in.
pub struct RequestReader {
    pub buffer: Vec<u8>,
}

impl RequestReader {
    pub fn new() -> (r: Self)
        ensures
            r.buffer@ == Seq::<u8>::empty(),
    {
        RequestReader { buffer: Vec::new() }
    }

    /// More bytes come in.
    pub fn feed(&mut self, chunk: &Vec<u8>) -> (r: Received)
        requires
            old(self).buffer@.len() + chunk@.len() <= usize::MAX,
        ensures
            final(self).buffer@ == old(self).buffer@ + chunk@,
            ({
                let all = old(self).buffer@ + chunk@;
                match r {
                    Received::TooLong => all.len() > MAX_REQUEST_BYTES,
                    Received::Line(line) => all.len() <= MAX_REQUEST_BYTES && first_break(all)
                        < all.len() && line@ == all.take(first_break(all) as int),
                    Received::Incomplete => all.len() <= MAX_REQUEST_BYTES && first_break(all)
                        == all.len(),
                }
            }),
    {
        let ghost before = self.buffer@;
        let mut i: usize = 0;
        while i < chunk.len()
            invariant
                i <= chunk@.len(),
                self.buffer@ == before + chunk@.take(i as int),
            decreases chunk@.len() - i,
        {
            self.buffer.push(chunk[i]);
            i += 1;
            assert(chunk@.take(i as int) =~= chunk@.take(i - 1).push(chunk@[i - 1]));
            assert(self.buffer@ =~= before + chunk@.take(i as int));
        }
        assert(chunk@.take(chunk@.len() as int) =~= chunk@);
        let ghost all = self.buffer@;
        if self.buffer.len() > MAX_REQUEST_BYTES {
            return Received::TooLong;
        }
        let mut line: Vec<u8> = Vec::new();
        let mut k: usize = 0;
        assert(all.skip(0) =~= all);
        assert(line@ =~= all.take(0));
        while k < self.buffer.len()
            invariant
                all == self.buffer@,
                all.len() <= MAX_REQUEST_BYTES,
                all == before + chunk@,
                before == old(self).buffer@,
                k <= all.len(),
                first_break(all) == k + first_break(all.skip(k as int)),
                line@ == all.take(k as int),
            decreases all.len() - k,
        {
            assert(all.skip(k as int)[0] == all[k as int]);
            assert(all.skip(k as int).skip(1) =~= all.skip(k + 1));
            if self.buffer[k] == 0x0a {
                return Received::Line(line);
            }
            line.push(self.buffer[k]);
            k += 1;
            assert(all.take(k as int) =~= all.take(k - 1).push(all[k - 1]));
        }
        Received::Incomplete
    }
}

/// How an attempt to write went.
#[derive(Clone, Copy, Debug, PartialEq, Eq, Structural)]
pub enum WriteResult {
    Wrote(usize),
    /// The client has to read first.
    WouldBlock,
    Failed,
}

/// What is done next with an answer.
#[derive(Clone, Copy, Debug, PartialEq, Eq, Structural)]
pub enum WriteStep {
    Again,
    Wait,
    /// It is written, or nobody is there to read it.
    Done,
}

/// An answer that goes out.
pub struct ResponseWriter {
    pub payload: Vec<u8>,
    pub written: usize,
}

impl ResponseWriter {
    pub open spec fn wf(&self) -> bool {
        self.written <= self.payload@.len()
    }

    pub fn new(payload: Vec<u8>) -> (r: Self)
        ensures
            r.wf(),
            r.payload@ == payload@,
            r.written == 0,
    {
        ResponseWriter { payload, written: 0 }
    }

    /// An attempt was made to write what was not written yet.
    pub fn wrote(&mut self, result: WriteResult) -> (r: WriteStep)
        requires
            old(self).wf(),
            result matches WriteResult::Wrote(n) ==> n <= old(self).payload@.len() - old(self).written,
        ensures
            final(self).wf(),
            final(self).payload == old(self).payload,
            match result {
                WriteResult::Wrote(n) => final(self).written == old(self).written + n && r == if n
                    == 0 || final(self).written == final(self).payload@.len() {
                    WriteStep::Done
                } else {
                    WriteStep::Again
                },
                WriteResult::WouldBlock => final(self).written == old(self).written && r
                    == WriteStep::Wait,
                WriteResult::Failed => final(self).written == old(self).written && r
                    == WriteStep::Done,
            },
    {
        match result {
            WriteResult::Wrote(n) => {
                let total: usize = self.payload.len();
                self.written = self.written + n;
                if n == 0 || self.written == total {
                    WriteStep::Done
                } else {
                    WriteStep::Again
                }
            },
            WriteResult::WouldBlock => WriteStep::Wait,
            WriteResult::Failed => WriteStep::Done,
        }
    }
}

/// What subscribers may ask to be told of.
#[derive(Clone, Copy, Debug, PartialEq, Eq, Structural)]
pub enum EventKind {
    Window,
    Workspace,
    Focus,
    Urgent,
    Depth,
    Config,
}

impl EventKind {
    /// What it is called.
    pub open spec fn called(&self) -> Seq<char> {
        match self {
            EventKind::Window => "window"@,
            EventKind::Workspace => "workspace"@,
            EventKind::Focus => "focus"@,
            EventKind::Urgent => "urgent"@,
            EventKind::Depth => "depth"@,
            EventKind::Config => "config"@,
        }
    }

    /// What it is called.
    pub fn name(&self) -> (r: &'static str)
        ensures
            r@ == self.called(),
    {
        match self {
            EventKind::Window => "window",
            EventKind::Workspace => "workspace",
            EventKind::Focus => "focus",
            EventKind::Urgent => "urgent",
            EventKind::Depth => "depth",
            EventKind::Config => "config",
        }
    }
}

/// Everything that subscribers may ask to be told of.
pub open spec fn all_kinds() -> Seq<EventKind> {
    seq![
        EventKind::Window,
        EventKind::Workspace,
        EventKind::Focus,
        EventKind::Urgent,
        EventKind::Depth,
        EventKind::Config,
    ]
}

/// What a subscriber is told of, given what it asked for: everything where it asked
/// for nothing, else each kind once.
pub open spec fn resolved(asked: Seq<EventKind>) -> Seq<EventKind> {
    if asked.len() == 0 {
        all_kinds()
    } else {
        once_each(asked)
    }
}

/// Each kind at the place where it comes first.
pub open spec fn once_each(asked: Seq<EventKind>) -> Seq<EventKind>
    decreases asked.len(),
{
    if asked.len() == 0 {
        Seq::empty()
    } else {
        let before = once_each(asked.drop_last());
        if before.contains(asked.last()) {
            before
        } else {
            before.push(asked.last())
        }
    }
}

fn has_kind(kinds: &Vec<EventKind>, kind: EventKind) -> (r: bool)
    ensures
        r == kinds@.contains(kind),
{
    let mut i: usize = 0;
    while i < kinds.len()
        invariant
            i <= kinds@.len(),
            forall|j: int| 0 <= j < i ==> kinds@[j] != kind,
        decreases kinds@.len() - i,
    {
        if kinds[i] == kind {
            assert(kinds@[i as int] == kind);
            return true;
        }
        i += 1;
    }
    false
}

fn distinct_kinds(asked: &Vec<EventKind>) -> (r: Vec<EventKind>)
    ensures
        r@ == once_each(asked@),
{
    let mut out: Vec<EventKind> = Vec::new();
    let mut i: usize = 0;
    assert(asked@.take(0) =~= Seq::<EventKind>::empty());
    while i < asked.len()
        invariant
            i <= asked@.len(),
            out@ == once_each(asked@.take(i as int)),
        decreases asked@.len() - i,
    {
        assert(asked@.take(i + 1).drop_last() =~= asked@.take(i as int));
        assert(asked@.take(i + 1).last() == asked@[i as int]);
        if !has_kind(&out, asked[i]) {
            out.push(asked[i]);
        }
        i += 1;
    }
    assert(asked@.take(asked@.len() as int) =~= asked@);
    out
}

/// One who is told what happens.
pub struct IpcSubscriber {
    /// What it is told of; everything where this is empty.
    pub filter: Vec<EventKind>,
    /// What it has not read yet.
    pub pending: Vec<u8>,
}

/// What is done next with a subscriber.
#[derive(Clone, Copy, Debug, PartialEq, Eq, Structural)]
pub enum FlushStep {
    /// There is more to write.
    Again,
    /// It is well.
    Healthy,
    /// It is gone.
    Gone,
}

impl IpcSubscriber {
    /// The subscriber is told of events of this kind.
    pub open spec fn wants_kind(&self, kind: EventKind) -> bool {
        self.filter@.len() == 0 || self.filter@.contains(kind)
    }

    /// Whether the subscriber is told of events of this kind.
    pub fn wants(&self, kind: EventKind) -> (r: bool)
        ensures
            r == self.wants_kind(kind),
    {
        self.filter.len() == 0 || has_kind(&self.filter, kind)
    }

    /// More is to be written to the subscriber. Gives whether it keeps up: whether
    /// what is to be written stays within the limit.
    pub fn queue(&mut self, line: &Vec<u8>) -> (r: bool)
        requires
            old(self).pending@.len() + line@.len() <= usize::MAX,
        ensures
            final(self).filter == old(self).filter,
            final(self).pending@ == old(self).pending@ + line@,
            r == (final(self).pending@.len() <= SUBSCRIBER_PENDING_CAP),
    {
        let ghost before = self.pending@;
        let mut i: usize = 0;
        while i < line.len()
            invariant
                i <= line@.len(),
                self.filter == old(self).filter,
                self.pending@ == before + line@.take(i as int),
            decreases line@.len() - i,
        {
            self.pending.push(line[i]);
            i += 1;
            assert(line@.take(i as int) =~= line@.take(i - 1).push(line@[i - 1]));
            assert(self.pending@ =~= before + line@.take(i as int));
        }
        assert(line@.take(line@.len() as int) =~= line@);
        self.pending.len() <= SUBSCRIBER_PENDING_CAP
    }

    /// What is done first with a subscriber that may have something to read.
    pub fn try_flush(&self) -> (r: FlushStep)
        ensures
            r == if self.pending@.len() == 0 {
                FlushStep::Healthy
            } else {
                FlushStep::Again
            },
    {
        if self.pending.len() == 0 {
            FlushStep::Healthy
        } else {
            FlushStep::Again
        }
    }

    /// An attempt was made to write what is to be written.
    pub fn flushed(&mut self, result: WriteResult) -> (r: FlushStep)
        requires
            old(self).pending@.len() > 0,
            result matches WriteResult::Wrote(n) ==> n <= old(self).pending@.len(),
        ensures
            final(self).filter == old(self).filter,
            match result {
                WriteResult::Wrote(n) => {
                    &&& final(self).pending@ == old(self).pending@.skip(n as int)
                    &&& r == if n == 0 {
                        FlushStep::Gone
                    } else if n == old(self).pending@.len() {
                        FlushStep::Healthy
                    } else {
                        FlushStep::Again
                    }
                },
                WriteResult::WouldBlock => final(self).pending == old(self).pending && r
                    == FlushStep::Healthy,
                WriteResult::Failed => final(self).pending == old(self).pending && r
                    == FlushStep::Gone,
            },
    {
        match result {
            WriteResult::Wrote(n) => {
                if n == 0 {
                    assert(self.pending@.skip(0) =~= self.pending@);
                    return FlushStep::Gone;
                }
                let ghost all = self.pending@;
                let rest: Vec<u8> = self.pending.split_off(n);
                self.pending = rest;
                assert(self.pending@ =~= all.skip(n as int));
                if self.pending.len() == 0 {
                    FlushStep::Healthy
                } else {
                    FlushStep::Again
                }
            },
            WriteResult::WouldBlock => FlushStep::Healthy,
            WriteResult::Failed => FlushStep::Gone,
        }
    }
}

/// All who are told what happens.
pub struct Subscribers {
    pub list: Assoc<u64, IpcSubscriber>,
    pub next_id: u64,
}

/// The names of kinds.
pub open spec fn kind_names(kinds: Seq<EventKind>) -> Seq<JsonView> {
    kinds.map_values(|k: EventKind| JsonView::Text(k.called()))
}

/// What a subscriber is told first.
pub open spec fn subscription_json(id: u64, kinds: Seq<EventKind>) -> JsonView {
    JsonView::Object(
        map![
            "ok"@ => JsonView::Bool(true),
            "data"@ => JsonView::Object(
                map![
                    "subscription_id"@ => JsonView::Number(id as int),
                    "events"@ => JsonView::List(kind_names(kinds)),
                ],
            ),
        ],
    )
}

/// A document in a line of its own.
pub open spec fn json_line(json: JsonView) -> Seq<u8> {
    json_bytes(json).push(0x0a)
}

pub(crate) fn line_of(value: &serde_json::Value) -> (r: Vec<u8>)
    ensures
        r@ == json_line(json_of(*value)),
        is_one_line(r@),
{
    let mut line: Vec<u8> = value_bytes(value);
    line.push(0x0a);
    line
}

/// The bytes are one line, with the line break that ends it.
pub open spec fn is_one_line(bytes: Seq<u8>) -> bool {
    &&& bytes.len() > 0 && bytes.last() == 0x0a
    &&& forall|i: int| 0 <= i < bytes.len() - 1 ==> #[trigger] bytes[i] != 0x0a
}

fn kinds_value(kinds: &Vec<EventKind>) -> (r: serde_json::Value)
    ensures
        json_of(r) == JsonView::List(kind_names(kinds@)),
{
    let mut values: Vec<serde_json::Value> = Vec::new();
    let mut i: usize = 0;
    while i < kinds.len()
        invariant
            i <= kinds@.len(),
            json_list(values@) == kind_names(kinds@).take(i as int),
        decreases kinds@.len() - i,
    {
        let ghost before = values@;
        let value: serde_json::Value = text_value(kinds[i].name());
        let ghost said = json_of(value);
        values.push(value);
        assert(json_list(values@) =~= json_list(before).push(said));
        assert(kind_names(kinds@).take(i + 1) =~= kind_names(kinds@).take(i as int).push(
            kind_names(kinds@)[i as int],
        ));
        i += 1;
    }
    assert(kind_names(kinds@).take(kinds@.len() as int) =~= kind_names(kinds@));
    list_value(values)
}

impl Subscribers {
    /// The numbers given so far are all below the next.
    pub open spec fn wf(&self) -> bool {
        &&& self.list.wf()
        &&& forall|id: u64| #[trigger] self.list@.contains_key(id) ==> id < self.next_id
    }

    pub fn new() -> (r: Self)
        ensures
            r.wf(),
            r.list@ == Map::<u64, IpcSubscriber>::empty(),
            r.next_id == 0,
    {
        Subscribers { list: Assoc::new(), next_id: 0 }
    }

    /// One more wants to be told what happens. It gets a number of its own, and is told
    /// that and what it will be told of; gives the number.
    pub fn register_subscriber(&mut self, asked: &Vec<EventKind>) -> (r: u64)
        requires
            old(self).wf(),
            old(self).next_id < u64::MAX,
        ensures
            final(self).wf(),
            r == old(self).next_id,
            !old(self).list@.contains_key(r),
            final(self).next_id == old(self).next_id + 1,
            final(self).list@.contains_key(r),
            final(self).list@[r].filter@ == once_each(asked@),
            final(self).list@[r].pending@ == json_line(subscription_json(r, resolved(asked@))),
            is_one_line(final(self).list@[r].pending@),
            final(self).list@ == old(self).list@.insert(r, final(self).list@[r]),
    {
        let id: u64 = self.next_id;
        self.next_id = id + 1;
        let filter: Vec<EventKind> = distinct_kinds(asked);
        proof {
            lemma_once_each_empty(asked@);
        }
        let events: serde_json::Value = if filter.len() == 0 {
            let all: Vec<EventKind> = vec![
                EventKind::Window,
                EventKind::Workspace,
                EventKind::Focus,
                EventKind::Urgent,
                EventKind::Depth,
                EventKind::Config,
            ];
            assert(all@ =~= all_kinds());
            kinds_value(&all)
        } else {
            kinds_value(&filter)
        };
        let mut data: ObjectBuilder = ObjectBuilder::new();
        data.put("subscription_id", unsigned_value(id));
        data.put("events", events);
        let mut ack: ObjectBuilder = ObjectBuilder::new();
        ack.put("ok", bool_value(true));
        ack.put("data", data.finish());
        let pending: Vec<u8> = line_of(&ack.finish());
        self.list.insert(id, IpcSubscriber { filter, pending });
        id
    }

    /// One is told no more.
    pub fn remove(&mut self, id: u64)
        requires
            old(self).wf(),
        ensures
            final(self).wf(),
            final(self).list@ == old(self).list@.remove(id),
            final(self).next_id == old(self).next_id,
    {
        let _ = self.list.remove(&id);
    }
}

proof fn lemma_once_each_empty(asked: Seq<EventKind>)
    ensures
        once_each(asked).len() == 0 <==> asked.len() == 0,
    decreases asked.len(),
{
    if asked.len() > 0 {
        lemma_once_each_empty(asked.drop_last());
        if once_each(asked.drop_last()).contains(asked.last()) {
            assert(once_each(asked.drop_last()).len() > 0);
        }
    }
}

proof fn lemma_once_each_members(asked: Seq<EventKind>, kind: EventKind)
    ensures
        once_each(asked).contains(kind) <==> asked.contains(kind),
    decreases asked.len(),
{
    if asked.len() > 0 {
        let rest = asked.drop_last();
        lemma_once_each_members(rest, kind);
        let before = once_each(rest);
        if rest.contains(kind) {
            let i = choose|i: int| 0 <= i < rest.len() && rest[i] == kind;
            assert(asked[i] == kind);
            let j = choose|j: int| 0 <= j < before.len() && before[j] == kind;
            assert(once_each(asked)[j] == kind);
        }
        if asked.last() == kind {
            assert(asked[asked.len() - 1] == kind);
            if !before.contains(kind) {
                assert(once_each(asked)[before.len() as int] == kind);
            }
        }
        if asked.contains(kind) && asked.last() != kind {
            let i = choose|i: int| 0 <= i < asked.len() && asked[i] == kind;
            assert(rest[i] == kind);
        }
        if once_each(asked).contains(kind) && !before.contains(kind) {
            let i = choose|i: int| 0 <= i < once_each(asked).len() && once_each(asked)[i] == kind;
            if i < before.len() {
                assert(before[i] == kind);
            }
        }
    }
}

/// A subscriber is told of exactly what it was told it would be told of.
pub proof fn law_acknowledged_events_are_delivered(
    subscriber: IpcSubscriber,
    asked: Seq<EventKind>,
    kind: EventKind,
)
    requires
        subscriber.filter@ == once_each(asked),
    ensures
        subscriber.wants_kind(kind) <==> resolved(asked).contains(kind),
{
    lemma_once_each_empty(asked);
    if asked.len() == 0 {
        let all = all_kinds();
        assert(all[0] is Window && all[1] is Workspace && all[2] is Focus && all[3] is Urgent
            && all[4] is Depth && all[5] is Config);
        assert(all.contains(kind)) by {
            match kind {
                EventKind::Window => assert(all[0] == kind),
                EventKind::Workspace => assert(all[1] == kind),
                EventKind::Focus => assert(all[2] == kind),
                EventKind::Urgent => assert(all[3] == kind),
                EventKind::Depth => assert(all[4] == kind),
                EventKind::Config => assert(all[5] == kind),
            }
        }
    } else {
        lemma_once_each_members(asked, kind);
    }
}

} // verus!
