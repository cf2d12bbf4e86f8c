//! Windows as their clients make them: mapping, unmapping, and what refuses to be
//! tiled.

use vstd::prelude::*;
use crate::assoc::Assoc;
use crate::config::WindowRule;

verus! {

/// Where a surface stands in the life of a window.
#[derive(Clone, Copy, Debug, PartialEq, Eq, Structural)]
pub enum ToplevelTracking {
    Unknown,
    Unmapped,
    Mapped,
}

/// What a commit does to a window.
#[derive(Clone, Copy, Debug, PartialEq, Eq, Structural)]
pub enum ToplevelTransition {
    NoChange,
    ToMapped,
    ToUnmapped,
}

/// How a window changes with a commit: it maps with its first buffer and unmaps
/// when the buffer is taken away. A surface that is no window never does.
pub open spec fn transition_of(tracking: ToplevelTracking, has_buffer: bool) -> ToplevelTransition {
    if tracking == ToplevelTracking::Unmapped && has_buffer {
        ToplevelTransition::ToMapped
    } else if tracking == ToplevelTracking::Mapped && !has_buffer {
        ToplevelTransition::ToUnmapped
    } else {
        ToplevelTransition::NoChange
    }
}

/// How a window changes with a commit.
pub fn lifecycle_transition(tracking: ToplevelTracking, has_buffer: bool) -> (r: ToplevelTransition)
    ensures
        r == transition_of(tracking, has_buffer),
{
    match (tracking, has_buffer) {
        (ToplevelTracking::Unmapped, true) => ToplevelTransition::ToMapped,
        (ToplevelTracking::Mapped, false) => ToplevelTransition::ToUnmapped,
        _ => ToplevelTransition::NoChange,
    }
}

/// Whether a window is certain to be told a second size right after its tile's, so
/// that the first need not be sent.
pub fn skips_first_tile_configure(rule: &WindowRule, implicit_float: bool) -> (r: bool)
    ensures
        r == (rule.maximize || rule.fullscreen || rule.pseudo_tile || ((rule.float || rule.pin
            || implicit_float) && (rule.position is Some || rule.size is Some))),
{
    rule.maximize || rule.fullscreen || rule.pseudo_tile || ((rule.float || rule.pin
        || implicit_float) && (rule.position.is_some() || rule.size.is_some()))
}

/// Whether a window that has a least and a greatest size is fixed in one of its
/// dimensions; both least dimensions have to be set.
pub fn is_dimension_pinned(min_size: (i32, i32), max_size: (i32, i32)) -> (r: bool)
    ensures
        r == (min_size.0 > 0 && min_size.1 > 0 && (min_size.0 == max_size.0 || min_size.1
            == max_size.1)),
{
    min_size.0 > 0 && min_size.1 > 0 && (min_size.0 == max_size.0 || min_size.1 == max_size.1)
}

/// A window that unmaps and maps again within this many nanoseconds flutters.
pub const FLUTTER_WINDOW: u64 = 1_000_000_000;

/// So many times in a row, and the window is left to float.
pub const FLUTTER_FLOPS: u32 = 3;

/// So many commits of another size in a row, and the window refuses its tile.
pub const REFUSAL_LIMIT: u32 = 3;

/// For so many nanoseconds at least.
pub const REFUSAL_WINDOW: u64 = 500_000_000;

/// A size that differs by no more than this still fits.
pub const SIZE_TOLERANCE: i64 = 8;

/// How often a window mapped right after it unmapped, and when it last unmapped.
#[derive(Clone, Copy, Debug, PartialEq, Eq, Structural)]
pub struct FlutterRecord {
    pub flips: u32,
    pub last_unmapped_at: Option<u64>,
}

/// How often a window had another size than its tile, and since when.
#[derive(Clone, Copy, Debug, PartialEq, Eq, Structural)]
pub struct RefusalRecord {
    pub refusals: u32,
    pub first_refusal_at: Option<u64>,
}

/// The windows that will not be tiled.
pub struct TilingRefusals {
    pub flutter: Assoc<u64, FlutterRecord>,
    pub size_refusals: Assoc<u64, RefusalRecord>,
    /// Windows that are left to float from now on.
    pub floated: Assoc<u64, ()>,
}

/// How much later `now` is than `at`, and nothing where it is not.
pub open spec fn since(now: u64, at: u64) -> int {
    if now >= at {
        now - at
    } else {
        0
    }
}

fn elapsed(now: u64, at: u64) -> (r: u64)
    ensures
        r == since(now, at),
{
    if now >= at {
        now - at
    } else {
        0
    }
}

/// The unmapping is recent.
pub open spec fn recent(record: FlutterRecord, now: u64) -> bool {
    record.last_unmapped_at is Some && since(now, record.last_unmapped_at->0) <= FLUTTER_WINDOW
}

/// The record of a window after it mapped or unmapped.
pub open spec fn flutter_after(
    records: Map<u64, FlutterRecord>,
    s: u64,
    mapping: bool,
    now: u64,
) -> FlutterRecord {
    let record = if records.contains_key(s) {
        records[s]
    } else {
        FlutterRecord { flips: 0, last_unmapped_at: None }
    };
    if mapping {
        FlutterRecord {
            flips: if recent(record, now) {
                (record.flips + 1) as u32
            } else {
                0
            },
            ..record
        }
    } else {
        FlutterRecord { last_unmapped_at: Some(now), ..record }
    }
}

/// The record is still of use.
pub open spec fn record_kept(record: FlutterRecord, s: u64, now: u64, alive: Set<u64>) -> bool {
    record.flips >= FLUTTER_FLOPS || recent(record, now) || alive.contains(s)
}

/// The records that are still of use.
pub open spec fn records_kept(records: Map<u64, FlutterRecord>, now: u64, alive: Set<u64>) -> Map<
    u64,
    FlutterRecord,
> {
    Map::new(
        |s: u64| records.contains_key(s) && record_kept(records[s], s, now, alive),
        |s: u64| records[s],
    )
}

/// The entries of surfaces that are still alive.
pub open spec fn tracked_only(set: Map<u64, ()>, alive: Set<u64>) -> Map<u64, ()> {
    Map::new(|s: u64| set.contains_key(s) && alive.contains(s), |s: u64| ())
}

fn listed(list: &Vec<u64>, s: u64) -> (r: bool)
    ensures
        r == list@.contains(s),
{
    let mut i: usize = 0;
    while i < list.len()
        invariant
            i <= list@.len(),
            forall|j: int| 0 <= j < i ==> list@[j] != s,
        decreases list@.len() - i,
    {
        if list[i] == s {
            assert(list@[i as int] == s);
            return true;
        }
        i += 1;
    }
    false
}

fn is_recent(record: &FlutterRecord, now: u64) -> (r: bool)
    ensures
        r == recent(*record, now),
{
    match record.last_unmapped_at {
        Some(at) => elapsed(now, at) <= FLUTTER_WINDOW,
        None => false,
    }
}

fn keep_records(records: &mut Assoc<u64, FlutterRecord>, now: u64, alive: &Vec<u64>)
    requires
        old(records).wf(),
    ensures
        final(records).wf(),
        final(records)@ == records_kept(old(records)@, now, alive@.to_set()),
{
    let ghost before = records@;
    let ghost goal = records_kept(before, now, alive@.to_set());
    let mut out: Assoc<u64, FlutterRecord> = Assoc::new();
    loop
        invariant_except_break
            records.wf(),
            out.wf(),
            goal == records_kept(before, now, alive@.to_set()),
            forall|s: u64| #[trigger]
                records@.contains_key(s) ==> before.contains_key(s) && before[s] == records@[s],
            forall|s: u64| #[trigger]
                out@.contains_key(s) <==> goal.contains_key(s) && !records@.contains_key(s),
            forall|s: u64| #[trigger] out@.contains_key(s) ==> out@[s] == before[s],
        ensures
            out.wf(),
            out@ == goal,
        decreases records.entries@.len(),
    {
        match records.pop() {
            Some((s, record)) => {
                if record.flips >= FLUTTER_FLOPS || is_recent(&record, now) || listed(alive, s) {
                    out.insert(s, record);
                }
            },
            None => {
                assert(out@ =~= goal);
                break;
            },
        }
    }
    *records = out;
}

fn keep_tracked(set: &mut Assoc<u64, ()>, alive: &Vec<u64>)
    requires
        old(set).wf(),
    ensures
        final(set).wf(),
        final(set)@ == tracked_only(old(set)@, alive@.to_set()),
{
    let ghost before = set@;
    let ghost goal = tracked_only(before, alive@.to_set());
    let mut out: Assoc<u64, ()> = Assoc::new();
    loop
        invariant_except_break
            set.wf(),
            out.wf(),
            goal == tracked_only(before, alive@.to_set()),
            forall|s: u64| #[trigger] set@.contains_key(s) ==> before.contains_key(s),
            forall|s: u64| #[trigger]
                out@.contains_key(s) <==> goal.contains_key(s) && !set@.contains_key(s),
        ensures
            out.wf(),
            out@ == goal,
        decreases set.entries@.len(),
    {
        match set.pop() {
            Some((s, _)) => {
                if listed(alive, s) {
                    out.insert(s, ());
                }
            },
            None => {
                assert(out@ =~= goal);
                break;
            },
        }
    }
    *set = out;
}

/// What is known of a window when it commits.
#[derive(Clone, Copy, Debug)]
pub struct RefusalFacts {
    /// The size of its tile, where it has been told one.
    pub expected: Option<(i32, i32)>,
    pub tiled: bool,
    pub fullscreen: bool,
    /// Something holds the pointer.
    pub grabbed: bool,
    /// The size it has, where it is mapped.
    pub actual: Option<(i32, i32)>,
}

/// The two sizes differ by no more than the tolerance.
pub open spec fn sizes_match(actual: (i32, i32), expected: (i32, i32)) -> bool {
    &&& -SIZE_TOLERANCE <= actual.0 - expected.0 <= SIZE_TOLERANCE
    &&& -SIZE_TOLERANCE <= actual.1 - expected.1 <= SIZE_TOLERANCE
}

/// What a commit says of a window's tile.
pub enum TileFit {
    /// Nothing.
    NoMatter,
    /// It fits, or it does not count: earlier refusals are forgotten.
    Fits,
    /// It is refused.
    Refused,
}

/// What a commit says of a window's tile. A commit while something holds the
/// pointer does not count.
pub open spec fn tile_fit(facts: RefusalFacts) -> TileFit {
    if facts.expected is None {
        TileFit::NoMatter
    } else if !facts.tiled || facts.fullscreen {
        TileFit::Fits
    } else if facts.grabbed || facts.actual is None {
        TileFit::NoMatter
    } else if sizes_match(facts.actual->0, facts.expected->0) {
        TileFit::Fits
    } else {
        TileFit::Refused
    }
}

/// The record of a window after another refusal.
pub open spec fn refusal_after(records: Map<u64, RefusalRecord>, s: u64, now: u64) -> RefusalRecord {
    if records.contains_key(s) {
        RefusalRecord {
            refusals: (records[s].refusals + 1) as u32,
            first_refusal_at: if records[s].first_refusal_at is Some {
                records[s].first_refusal_at
            } else {
                Some(now)
            },
        }
    } else {
        RefusalRecord { refusals: 1, first_refusal_at: Some(now) }
    }
}

/// The refusals are enough: so many, over so long.
pub open spec fn refuses_for_good(record: RefusalRecord, now: u64) -> bool {
    record.refusals >= REFUSAL_LIMIT && record.first_refusal_at is Some && since(
        now,
        record.first_refusal_at->0,
    ) >= REFUSAL_WINDOW
}

/// `after` is `before` with note taken of a commit; `trips` says that the window is
/// left to float from now on.
pub open spec fn refusal_noted(
    before: TilingRefusals,
    after: TilingRefusals,
    s: u64,
    facts: RefusalFacts,
    now: u64,
    trips: bool,
) -> bool {
    let record = refusal_after(before.size_refusals@, s, now);
    &&& trips == (tile_fit(facts) is Refused && refuses_for_good(record, now))
    &&& after.size_refusals@ == match tile_fit(facts) {
        TileFit::NoMatter => before.size_refusals@,
        TileFit::Fits => before.size_refusals@.remove(s),
        TileFit::Refused => if trips {
            before.size_refusals@.remove(s)
        } else {
            before.size_refusals@.insert(s, record)
        },
    }
    &&& after.floated@ == if trips {
        before.floated@.insert(s, ())
    } else {
        before.floated@
    }
    &&& after.flutter == before.flutter
}

impl TilingRefusals {
    pub open spec fn wf(&self) -> bool {
        self.flutter.wf() && self.size_refusals.wf() && self.floated.wf()
    }

    pub fn new() -> (r: Self)
        ensures
            r.wf(),
            r.flutter@ == Map::<u64, FlutterRecord>::empty(),
            r.size_refusals@ == Map::<u64, RefusalRecord>::empty(),
            r.floated@ == Map::<u64, ()>::empty(),
    {
        TilingRefusals { flutter: Assoc::new(), size_refusals: Assoc::new(), floated: Assoc::new() }
    }

    /// Takes note that a window maps or unmaps. One that does so over and over is
    /// left to float. Whatever belongs to no surface in `alive` and is of no more
    /// use is forgotten.
    pub fn note_toplevel_flutter(&mut self, s: u64, mapping: bool, now: u64, alive: &Vec<u64>)
        requires
            old(self).wf(),
            old(self).flutter@.contains_key(s) ==> old(self).flutter@[s].flips < u32::MAX,
        ensures
            final(self).wf(),
            final(self).size_refusals == old(self).size_refusals,
            ({
                let record = flutter_after(old(self).flutter@, s, mapping, now);
                &&& final(self).flutter@ == records_kept(
                    old(self).flutter@.insert(s, record),
                    now,
                    alive@.to_set(),
                )
                &&& final(self).floated@ == tracked_only(
                    if mapping && record.flips >= FLUTTER_FLOPS {
                        old(self).floated@.insert(s, ())
                    } else {
                        old(self).floated@
                    },
                    alive@.to_set(),
                )
            }),
    {
        let mut record: FlutterRecord = match self.flutter.get(&s) {
            Some(record) => *record,
            None => FlutterRecord { flips: 0, last_unmapped_at: None },
        };
        if mapping {
            record.flips = if is_recent(&record, now) {
                record.flips + 1
            } else {
                0
            };
            if record.flips >= FLUTTER_FLOPS {
                self.floated.insert(s, ());
            }
        } else {
            record.last_unmapped_at = Some(now);
        }
        self.flutter.insert(s, record);
        keep_records(&mut self.flutter, now, alive);
        keep_tracked(&mut self.floated, alive);
    }

    /// Takes note of a commit of a mapped window. One that keeps another size than
    /// its tile's for too long is left to float; gives whether it is to float now.
    pub fn note_tiled_size_refusal(&mut self, s: u64, facts: &RefusalFacts, now: u64) -> (r: bool)
        requires
            old(self).wf(),
            old(self).size_refusals@.contains_key(s) ==> old(self).size_refusals@[s].refusals
                < u32::MAX,
        ensures
            final(self).wf(),
            refusal_noted(*old(self), *final(self), s, *facts, now, r),
    {
        let expected: (i32, i32) = match facts.expected {
            Some(size) => size,
            None => {
                return false;
            },
        };
        if !facts.tiled || facts.fullscreen {
            let _ = self.size_refusals.remove(&s);
            return false;
        }
        if facts.grabbed {
            return false;
        }
        let actual: (i32, i32) = match facts.actual {
            Some(size) => size,
            None => {
                return false;
            },
        };
        let dw: i64 = actual.0 as i64 - expected.0 as i64;
        let dh: i64 = actual.1 as i64 - expected.1 as i64;
        if -SIZE_TOLERANCE <= dw && dw <= SIZE_TOLERANCE && -SIZE_TOLERANCE <= dh && dh
            <= SIZE_TOLERANCE {
            let _ = self.size_refusals.remove(&s);
            return false;
        }
        let mut record: RefusalRecord = match self.size_refusals.get(&s) {
            Some(record) => *record,
            None => RefusalRecord { refusals: 0, first_refusal_at: None },
        };
        let first: u64 = match record.first_refusal_at {
            Some(at) => at,
            None => now,
        };
        record.first_refusal_at = Some(first);
        record.refusals = record.refusals + 1;
        if record.refusals >= REFUSAL_LIMIT && elapsed(now, first) >= REFUSAL_WINDOW {
            self.floated.insert(s, ());
            let _ = self.size_refusals.remove(&s);
            return true;
        }
        self.size_refusals.insert(s, record);
        false
    }
}

/// One unmapping with a remapping right behind it is no storm: a window without a
/// history of flips is not left to float by its first.
pub proof fn law_one_flip_is_no_storm(records: Map<u64, FlutterRecord>, s: u64, now: u64)
    requires
        records.contains_key(s) ==> records[s].flips == 0,
    ensures
        flutter_after(records, s, true, now).flips < FLUTTER_FLOPS,
{
}

/// A window that comes back after a pause starts its count anew.
pub proof fn law_a_pause_ends_the_storm(records: Map<u64, FlutterRecord>, s: u64, now: u64)
    requires
        records.contains_key(s),
        !recent(records[s], now),
    ensures
        flutter_after(records, s, true, now).flips == 0,
{
}

} // verus!
