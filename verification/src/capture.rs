//! Captures of outputs and windows that clients ask for frame by frame.

use vstd::prelude::*;

use crate::assoc::Assoc;
use crate::seqs::{lemma_filter_ends, lemma_filter_step};
use crate::text::text_eq;

verus! {

/// How many captures go on at most.
pub const MAX_CAPTURE_SESSIONS: usize = 64;

/// The captures that go on.
pub struct CaptureSessions {
    pub sessions: Vec<u64>,
}

/// The capture is still wanted.
pub open spec fn wanted(alive: Seq<u64>) -> spec_fn(u64) -> bool {
    |s: u64| alive.contains(s)
}

fn listed(list: &Vec<u64>, n: u64) -> (r: bool)
    ensures
        r == list@.contains(n),
{
    let mut i: usize = 0;
    while i < list.len()
        invariant
            i <= list@.len(),
            forall|j: int| 0 <= j < i ==> list@[j] != n,
        decreases list@.len() - i,
    {
        if list[i] == n {
            assert(list@[i as int] == n);
            return true;
        }
        i += 1;
    }
    false
}

impl CaptureSessions {
    pub open spec fn wf(&self) -> bool {
        self.sessions@.len() <= MAX_CAPTURE_SESSIONS
    }

    pub fn new() -> (r: Self)
        ensures
            r.wf(),
            r.sessions@ == Seq::<u64>::empty(),
    {
        CaptureSessions { sessions: Vec::new() }
    }

    /// Forgets the captures that nobody wants any more.
    pub fn prune(&mut self, alive: &Vec<u64>)
        requires
            old(self).wf(),
        ensures
            final(self).wf(),
            final(self).sessions@ == old(self).sessions@.filter(wanted(alive@)),
    {
        let ghost before = self.sessions@;
        let mut out: Vec<u64> = Vec::new();
        let mut i: usize = 0;
        proof {
            lemma_filter_ends(before, wanted(alive@));
        }
        while i < self.sessions.len()
            invariant
                before == self.sessions@,
                before.len() <= MAX_CAPTURE_SESSIONS,
                i <= before.len(),
                out@.len() <= i,
                out@ == before.take(i as int).filter(wanted(alive@)),
            decreases before.len() - i,
        {
            proof {
                lemma_filter_step(before, i as int, wanted(alive@));
            }
            if listed(alive, self.sessions[i]) {
                out.push(self.sessions[i]);
            }
            i += 1;
        }
        proof {
            lemma_filter_ends(before, wanted(alive@));
        }
        self.sessions = out;
    }

    /// A capture begins, unless there are too many; gives whether it may. Those that
    /// nobody wants any more do not count.
    pub fn new_session(&mut self, session: u64, alive: &Vec<u64>) -> (r: bool)
        requires
            old(self).wf(),
        ensures
            final(self).wf(),
            ({
                let left = old(self).sessions@.filter(wanted(alive@));
                &&& r == (left.len() < MAX_CAPTURE_SESSIONS)
                &&& final(self).sessions@ == if r {
                    left.push(session)
                } else {
                    left
                }
            }),
    {
        self.prune(alive);
        if self.sessions.len() >= MAX_CAPTURE_SESSIONS {
            return false;
        }
        self.sessions.push(session);
        true
    }
}

/// What a capture shows.
#[derive(Clone, Copy, Debug, PartialEq, Eq, Structural)]
pub enum CaptureSource {
    Window(u64),
    /// An output, where it is still there.
    Output(Option<u64>),
    /// Nothing: the window was gone when the capture was asked for.
    Gone,
}

/// What a capture of a window shows that a client names by its identifier: the window
/// that was announced with it.
pub fn toplevel_source_created(announced: &Assoc<u64, String>, identifier: &str) -> (r:
    CaptureSource)
    requires
        announced.wf(),
    ensures
        match r {
            CaptureSource::Window(s) => announced@.contains_key(s) && announced@[s]@
                == identifier@,
            CaptureSource::Gone => forall|s: u64| #[trigger]
                announced@.contains_key(s) ==> announced@[s]@ != identifier@,
            CaptureSource::Output(_) => false,
        },
{
    let mut i: usize = 0;
    while i < announced.entries.len()
        invariant
            i <= announced.entries@.len(),
            announced.wf(),
            forall|j: int|
                0 <= j < i ==> (#[trigger] announced.entries@[j]).1@ != identifier@,
        decreases announced.entries@.len() - i,
    {
        proof {
            announced.lemma_entry(i as int);
        }
        if text_eq(announced.entries[i].1.as_str(), identifier) {
            return CaptureSource::Window(announced.entries[i].0);
        }
        i += 1;
    }
    CaptureSource::Gone
}

/// A capture to make.
#[derive(Clone, Copy, Debug, PartialEq, Eq, Structural)]
pub struct CaptureJob {
    pub output: u64,
    pub window: Option<u64>,
    pub draw_cursor: bool,
}

/// The capture that is made for a frame; none where what it shows is gone. A window
/// is captured, without the pointer, on the output that draws it.
pub fn frame(source: CaptureSource, window_output: Option<u64>, draw_cursor: bool) -> (r: Option<
    CaptureJob,
>)
    ensures
        r == match source {
            CaptureSource::Window(s) => match window_output {
                Some(output) => Some(CaptureJob { output, window: Some(s), draw_cursor: false }),
                None => None,
            },
            CaptureSource::Output(Some(output)) => Some(
                CaptureJob { output, window: None, draw_cursor },
            ),
            _ => None,
        },
{
    match source {
        CaptureSource::Window(s) => match window_output {
            Some(output) => Some(CaptureJob { output, window: Some(s), draw_cursor: false }),
            None => None,
        },
        CaptureSource::Output(Some(output)) => Some(
            CaptureJob { output, window: None, draw_cursor },
        ),
        _ => None,
    }
}

/// The size of the buffers for a capture: that of the output's mode, or that of the
/// window on the output that draws it, but one pixel at least. `scaled` is the size
/// of the window in that output's pixels.
pub fn capture_constraints(
    source: CaptureSource,
    mapped: bool,
    window_output: Option<u64>,
    scaled: (i32, i32),
    mode: Option<(i32, i32)>,
) -> (r: Option<(i32, i32)>)
    ensures
        r == match source {
            CaptureSource::Window(_) => if mapped && window_output is Some {
                Some(
                    (
                        if scaled.0 < 1 {
                            1
                        } else {
                            scaled.0
                        },
                        if scaled.1 < 1 {
                            1
                        } else {
                            scaled.1
                        },
                    ),
                )
            } else {
                None
            },
            CaptureSource::Output(Some(_)) => mode,
            _ => None,
        },
{
    match source {
        CaptureSource::Window(_) => if mapped && window_output.is_some() {
            let w: i32 = if scaled.0 < 1 {
                1
            } else {
                scaled.0
            };
            let h: i32 = if scaled.1 < 1 {
                1
            } else {
                scaled.1
            };
            Some((w, h))
        } else {
            None
        },
        CaptureSource::Output(Some(_)) => mode,
        _ => None,
    }
}

} // verus!
