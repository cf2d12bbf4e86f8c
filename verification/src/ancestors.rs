//! The ancestors of a process.

use vstd::prelude::*;

use crate::text::{after_prefix, find_after_prefix, parse_i32, parsed_i32, trim, trimmed};

verus! {

/// How many ancestors of a process are looked at.
pub const MAX_ANCESTORS: usize = 16;

/// The parent that the status text of a process names.
pub open spec fn parent_of(status: Seq<char>) -> Option<i32> {
    match after_prefix(status, "PPid:"@) {
        Some(value) => parsed_i32(trimmed(value)),
        None => None,
    }
}

/// The parent that the status text of a process names.
pub fn parent_pid(status: &str) -> (r: Option<i32>)
    ensures
        r == parent_of(status@),
{
    match find_after_prefix(status, "PPid:") {
        Some(value) => {
            let value: String = trim(value.as_str());
            parse_i32(value.as_str())
        },
        None => None,
    }
}

/// The walk up the ancestors of a process, nearest first. It stops below the
/// first process, at a status that cannot be read, and at the limit.
pub struct AncestorWalk {
    pub current: i32,
    pub found: Vec<i32>,
    pub done: bool,
}

/// The walk up from `pid`, given the status texts of the processes in turn.
pub open spec fn ancestors_of(statuses: Seq<Option<Seq<char>>>, limit: nat) -> Seq<i32>
    decreases limit,
{
    if limit == 0 || statuses.len() == 0 || statuses[0] is None {
        Seq::empty()
    } else {
        match parent_of(statuses[0]->0) {
            Some(parent) => if parent <= 1 {
                Seq::empty()
            } else {
                seq![parent] + ancestors_of(statuses.skip(1), (limit - 1) as nat)
            },
            None => Seq::empty(),
        }
    }
}

impl AncestorWalk {
    pub open spec fn wf(&self) -> bool {
        self.found@.len() <= MAX_ANCESTORS
    }

    /// Starts at the process `pid`, which is not its own ancestor.
    pub fn new(pid: i32) -> (r: Self)
        ensures
            r.wf(),
            r.current == pid,
            r.found@ == Seq::<i32>::empty(),
            !r.done,
    {
        AncestorWalk { current: pid, found: Vec::new(), done: false }
    }

    /// The process whose status is wanted next.
    pub fn wanted(&self) -> (r: Option<i32>)
        ensures
            r == if self.done || self.found@.len() >= MAX_ANCESTORS {
                None
            } else {
                Some(self.current)
            },
    {
        if self.done || self.found.len() >= MAX_ANCESTORS {
            None
        } else {
            Some(self.current)
        }
    }

    /// Goes one step up with the status of the process that was wanted.
    pub fn step(&mut self, status: &Option<String>)
        requires
            old(self).wf(),
            !old(self).done,
            old(self).found@.len() < MAX_ANCESTORS,
        ensures
            final(self).wf(),
            ({
                let parent = match status {
                    Some(text) => parent_of(text@),
                    None => None,
                };
                if parent is Some && parent->0 > 1 {
                    &&& final(self).found@ == old(self).found@.push(parent->0)
                    &&& final(self).current == parent->0
                    &&& !final(self).done
                } else {
                    &&& final(self).found == old(self).found
                    &&& final(self).current == old(self).current
                    &&& final(self).done
                }
            }),
    {
        let parent: Option<i32> = match status {
            Some(text) => parent_pid(text.as_str()),
            None => None,
        };
        match parent {
            Some(p) => if p > 1 {
                self.found.push(p);
                self.current = p;
            } else {
                self.done = true;
            },
            None => {
                self.done = true;
            },
        }
    }
}

/// The ancestors of a process, from the status texts of the process, its parent,
/// and so on.
pub fn ancestor_pids(pid: i32, statuses: &Vec<Option<String>>) -> (r: Vec<i32>)
    ensures
        r@ == ancestors_of(
            statuses@.map_values(
                |s: Option<String>|
                    match s {
                        Some(text) => Some(text@),
                        None => None,
                    },
            ),
            MAX_ANCESTORS as nat,
        ),
{
    let ghost all = statuses@.map_values(
        |s: Option<String>|
            match s {
                Some(text) => Some(text@),
                None => None,
            },
    );
    let mut walk: AncestorWalk = AncestorWalk::new(pid);
    let mut i: usize = 0;
    assert(all.skip(0) =~= all);
    assert(walk.found@ + ancestors_of(all, MAX_ANCESTORS as nat) =~= ancestors_of(
        all,
        MAX_ANCESTORS as nat,
    ));
    while i < statuses.len() && !walk.done && walk.found.len() < MAX_ANCESTORS
        invariant
            walk.wf(),
            i <= statuses@.len(),
            all == statuses@.map_values(
                |s: Option<String>|
                    match s {
                        Some(text) => Some(text@),
                        None => None,
                    },
            ),
            !walk.done ==> walk.found@.len() == i,
            walk.done ==> walk.found@ == ancestors_of(all, MAX_ANCESTORS as nat),
            !walk.done ==> walk.found@ + ancestors_of(
                all.skip(i as int),
                (MAX_ANCESTORS - i) as nat,
            ) == ancestors_of(all, MAX_ANCESTORS as nat),
        decreases statuses@.len() - i,
    {
        let ghost before = walk.found@;
        let ghost rest = ancestors_of(all.skip(i as int), (MAX_ANCESTORS - i) as nat);
        proof {
            assert(all.skip(i as int)[0] == all[i as int]);
            assert(all.skip(i as int).skip(1) =~= all.skip(i + 1));
        }
        walk.step(&statuses[i]);
        proof {
            if walk.done {
                assert(rest =~= Seq::<i32>::empty());
                assert(before + rest =~= before);
            } else {
                let tail = ancestors_of(all.skip(i + 1), (MAX_ANCESTORS - i - 1) as nat);
                assert(before + (seq![walk.current] + tail) =~= walk.found@ + tail);
            }
        }
        i += 1;
    }
    proof {
        if !walk.done {
            let rest = ancestors_of(all.skip(i as int), (MAX_ANCESTORS - i) as nat);
            assert(rest =~= Seq::<i32>::empty());
            assert(walk.found@ + rest =~= walk.found@);
        }
    }
    walk.found
}

} // verus!
