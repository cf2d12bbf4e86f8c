//! Smaller services to clients: keeping the session awake, passing on the focus,
//! decorations, and the scale of surfaces.

use vstd::prelude::*;

use crate::assoc::Assoc;
use crate::desk::or_else;

verus! {

/// Who keeps the session awake, and how many times each.
pub struct IdleInhibitors {
    pub counts: Assoc<u64, u64>,
}

impl IdleInhibitors {
    /// No surface is listed that does not keep the session awake.
    pub open spec fn wf(&self) -> bool {
        &&& self.counts.wf()
        &&& forall|s: u64| #[trigger] self.counts@.contains_key(s) ==> self.counts@[s] > 0
    }

    /// Something keeps the session awake.
    pub open spec fn awake(&self) -> bool {
        exists|s: u64| #[trigger] self.counts@.contains_key(s)
    }

    pub fn new() -> (r: Self)
        ensures
            r.wf(),
            r.counts@ == Map::<u64, u64>::empty(),
            !r.awake(),
    {
        IdleInhibitors { counts: Assoc::new() }
    }

    fn is_empty(&self) -> (r: bool)
        requires
            self.wf(),
        ensures
            r == !self.awake(),
    {
        if self.counts.entries.len() > 0 {
            proof {
                self.counts.lemma_entry(0);
            }
            false
        } else {
            true
        }
    }

    /// A surface keeps the session awake, once more. Gives whether the session has
    /// to be told so.
    pub fn inhibit(&mut self, s: u64) -> (r: bool)
        requires
            old(self).wf(),
            old(self).counts@.contains_key(s) ==> old(self).counts@[s] < u64::MAX,
        ensures
            final(self).wf(),
            final(self).awake(),
            r == !old(self).awake(),
            final(self).counts@ == old(self).counts@.insert(
                s,
                if old(self).counts@.contains_key(s) {
                    (old(self).counts@[s] + 1) as u64
                } else {
                    1
                },
            ),
    {
        let was_empty: bool = self.is_empty();
        let count: u64 = match self.counts.get(&s) {
            Some(count) => *count,
            None => 0,
        };
        self.counts.insert(s, count + 1);
        assert(self.counts@.contains_key(s));
        was_empty
    }

    /// A surface keeps the session awake, once less. Gives whether the session may
    /// sleep.
    pub fn uninhibit(&mut self, s: u64) -> (r: bool)
        requires
            old(self).wf(),
        ensures
            final(self).wf(),
            r == !final(self).awake(),
            final(self).counts@ == if !old(self).counts@.contains_key(s) {
                old(self).counts@
            } else if old(self).counts@[s] == 1 {
                old(self).counts@.remove(s)
            } else {
                old(self).counts@.insert(s, (old(self).counts@[s] - 1) as u64)
            },
    {
        if let Some(count) = self.counts.get(&s) {
            let left: u64 = *count - 1;
            if left == 0 {
                let _ = self.counts.remove(&s);
            } else {
                self.counts.insert(s, left);
            }
        }
        self.is_empty()
    }

    /// A surface is destroyed: it keeps the session awake no more, however often it
    /// did. Gives whether the session has to be told that it may sleep.
    pub fn surface_destroyed(&mut self, s: u64) -> (r: bool)
        requires
            old(self).wf(),
        ensures
            final(self).wf(),
            final(self).counts@ == old(self).counts@.remove(s),
            r == (old(self).counts@.contains_key(s) && !final(self).awake()),
    {
        let listed: bool = self.counts.remove(&s).is_some();
        listed && self.is_empty()
    }
}

/// What one surface asked for it can take back: as long as it does nothing else, the
/// session is left as it was.
pub proof fn law_uninhibit_undoes_inhibit(before: Map<u64, u64>, s: u64)
    requires
        before.contains_key(s) ==> 0 < before[s] < u64::MAX,
    ensures
        ({
            let more = before.insert(
                s,
                if before.contains_key(s) {
                    (before[s] + 1) as u64
                } else {
                    1
                },
            );
            let back = if more[s] == 1 {
                more.remove(s)
            } else {
                more.insert(s, (more[s] - 1) as u64)
            };
            back == before
        }),
{
    if before.contains_key(s) {
        assert(before.insert(s, (before[s] + 1) as u64).insert(s, before[s]) =~= before);
    } else {
        assert(before.insert(s, 1).remove(s) =~= before);
    }
}

/// A token for passing on the focus is good for so many seconds.
pub const ACTIVATION_SECONDS: u64 = 10;

/// A token may be made: it names no input at all, or one of this seat.
pub fn token_created(names_input: bool, own_seat: bool) -> (r: bool)
    ensures
        r == (!names_input || own_seat),
{
    !names_input || own_seat
}

/// What becomes of a request to pass on the focus. The token is used up either way.
#[derive(Clone, Copy, Debug, PartialEq, Eq, Structural)]
pub enum ActivationReply {
    /// The token is too old.
    Nothing,
    Activate,
    /// The input it goes back to is not the latest: the window only asks for
    /// attention.
    MarkUrgent,
}

/// What becomes of a request to pass on the focus, with a token of that many seconds.
pub fn request_activation(age: u64, fresh_input: bool) -> (r: ActivationReply)
    ensures
        r == if age >= ACTIVATION_SECONDS {
            ActivationReply::Nothing
        } else if fresh_input {
            ActivationReply::Activate
        } else {
            ActivationReply::MarkUrgent
        },
{
    if age >= ACTIVATION_SECONDS {
        ActivationReply::Nothing
    } else if fresh_input {
        ActivationReply::Activate
    } else {
        ActivationReply::MarkUrgent
    }
}

/// Who draws the decorations of a window.
#[derive(Clone, Copy, Debug, PartialEq, Eq, Structural)]
pub enum Decorations {
    ClientSide,
    ServerSide,
}

/// Who draws the decorations of a window, whatever it asked for, and whether it is
/// told so at once; before its first state it is told along with that.
pub fn decoration_mode(asked: Option<Decorations>, initial_configure_sent: bool) -> (r: (
    Decorations,
    bool,
))
    ensures
        r == (Decorations::ServerSide, initial_configure_sent),
{
    let _ = asked;
    (Decorations::ServerSide, initial_configure_sent)
}

/// The output whose scale a surface is told: the one that shows it, the one that
/// shows its root, the one its window is on, or the first there is.
pub fn scale_output(
    scanout: Option<u64>,
    root_scanout: Option<u64>,
    is_root: bool,
    window_output: Option<u64>,
    first: Option<u64>,
) -> (r: Option<u64>)
    ensures
        r == or_else(
            or_else(
                or_else(
                    scanout,
                    if is_root {
                        None
                    } else {
                        root_scanout
                    },
                ),
                window_output,
            ),
            first,
        ),
{
    if scanout.is_some() {
        return scanout;
    }
    if !is_root && root_scanout.is_some() {
        return root_scanout;
    }
    if window_output.is_some() {
        return window_output;
    }
    first
}

/// Whether a new constraint of the pointer is in force at once: the surface it is for
/// is among those under the pointer, from the surface up to its root, and it is not
/// in force already.
pub fn new_constraint(surface: u64, focus_chain: &Vec<u64>, active: Option<bool>) -> (r: bool)
    ensures
        r == (focus_chain@.contains(surface) && active == Some(false)),
{
    let mut i: usize = 0;
    while i < focus_chain.len()
        invariant
            i <= focus_chain@.len(),
            forall|j: int| 0 <= j < i ==> focus_chain@[j] != surface,
        decreases focus_chain@.len() - i,
    {
        if focus_chain[i] == surface {
            assert(focus_chain@[i as int] == surface);
            return match active {
                Some(active) => !active,
                None => false,
            };
        }
        i += 1;
    }
    false
}

} // verus!
