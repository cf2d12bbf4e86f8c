//! Switching outputs on and off for clients.

use vstd::prelude::*;

use crate::assoc::Assoc;
use crate::seqs::{lemma_filter_ends, lemma_filter_member, lemma_filter_step};

verus! {

/// A client's control over the power of an output.
#[derive(Clone, Copy, Debug, PartialEq, Eq, Structural)]
pub struct PowerControl {
    pub output: u64,
    pub control: u64,
}

/// Whether the outputs are on, and who wants to know.
pub struct WlrOutputPowerManagementState {
    pub power: Assoc<u64, bool>,
    pub controls: Vec<PowerControl>,
}

/// The control is for this output.
pub open spec fn watches(output: u64) -> spec_fn(PowerControl) -> bool {
    |c: PowerControl| c.output == output
}

/// The control is for another output.
pub open spec fn watches_not(output: u64) -> spec_fn(PowerControl) -> bool {
    |c: PowerControl| c.output != output
}

/// It is another control.
pub open spec fn control_not(control: u64) -> spec_fn(PowerControl) -> bool {
    |c: PowerControl| c.control != control
}

/// What a client is told.
#[derive(Clone, Copy, Debug, PartialEq, Eq, Structural)]
pub enum PowerReply {
    Mode(bool),
    Failed,
}

/// What follows from a client's wish for a mode.
pub enum ModeStep {
    /// The control is for no output: nothing.
    Ignored,
    /// The number names no mode: the client is in error.
    InvalidMode,
    /// The output is switched on or off.
    Switch { output: u64, on: bool },
}

impl WlrOutputPowerManagementState {
    pub open spec fn wf(&self) -> bool {
        self.power.wf()
    }

    /// The output is on; one that was never switched is.
    pub open spec fn on(&self, output: u64) -> bool {
        self.power@.contains_key(output) ==> self.power@[output]
    }

    pub fn new() -> (r: Self)
        ensures
            r.wf(),
            r.power@ == Map::<u64, bool>::empty(),
            r.controls@ == Seq::<PowerControl>::empty(),
    {
        WlrOutputPowerManagementState { power: Assoc::new(), controls: Vec::new() }
    }

    /// Whether an output is on.
    pub fn is_on(&self, output: u64) -> (r: bool)
        requires
            self.wf(),
        ensures
            r == self.on(output),
    {
        match self.power.get(&output) {
            Some(on) => *on,
            None => true,
        }
    }

    fn watchers(&self, output: u64) -> (r: Vec<PowerControl>)
        ensures
            r@ == self.controls@.filter(watches(output)),
    {
        let mut out: Vec<PowerControl> = Vec::new();
        let mut i: usize = 0;
        proof {
            lemma_filter_ends(self.controls@, watches(output));
        }
        while i < self.controls.len()
            invariant
                i <= self.controls@.len(),
                out@ == self.controls@.take(i as int).filter(watches(output)),
            decreases self.controls@.len() - i,
        {
            proof {
                lemma_filter_step(self.controls@, i as int, watches(output));
            }
            if self.controls[i].output == output {
                out.push(self.controls[i]);
            }
            i += 1;
        }
        proof {
            lemma_filter_ends(self.controls@, watches(output));
        }
        out
    }

    /// Records whether an output is on. Gives the controls that are told so.
    pub fn set(&mut self, output: u64, on: bool) -> (r: Vec<PowerControl>)
        requires
            old(self).wf(),
        ensures
            final(self).wf(),
            final(self).power@ == old(self).power@.insert(output, on),
            final(self).controls == old(self).controls,
            r@ == old(self).controls@.filter(watches(output)),
    {
        self.power.insert(output, on);
        self.watchers(output)
    }

    /// Records that an output was switched on from elsewhere. Only where it was off
    /// are its controls told so; gives them.
    pub fn force_on(&mut self, output: u64) -> (r: Vec<PowerControl>)
        requires
            old(self).wf(),
        ensures
            final(self).wf(),
            final(self).power@ == old(self).power@.insert(output, true),
            final(self).controls == old(self).controls,
            r@ == if old(self).on(output) {
                Seq::empty()
            } else {
                old(self).controls@.filter(watches(output))
            },
    {
        let was_on: bool = self.is_on(output);
        self.power.insert(output, true);
        if was_on {
            Vec::new()
        } else {
            self.watchers(output)
        }
    }

    /// Forgets an output that is gone.
    pub fn output_removed(&mut self, output: u64)
        requires
            old(self).wf(),
        ensures
            final(self).wf(),
            final(self).power@ == old(self).power@.remove(output),
            final(self).controls@ == old(self).controls@.filter(watches_not(output)),
    {
        let _ = self.power.remove(&output);
        let mut out: Vec<PowerControl> = Vec::new();
        let mut i: usize = 0;
        proof {
            lemma_filter_ends(self.controls@, watches_not(output));
        }
        while i < self.controls.len()
            invariant
                i <= self.controls@.len(),
                out@ == self.controls@.take(i as int).filter(watches_not(output)),
            decreases self.controls@.len() - i,
        {
            proof {
                lemma_filter_step(self.controls@, i as int, watches_not(output));
            }
            if self.controls[i].output != output {
                out.push(self.controls[i]);
            }
            i += 1;
        }
        proof {
            lemma_filter_ends(self.controls@, watches_not(output));
        }
        self.controls = out;
    }

    /// A client asks for a control over an output, if that is there. Gives what it
    /// is told first.
    pub fn get_output_power(&mut self, output: Option<u64>, control: u64) -> (r: PowerReply)
        requires
            old(self).wf(),
        ensures
            final(self).wf(),
            final(self).power == old(self).power,
            match output {
                Some(o) => r == PowerReply::Mode(old(self).on(o)) && final(self).controls@
                    == old(self).controls@.push(PowerControl { output: o, control }),
                None => r == PowerReply::Failed && final(self).controls == old(self).controls,
            },
    {
        match output {
            Some(o) => {
                let on: bool = self.is_on(o);
                self.controls.push(PowerControl { output: o, control });
                PowerReply::Mode(on)
            },
            None => PowerReply::Failed,
        }
    }

    /// The hardware did, or did not, what a client wished. Gives the controls that
    /// are told the mode; where the wish failed, only the client's own is told.
    pub fn mode_applied(&mut self, output: u64, on: bool, applied: bool) -> (r: Option<
        Vec<PowerControl>,
    >)
        requires
            old(self).wf(),
        ensures
            final(self).wf(),
            final(self).controls == old(self).controls,
            if applied {
                &&& final(self).power@ == old(self).power@.insert(output, on)
                &&& r is Some && (r->0)@ == old(self).controls@.filter(watches(output))
            } else {
                final(self).power == old(self).power && r is None
            },
    {
        if applied {
            Some(self.set(output, on))
        } else {
            None
        }
    }

    /// A control is gone.
    pub fn destroyed(&mut self, control: u64)
        requires
            old(self).wf(),
        ensures
            final(self).wf(),
            final(self).power == old(self).power,
            final(self).controls@ == old(self).controls@.filter(control_not(control)),
    {
        let mut out: Vec<PowerControl> = Vec::new();
        let mut i: usize = 0;
        proof {
            lemma_filter_ends(self.controls@, control_not(control));
        }
        while i < self.controls.len()
            invariant
                i <= self.controls@.len(),
                out@ == self.controls@.take(i as int).filter(control_not(control)),
            decreases self.controls@.len() - i,
        {
            proof {
                lemma_filter_step(self.controls@, i as int, control_not(control));
            }
            if self.controls[i].control != control {
                out.push(self.controls[i]);
            }
            i += 1;
        }
        proof {
            lemma_filter_ends(self.controls@, control_not(control));
        }
        self.controls = out;
    }
}

/// What follows from a client's wish for a mode, by its number: off is the first,
/// on the second.
pub fn set_mode(output: Option<u64>, mode: u32) -> (r: ModeStep)
    ensures
        r == if output is None {
            ModeStep::Ignored
        } else if mode > 1 {
            ModeStep::InvalidMode
        } else {
            ModeStep::Switch { output: output->0, on: mode == 1 }
        },
{
    match output {
        None => ModeStep::Ignored,
        Some(output) => if mode > 1 {
            ModeStep::InvalidMode
        } else {
            ModeStep::Switch { output, on: mode == 1 }
        },
    }
}

/// An output that is gone and comes back starts on, with nobody watching it.
pub proof fn law_output_comes_back_on(
    before: WlrOutputPowerManagementState,
    after: WlrOutputPowerManagementState,
    output: u64,
)
    requires
        after.power@ == before.power@.remove(output),
        after.controls@ == before.controls@.filter(watches_not(output)),
    ensures
        after.on(output),
        after.controls@.filter(watches(output)).len() == 0,
{
    let left = after.controls@.filter(watches(output));
    if left.len() > 0 {
        assert(left.contains(left[0]));
        lemma_filter_member(after.controls@, watches(output), left[0]);
        lemma_filter_member(before.controls@, watches_not(output), left[0]);
    }
}

} // verus!
