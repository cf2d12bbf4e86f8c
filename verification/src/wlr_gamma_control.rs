//! Gamma ramps: one client at a time controls the colours of an output.

use vstd::prelude::*;

use crate::assoc::Assoc;

verus! {

/// The step of a linear ramp of `size` steps at `i`.
pub open spec fn ramp_step(size: int, i: int) -> int {
    (i * 65535) / if size <= 2 {
        1
    } else {
        size - 1
    }
}

/// A linear ramp of `size` steps.
pub fn identity_ramp(size: u32) -> (r: Vec<u16>)
    ensures
        r@.len() == size,
        forall|i: int| 0 <= i < size ==> (#[trigger] r@[i]) == ramp_step(size as int, i),
{
    let last: u64 = if size <= 2 {
        1
    } else {
        size as u64 - 1
    };
    let mut out: Vec<u16> = Vec::new();
    let mut i: u32 = 0;
    while i < size
        invariant
            i <= size,
            last == if size <= 2 {
                1
            } else {
                size as u64 - 1
            },
            out@.len() == i,
            forall|j: int| 0 <= j < i ==> (#[trigger] out@[j]) == ramp_step(size as int, j),
        decreases size - i,
    {
        proof {
            lemma_ramp_range(size as int, i as int);
        }
        out.push(((i as u64 * 65535) / last) as u16);
        i += 1;
    }
    out
}

proof fn lemma_ramp_range(size: int, i: int)
    requires
        0 <= i < size <= 0xffff_ffff,
    ensures
        0 <= ramp_step(size, i) <= 65535,
        i * 65535 <= 0xffff_ffff_ffff,
{
    let last = if size <= 2 {
        1
    } else {
        size - 1
    };
    assert(0 <= (i * 65535) / last <= 65535) by (nonlinear_arith)
        requires
            0 <= i <= last,
            last >= 1,
    ;
}

/// A linear ramp never falls, starts at nothing and, with more than one step,
/// ends at the full value.
pub proof fn law_identity_ramp_spans_the_range(size: int, i: int, j: int)
    requires
        0 <= i <= j < size <= 0xffff_ffff,
    ensures
        0 <= ramp_step(size, i) <= ramp_step(size, j) <= 65535,
        ramp_step(size, 0) == 0,
        size > 1 ==> ramp_step(size, size - 1) == 65535,
{
    lemma_ramp_range(size, i);
    lemma_ramp_range(size, j);
    let last = if size <= 2 {
        1
    } else {
        size - 1
    };
    assert((i * 65535) / last <= (j * 65535) / last) by (nonlinear_arith)
        requires
            0 <= i <= j,
            last >= 1,
    ;
    assert((last * 65535) / last == 65535) by (nonlinear_arith)
        requires
            last >= 1,
    ;
}

/// Why a gamma table was not read.
#[derive(Clone, Copy, Debug, PartialEq, Eq, Structural)]
pub enum GammaTableReadError {
    /// It is no regular file.
    InvalidSource,
    /// It does not hold three ramps of the output's size.
    InvalidLength,
}

/// What to do next while a gamma table is read.
#[derive(Clone, Copy, Debug, PartialEq, Eq, Structural)]
pub enum GammaReadStep {
    /// Read at most `len` bytes at `offset`.
    Read { offset: usize, len: usize },
    /// Look at the length of the file once more.
    Recheck,
    /// The table is complete.
    Done,
    /// The table is refused.
    Failed(GammaTableReadError),
}

/// The reading of a gamma table.
pub struct GammaRead {
    pub expected: usize,
    pub bytes: Vec<u8>,
}

/// How many bytes three ramps of `gamma_size` steps take, where that is a length
/// memory can have.
pub fn gamma_table_len(gamma_size: u32) -> (r: Option<usize>)
    ensures
        r == if gamma_size * 6 <= usize::MAX {
            Some((gamma_size * 6) as usize)
        } else {
            None
        },
{
    let size: usize = gamma_size as usize;
    match size.checked_mul(3) {
        Some(s) => s.checked_mul(2),
        None => None,
    }
}

impl GammaRead {
    pub open spec fn wf(&self) -> bool {
        self.bytes@.len() <= self.expected
    }

    /// What comes next, given what has been read.
    pub open spec fn next(&self) -> GammaReadStep {
        if self.bytes@.len() < self.expected {
            GammaReadStep::Read {
                offset: self.bytes@.len() as usize,
                len: (self.expected - self.bytes@.len()) as usize,
            }
        } else {
            GammaReadStep::Recheck
        }
    }

    /// Begins reading a table for ramps of `gamma_size` steps from a file of
    /// `length` bytes: only a regular file of exactly the right length will do.
    pub fn begin(gamma_size: u32, regular_file: bool, length: i64) -> (r: Result<
        GammaRead,
        GammaTableReadError,
    >)
        ensures
            match r {
                Ok(read) => gamma_size * 6 <= usize::MAX && regular_file && length == gamma_size * 6
                    && read.wf() && read.expected == gamma_size * 6 && read.bytes@.len() == 0,
                Err(GammaTableReadError::InvalidSource) => gamma_size * 6 <= usize::MAX
                    && !regular_file,
                Err(GammaTableReadError::InvalidLength) => gamma_size * 6 > usize::MAX || (
                regular_file && length != gamma_size * 6),
            },
    {
        let expected: usize = match gamma_table_len(gamma_size) {
            Some(len) => len,
            None => {
                return Err(GammaTableReadError::InvalidLength);
            },
        };
        if !regular_file {
            return Err(GammaTableReadError::InvalidSource);
        }
        if length < 0 || length as u64 != expected as u64 {
            return Err(GammaTableReadError::InvalidLength);
        }
        Ok(GammaRead { expected, bytes: Vec::new() })
    }

    /// What to do first.
    pub fn step(&self) -> (r: GammaReadStep)
        requires
            self.wf(),
        ensures
            r == self.next(),
    {
        if self.bytes.len() < self.expected {
            GammaReadStep::Read { offset: self.bytes.len(), len: self.expected - self.bytes.len() }
        } else {
            GammaReadStep::Recheck
        }
    }

    /// Takes in what a read gave. A read that gives nothing means that the file
    /// was cut short.
    pub fn took(&mut self, chunk: &Vec<u8>) -> (r: GammaReadStep)
        requires
            old(self).wf(),
            old(self).bytes@.len() + chunk@.len() <= old(self).expected,
        ensures
            final(self).wf(),
            final(self).expected == old(self).expected,
            final(self).bytes@ == old(self).bytes@ + chunk@,
            r == if chunk@.len() == 0 {
                GammaReadStep::Failed(GammaTableReadError::InvalidLength)
            } else {
                final(self).next()
            },
    {
        if chunk.len() == 0 {
            assert(self.bytes@ =~= old(self).bytes@ + chunk@);
            return GammaReadStep::Failed(GammaTableReadError::InvalidLength);
        }
        let ghost before = self.bytes@;
        let mut i: usize = 0;
        while i < chunk.len()
            invariant
                i <= chunk@.len(),
                self.expected == old(self).expected,
                self.bytes@ == before + chunk@.take(i as int),
                before.len() + chunk@.len() <= self.expected,
            decreases chunk@.len() - i,
        {
            self.bytes.push(chunk[i]);
            i += 1;
            assert(before + chunk@.take(i as int) =~= (before + chunk@.take(i - 1)).push(
                chunk@[i - 1],
            ));
        }
        assert(chunk@.take(i as int) =~= chunk@);
        self.step()
    }

    /// Ends the reading with a last look at the length of the file.
    pub fn finish(&self, length: i64) -> (r: GammaReadStep)
        ensures
            r == if length == self.expected {
                GammaReadStep::Done
            } else {
                GammaReadStep::Failed(GammaTableReadError::InvalidLength)
            },
    {
        if length < 0 || length as u64 != self.expected as u64 {
            GammaReadStep::Failed(GammaTableReadError::InvalidLength)
        } else {
            GammaReadStep::Done
        }
    }
}

/// The order in which a machine keeps the two bytes of a number.
#[derive(Clone, Copy, Debug, PartialEq, Eq, Structural)]
pub enum ByteOrder {
    Little,
    Big,
}

/// The number that two bytes stand for.
pub open spec fn word(a: u8, b: u8, order: ByteOrder) -> int {
    match order {
        ByteOrder::Little => a + 256 * b,
        ByteOrder::Big => 256 * a + b,
    }
}

fn channel(bytes: &Vec<u8>, from: usize, size: usize, order: ByteOrder) -> (r: Vec<u16>)
    requires
        from + 2 * size <= bytes@.len(),
    ensures
        r@.len() == size,
        forall|i: int|
            0 <= i < size ==> (#[trigger] r@[i]) == word(
                bytes@[from + 2 * i],
                bytes@[from + 2 * i + 1],
                order,
            ),
{
    let total: usize = bytes.len();
    let mut out: Vec<u16> = Vec::new();
    let mut i: usize = 0;
    while i < size
        invariant
            i <= size,
            total == bytes@.len(),
            from + 2 * size <= total,
            out@.len() == i,
            forall|j: int|
                0 <= j < i ==> (#[trigger] out@[j]) == word(
                    bytes@[from + 2 * j],
                    bytes@[from + 2 * j + 1],
                    order,
                ),
        decreases size - i,
    {
        let a: u16 = bytes[from + 2 * i] as u16;
        let b: u16 = bytes[from + 2 * i + 1] as u16;
        let value: u16 = match order {
            ByteOrder::Little => a + 256 * b,
            ByteOrder::Big => 256 * a + b,
        };
        out.push(value);
        i += 1;
    }
    out
}

/// The ramps of a complete table: red, green, then blue.
pub fn gamma_channels(bytes: &Vec<u8>, size: u32, order: ByteOrder) -> (r: (
    Vec<u16>,
    Vec<u16>,
    Vec<u16>,
))
    requires
        bytes@.len() == size * 6,
    ensures
        r.0@.len() == size,
        r.1@.len() == size,
        r.2@.len() == size,
        forall|i: int|
            0 <= i < size ==> (#[trigger] r.0@[i]) == word(
                bytes@[2 * i],
                bytes@[2 * i + 1],
                order,
            ),
        forall|i: int|
            0 <= i < size ==> (#[trigger] r.1@[i]) == word(
                bytes@[2 * size + 2 * i],
                bytes@[2 * size + 2 * i + 1],
                order,
            ),
        forall|i: int|
            0 <= i < size ==> (#[trigger] r.2@[i]) == word(
                bytes@[4 * size + 2 * i],
                bytes@[4 * size + 2 * i + 1],
                order,
            ),
{
    let n: usize = bytes.len() / 6;
    (
        channel(bytes, 0, n, order),
        channel(bytes, 2 * n, n, order),
        channel(bytes, 4 * n, n, order),
    )
}

/// What a control acts on while it is valid: an output and its ramp size.
#[derive(Clone, Copy, Debug)]
pub struct ControlData {
    pub target: Option<(u64, u32)>,
}

impl ControlData {
    pub fn new(target: Option<(u64, u32)>) -> (r: Self)
        ensures
            r.target == target,
    {
        ControlData { target }
    }

    /// What the control acts on, if it is still valid.
    pub fn target(&self) -> (r: Option<(u64, u32)>)
        ensures
            r == self.target,
    {
        self.target
    }

    /// Makes the control invalid; gives what it acted on until now.
    pub fn invalidate(&mut self) -> (r: Option<(u64, u32)>)
        ensures
            r == old(self).target,
            final(self).target is None,
    {
        let target = self.target;
        self.target = None;
        target
    }
}

/// Who controls the gamma ramps of each output.
pub struct WlrGammaControlState {
    /// The one control of each output.
    pub controls: Assoc<u64, u64>,
    /// What each control acts on.
    pub data: Assoc<u64, ControlData>,
}

/// What asking for a control brings.
#[derive(Clone, Copy, Debug, PartialEq, Eq, Structural)]
pub struct GammaGrant {
    /// The control that loses the output and is told so.
    pub failed: Option<u64>,
    /// The ramp size the new control is told; it is told that it failed where
    /// there is none.
    pub gamma_size: Option<u32>,
}

/// What a new ramp brings.
#[derive(Clone, Copy, Debug, PartialEq, Eq, Structural)]
pub enum GammaSet {
    /// Nothing: the control is no longer valid.
    Ignored,
    /// The output is gone: the control fails.
    OutputGone,
    /// Read the table and apply it to the output.
    Apply { output: u64, size: u32 },
}

impl WlrGammaControlState {
    /// What control `c` acts on, if it is valid.
    pub open spec fn target_of(&self, c: u64) -> Option<(u64, u32)> {
        if self.data@.contains_key(c) {
            self.data@[c].target
        } else {
            None
        }
    }

    /// A control is valid exactly when it is the one of the output it acts on.
    pub open spec fn wf(&self) -> bool {
        &&& self.controls.wf()
        &&& self.data.wf()
        &&& forall|o: u64| #[trigger]
            self.controls@.contains_key(o) ==> self.target_of(self.controls@[o]) is Some
                && (self.target_of(self.controls@[o])->0).0 == o
        &&& forall|c: u64| #![trigger self.data@[c]]
            self.data@.contains_key(c) && self.data@[c].target is Some
                ==> self.controls@.contains_key((self.data@[c].target->0).0)
                && self.controls@[(self.data@[c].target->0).0] == c
    }

    pub fn new() -> (r: Self)
        ensures
            r.wf(),
            r.controls@ == Map::<u64, u64>::empty(),
            r.data@ == Map::<u64, ControlData>::empty(),
    {
        WlrGammaControlState { controls: Assoc::new(), data: Assoc::new() }
    }

    fn invalidate(&mut self, control: u64) -> (r: bool)
        requires
            old(self).data.wf(),
        ensures
            final(self).data.wf(),
            final(self).controls == old(self).controls,
            r == (old(self).target_of(control) is Some),
            final(self).data@ == if old(self).data@.contains_key(control) {
                old(self).data@.insert(control, ControlData { target: None })
            } else {
                old(self).data@
            },
    {
        match self.data.get(&control) {
            Some(d) => {
                let mut d: ControlData = *d;
                let was = d.invalidate();
                self.data.insert(control, d);
                was.is_some()
            },
            None => false,
        }
    }

    /// A client asks, through the new object `control`, for the ramps of an
    /// output. Where the output is known and has ramps, control passes to it, and
    /// whoever had it before fails.
    pub fn get_gamma_control(&mut self, control: u64, output: Option<u64>, size: Option<u32>) -> (r:
        GammaGrant)
        requires
            old(self).wf(),
            !old(self).data@.contains_key(control),
        ensures
            final(self).wf(),
            match (output, size) {
                (Some(o), Some(s)) => {
                    &&& r.gamma_size == Some(s)
                    &&& r.failed == if old(self).controls@.contains_key(o) {
                        Some(old(self).controls@[o])
                    } else {
                        None
                    }
                    &&& final(self).controls@ == old(self).controls@.insert(o, control)
                    &&& final(self).target_of(control) == Some((o, s))
                },
                _ => {
                    &&& r.gamma_size is None
                    &&& r.failed is None
                    &&& final(self).controls@ == old(self).controls@
                    &&& final(self).target_of(control) is None
                },
            },
            r.failed is Some ==> final(self).target_of(r.failed->0) is None,
            forall|c: u64|
                c != control && Some(c) != r.failed ==> (#[trigger] final(self).target_of(c))
                    == old(self).target_of(c),
            final(self).data@.contains_key(control),
    {
        match (output, size) {
            (Some(o), Some(s)) => {
                let holder: Option<u64> = match self.controls.get(&o) {
                    Some(c) => Some(*c),
                    None => None,
                };
                let failed = match holder {
                    Some(c) => {
                        let _ = self.invalidate(c);
                        Some(c)
                    },
                    None => None,
                };
                self.controls.insert(o, control);
                self.data.insert(control, ControlData::new(Some((o, s))));
                GammaGrant { failed, gamma_size: Some(s) }
            },
            _ => {
                self.data.insert(control, ControlData::new(None));
                GammaGrant { failed: None, gamma_size: None }
            },
        }
    }

    /// A client sends a ramp through `control`. Where the output it acts on is
    /// gone, the control fails.
    pub fn set_gamma(&mut self, control: u64, output_alive: bool) -> (r: GammaSet)
        requires
            old(self).wf(),
        ensures
            final(self).wf(),
            r == match old(self).target_of(control) {
                None => GammaSet::Ignored,
                Some((output, size)) => if output_alive {
                    GammaSet::Apply { output, size }
                } else {
                    GammaSet::OutputGone
                },
            },
            r == GammaSet::OutputGone ==> final(self).target_of(control) is None
                && final(self).controls@ == old(self).controls@.remove(
                (old(self).target_of(control)->0).0,
            ),
            r != GammaSet::OutputGone ==> final(self).controls@ == old(self).controls@
                && final(self).data@ == old(self).data@,
            forall|c: u64|
                c != control ==> (#[trigger] final(self).target_of(c)) == old(self).target_of(c),
    {
        let target: Option<(u64, u32)> = match self.data.get(&control) {
            Some(d) => d.target(),
            None => None,
        };
        match target {
            None => GammaSet::Ignored,
            Some((output, size)) => {
                if output_alive {
                    GammaSet::Apply { output, size }
                } else {
                    self.fail(control);
                    GammaSet::OutputGone
                }
            },
        }
    }

    /// Takes the output away from `control`, which is told that it failed: its
    /// ramp could not be applied, or its output is gone. Gives whether it was
    /// valid until now.
    pub fn fail(&mut self, control: u64) -> (r: bool)
        requires
            old(self).wf(),
        ensures
            final(self).wf(),
            r == (old(self).target_of(control) is Some),
            final(self).target_of(control) is None,
            final(self).controls@ == match old(self).target_of(control) {
                Some((output, _)) => old(self).controls@.remove(output),
                None => old(self).controls@,
            },
            forall|c: u64|
                c != control ==> (#[trigger] final(self).target_of(c)) == old(self).target_of(c),
    {
        let target: Option<(u64, u32)> = match self.data.get(&control) {
            Some(d) => d.target(),
            None => None,
        };
        if let Some((output, _)) = target {
            let _ = self.controls.remove(&output);
        }
        self.invalidate(control)
    }

    /// The client lets go of `control`. Where it was the output's control, the
    /// output gets its linear ramp back, if it is still there.
    pub fn destroyed(&mut self, control: u64, output_alive: bool) -> (r: Option<(u64, u32)>)
        requires
            old(self).wf(),
        ensures
            final(self).wf(),
            r == if output_alive {
                old(self).target_of(control)
            } else {
                None
            },
            final(self).target_of(control) is None,
            !final(self).data@.contains_key(control),
            final(self).controls@ == match old(self).target_of(control) {
                Some((output, _)) => old(self).controls@.remove(output),
                None => old(self).controls@,
            },
            forall|c: u64|
                c != control ==> (#[trigger] final(self).target_of(c)) == old(self).target_of(c),
    {
        let target: Option<(u64, u32)> = match self.data.get(&control) {
            Some(d) => d.target(),
            None => None,
        };
        let _ = self.fail(control);
        let _ = self.data.remove(&control);
        if output_alive {
            target
        } else {
            None
        }
    }

    /// An output is gone: its control fails. Gives the control that is told so.
    pub fn output_removed(&mut self, output: u64) -> (r: Option<u64>)
        requires
            old(self).wf(),
        ensures
            final(self).wf(),
            r == if old(self).controls@.contains_key(output) {
                Some(old(self).controls@[output])
            } else {
                None
            },
            final(self).controls@ == old(self).controls@.remove(output),
            r is Some ==> final(self).target_of(r->0) is None,
            forall|c: u64|
                Some(c) != r ==> (#[trigger] final(self).target_of(c)) == old(self).target_of(c),
    {
        let holder: Option<u64> = match self.controls.get(&output) {
            Some(c) => Some(*c),
            None => None,
        };
        match holder {
            Some(c) => {
                proof {
                    assert(self.target_of(self.controls@[output]) is Some);
                }
                let _ = self.fail(c);
                Some(c)
            },
            None => {
                assert(self.controls@ =~= self.controls@.remove(output));
                None
            },
        }
    }
}

/// No two valid controls act on the same output.
pub proof fn law_one_control_per_output(state: WlrGammaControlState, a: u64, b: u64)
    requires
        state.wf(),
        state.target_of(a) is Some,
        state.target_of(b) is Some,
        (state.target_of(a)->0).0 == (state.target_of(b)->0).0,
    ensures
        a == b,
{
    assert(state.data@[a].target is Some);
    assert(state.data@[b].target is Some);
}

} // verus!
