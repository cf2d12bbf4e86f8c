//! Changes to outputs, asked for as a whole: all of them are made, or none.

use vstd::prelude::*;

use crate::assoc::Assoc;

verus! {

/// How an output is turned and mirrored.
#[derive(Clone, Copy, Debug, PartialEq, Eq, Structural)]
pub enum Transform {
    Normal,
    Rotated90,
    Rotated180,
    Rotated270,
    Flipped,
    Flipped90,
    Flipped180,
    Flipped270,
}

/// The transformation that a number stands for.
pub open spec fn transform_of(n: u32) -> Option<Transform> {
    match n {
        0 => Some(Transform::Normal),
        1 => Some(Transform::Rotated90),
        2 => Some(Transform::Rotated180),
        3 => Some(Transform::Rotated270),
        4 => Some(Transform::Flipped),
        5 => Some(Transform::Flipped90),
        6 => Some(Transform::Flipped180),
        7 => Some(Transform::Flipped270),
        _ => None,
    }
}

/// The transformation that a number stands for.
pub fn transform_from_number(n: u32) -> (r: Option<Transform>)
    ensures
        r == transform_of(n),
{
    match n {
        0 => Some(Transform::Normal),
        1 => Some(Transform::Rotated90),
        2 => Some(Transform::Rotated180),
        3 => Some(Transform::Rotated270),
        4 => Some(Transform::Flipped),
        5 => Some(Transform::Flipped90),
        6 => Some(Transform::Flipped180),
        7 => Some(Transform::Flipped270),
        _ => None,
    }
}

/// What a client asks of an output that stays on.
#[derive(Clone, Copy, Debug)]
pub struct EnabledHeadConfig {
    pub position: Option<(i32, i32)>,
    pub transform: Option<Transform>,
    /// In 256ths.
    pub scale: Option<i32>,
    /// Width, height and refresh rate, where it is not to keep its mode.
    pub custom_mode: Option<(i32, i32, i32)>,
    pub mode_assigned: bool,
}

/// What a client asks of an output.
#[derive(Clone, Copy, Debug)]
pub enum HeadOp {
    Disabled,
    Enabled(EnabledHeadConfig),
}

/// What a client did wrong.
#[derive(Clone, Copy, Debug, PartialEq, Eq, Structural)]
pub enum ConfigError {
    EnableAfterUse,
    DisableAfterUse,
    UsedTwice,
    AlreadyConfiguredHead,
    UnconfiguredHead,
    ModeAlreadySet,
    InvalidMode,
    InvalidCustomMode,
    PositionAlreadySet,
    TransformAlreadySet,
    InvalidTransform,
    ScaleAlreadySet,
    InvalidScale,
}

impl ConfigError {
    /// What the client is told.
    pub open spec fn text(&self) -> Seq<char> {
        match self {
            ConfigError::EnableAfterUse => "enable_head after apply/test"@,
            ConfigError::DisableAfterUse => "disable_head after apply/test"@,
            ConfigError::UsedTwice => "apply/test already sent"@,
            ConfigError::AlreadyConfiguredHead => "head already configured"@,
            ConfigError::UnconfiguredHead => "not every head was configured"@,
            ConfigError::ModeAlreadySet => "mode already set"@,
            ConfigError::InvalidMode => "mode does not belong to this head"@,
            ConfigError::InvalidCustomMode => "width/height must be positive"@,
            ConfigError::PositionAlreadySet => "position already set"@,
            ConfigError::TransformAlreadySet => "transform already set"@,
            ConfigError::InvalidTransform => "transform outside enum range"@,
            ConfigError::ScaleAlreadySet => "scale already set"@,
            ConfigError::InvalidScale => "scale must be positive"@,
        }
    }

    /// What the client is told.
    pub fn message(&self) -> (r: &'static str)
        ensures
            r@ == self.text(),
    {
        match self {
            ConfigError::EnableAfterUse => "enable_head after apply/test",
            ConfigError::DisableAfterUse => "disable_head after apply/test",
            ConfigError::UsedTwice => "apply/test already sent",
            ConfigError::AlreadyConfiguredHead => "head already configured",
            ConfigError::UnconfiguredHead => "not every head was configured",
            ConfigError::ModeAlreadySet => "mode already set",
            ConfigError::InvalidMode => "mode does not belong to this head",
            ConfigError::InvalidCustomMode => "width/height must be positive",
            ConfigError::PositionAlreadySet => "position already set",
            ConfigError::TransformAlreadySet => "transform already set",
            ConfigError::InvalidTransform => "transform outside enum range",
            ConfigError::ScaleAlreadySet => "scale already set",
            ConfigError::InvalidScale => "scale must be positive",
        }
    }
}

/// One thing that a client asks of an output.
#[derive(Clone, Copy, Debug)]
pub enum HeadSetting {
    /// One of the modes it was told of, which is for this output or is not.
    Mode { own: bool },
    CustomMode { width: i32, height: i32, refresh: i32 },
    Position { x: i32, y: i32 },
    Transform { number: u32 },
    /// In 256ths.
    Scale { scale: i32 },
}

/// The output with one thing more asked of it. Each can be asked once.
pub open spec fn with_setting(cfg: EnabledHeadConfig, setting: HeadSetting) -> Result<
    EnabledHeadConfig,
    ConfigError,
> {
    match setting {
        HeadSetting::Mode { own } => if cfg.mode_assigned {
            Err(ConfigError::ModeAlreadySet)
        } else if !own {
            Err(ConfigError::InvalidMode)
        } else {
            Ok(EnabledHeadConfig { mode_assigned: true, ..cfg })
        },
        HeadSetting::CustomMode { width, height, refresh } => if cfg.mode_assigned {
            Err(ConfigError::ModeAlreadySet)
        } else if width <= 0 || height <= 0 {
            Err(ConfigError::InvalidCustomMode)
        } else {
            Ok(
                EnabledHeadConfig {
                    mode_assigned: true,
                    custom_mode: Some((width, height, refresh)),
                    ..cfg
                },
            )
        },
        HeadSetting::Position { x, y } => if cfg.position is Some {
            Err(ConfigError::PositionAlreadySet)
        } else {
            Ok(EnabledHeadConfig { position: Some((x, y)), ..cfg })
        },
        HeadSetting::Transform { number } => if cfg.transform is Some {
            Err(ConfigError::TransformAlreadySet)
        } else if transform_of(number) is None {
            Err(ConfigError::InvalidTransform)
        } else {
            Ok(EnabledHeadConfig { transform: transform_of(number), ..cfg })
        },
        HeadSetting::Scale { scale } => if cfg.scale is Some {
            Err(ConfigError::ScaleAlreadySet)
        } else if scale <= 0 {
            Err(ConfigError::InvalidScale)
        } else {
            Ok(EnabledHeadConfig { scale: Some(scale), ..cfg })
        },
    }
}

/// An output in use.
#[derive(Clone, Copy, Debug)]
pub struct LiveHead {
    pub output: u64,
    /// Width, height and refresh rate.
    pub mode: Option<(i32, i32, i32)>,
    pub position: Option<(i32, i32)>,
}

/// What is changed of an output.
#[derive(Clone, Copy, Debug)]
pub struct HeadChange {
    pub output: u64,
    pub transform: Option<Transform>,
    pub scale: Option<i32>,
    pub position: Option<(i32, i32)>,
    /// How far the floating windows on it move along.
    pub shift: Option<(i64, i64)>,
}

/// What a client is answered.
pub enum FinishReply {
    Error(ConfigError),
    /// What was asked for is out of date.
    Cancelled,
    /// It cannot be done.
    Failed,
    /// It is done, or could be; these are the changes to make.
    Succeeded(Vec<HeadChange>),
}

/// A configuration that a client puts together.
pub struct Configuration {
    /// The state that the client knew of when it began.
    pub created_serial: u32,
    pub used: bool,
    pub ops: Assoc<u64, HeadOp>,
}

/// The output is in the list.
pub open spec fn is_live(live: Seq<LiveHead>, output: u64) -> bool {
    exists|i: int| 0 <= i < live.len() && (#[trigger] live[i]).output == output
}

/// What is asked can be done: the output stays on, and keeps its mode.
pub open spec fn supported(op: HeadOp, head: LiveHead) -> bool {
    match op {
        HeadOp::Disabled => false,
        HeadOp::Enabled(cfg) => match cfg.custom_mode {
            None => true,
            Some((w, h, r)) => match head.mode {
                Some((mw, mh, mr)) => mw == w && mh == h && (r == 0 || mr == r),
                None => false,
            },
        },
    }
}

/// How far windows move along with their output.
pub open spec fn shift_of(from: Option<(i32, i32)>, to: Option<(i32, i32)>) -> Option<(int, int)> {
    match (from, to) {
        (Some((fx, fy)), Some((tx, ty))) => if fx == tx && fy == ty {
            None
        } else {
            Some((tx - fx, ty - fy))
        },
        _ => None,
    }
}

/// `change` is what `op` changes of an output; nothing where nothing is asked.
pub open spec fn is_change(change: HeadChange, head: LiveHead, op: HeadOp) -> bool {
    match op {
        HeadOp::Disabled => false,
        HeadOp::Enabled(cfg) => {
            &&& change.output == head.output
            &&& change.transform == cfg.transform
            &&& change.scale == cfg.scale
            &&& change.position == cfg.position
            &&& match shift_of(head.position, cfg.position) {
                Some((x, y)) => change.shift is Some && (change.shift->0).0 == x && (
                change.shift->0).1 == y,
                None => change.shift is None,
            }
        },
    }
}

/// Something is asked of an output beyond that it stays on.
pub open spec fn asks(op: HeadOp) -> bool {
    match op {
        HeadOp::Disabled => false,
        HeadOp::Enabled(cfg) => cfg.transform is Some || cfg.scale is Some || cfg.position is Some,
    }
}

/// `changes` are the changes of the outputs that something is asked of, in order.
pub open spec fn are_changes(
    changes: Seq<HeadChange>,
    live: Seq<LiveHead>,
    ops: Map<u64, HeadOp>,
) -> bool
    decreases live.len(),
{
    if live.len() == 0 {
        changes.len() == 0
    } else {
        let head = live.last();
        if ops.contains_key(head.output) && asks(ops[head.output]) {
            changes.len() > 0 && is_change(changes.last(), head, ops[head.output]) && are_changes(
                changes.drop_last(),
                live.drop_last(),
                ops,
            )
        } else {
            are_changes(changes, live.drop_last(), ops)
        }
    }
}

impl Configuration {
    pub open spec fn wf(&self) -> bool {
        self.ops.wf()
    }

    /// Every output in use has something asked of it.
    pub open spec fn covers(&self, live: Seq<LiveHead>) -> bool {
        forall|i: int|
            0 <= i < live.len() ==> self.ops@.contains_key((#[trigger] live[i]).output)
    }

    /// Every output that something is asked of is in use.
    pub open spec fn is_current(&self, live: Seq<LiveHead>) -> bool {
        forall|o: u64| #[trigger] self.ops@.contains_key(o) ==> is_live(live, o)
    }

    /// All that is asked can be done.
    pub open spec fn all_supported(&self, live: Seq<LiveHead>) -> bool {
        forall|i: int|
            0 <= i < live.len() ==> supported(
                self.ops@[(#[trigger] live[i]).output],
                live[i],
            )
    }

    /// Begins a configuration.
    pub fn new(serial: u32) -> (r: Self)
        ensures
            r.wf(),
            r.created_serial == serial,
            !r.used,
            r.ops@ == Map::<u64, HeadOp>::empty(),
    {
        Configuration { created_serial: serial, used: false, ops: Assoc::new() }
    }

    fn configure(&mut self, output: u64, op: HeadOp, late: ConfigError) -> (r: Result<
        (),
        ConfigError,
    >)
        requires
            old(self).wf(),
        ensures
            final(self).wf(),
            final(self).created_serial == old(self).created_serial,
            final(self).used == old(self).used,
            if old(self).used {
                r == Err::<(), ConfigError>(late) && final(self).ops@ == old(self).ops@
            } else if old(self).ops@.contains_key(output) {
                r == Err::<(), ConfigError>(ConfigError::AlreadyConfiguredHead) && final(self).ops@
                    == old(self).ops@
            } else {
                r is Ok && final(self).ops@ == old(self).ops@.insert(output, op)
            },
    {
        if self.used {
            return Err(late);
        }
        if self.ops.contains(&output) {
            return Err(ConfigError::AlreadyConfiguredHead);
        }
        self.ops.insert(output, op);
        Ok(())
    }

    /// The output stays on. One that is gone is not spoken of.
    pub fn enable_head(&mut self, output: Option<u64>) -> (r: Result<(), ConfigError>)
        requires
            old(self).wf(),
        ensures
            final(self).wf(),
            final(self).created_serial == old(self).created_serial,
            final(self).used == old(self).used,
            if output is None {
                r is Ok && final(self).ops@ == old(self).ops@
            } else if old(self).used {
                r == Err::<(), ConfigError>(ConfigError::EnableAfterUse) && final(self).ops@
                    == old(self).ops@
            } else if old(self).ops@.contains_key(output->0) {
                r == Err::<(), ConfigError>(ConfigError::AlreadyConfiguredHead) && final(self).ops@
                    == old(self).ops@
            } else {
                r is Ok && final(self).ops@ == old(self).ops@.insert(
                    output->0,
                    HeadOp::Enabled(plain_head()),
                )
            },
    {
        match output {
            Some(output) => self.configure(
                output,
                HeadOp::Enabled(
                    EnabledHeadConfig {
                        position: None,
                        transform: None,
                        scale: None,
                        custom_mode: None,
                        mode_assigned: false,
                    },
                ),
                ConfigError::EnableAfterUse,
            ),
            None => Ok(()),
        }
    }

    /// The output is switched off. One that is gone is not spoken of.
    pub fn disable_head(&mut self, output: Option<u64>) -> (r: Result<(), ConfigError>)
        requires
            old(self).wf(),
        ensures
            final(self).wf(),
            final(self).created_serial == old(self).created_serial,
            final(self).used == old(self).used,
            if output is None {
                r is Ok && final(self).ops@ == old(self).ops@
            } else if old(self).used {
                r == Err::<(), ConfigError>(ConfigError::DisableAfterUse) && final(self).ops@
                    == old(self).ops@
            } else if old(self).ops@.contains_key(output->0) {
                r == Err::<(), ConfigError>(ConfigError::AlreadyConfiguredHead) && final(self).ops@
                    == old(self).ops@
            } else {
                r is Ok && final(self).ops@ == old(self).ops@.insert(output->0, HeadOp::Disabled)
            },
    {
        match output {
            Some(output) => self.configure(output, HeadOp::Disabled, ConfigError::DisableAfterUse),
            None => Ok(()),
        }
    }

    /// Asks one thing more of an output. One that is gone, or is switched off, is not
    /// spoken of.
    pub fn set(&mut self, output: Option<u64>, setting: HeadSetting) -> (r: Result<(), ConfigError>)
        requires
            old(self).wf(),
        ensures
            final(self).wf(),
            final(self).created_serial == old(self).created_serial,
            final(self).used == old(self).used,
            if output is Some && old(self).ops@.contains_key(output->0)
                && old(self).ops@[output->0] is Enabled {
                match with_setting(old(self).ops@[output->0]->Enabled_0, setting) {
                    Ok(cfg) => r is Ok && final(self).ops@ == old(self).ops@.insert(
                        output->0,
                        HeadOp::Enabled(cfg),
                    ),
                    Err(e) => r == Err::<(), ConfigError>(e) && final(self).ops@
                        == old(self).ops@,
                }
            } else {
                r is Ok && final(self).ops@ == old(self).ops@
            },
    {
        let output: u64 = match output {
            Some(output) => output,
            None => {
                return Ok(());
            },
        };
        let mut cfg: EnabledHeadConfig = match self.ops.get(&output) {
            Some(HeadOp::Enabled(cfg)) => *cfg,
            _ => {
                return Ok(());
            },
        };
        match setting {
            HeadSetting::Mode { own } => {
                if cfg.mode_assigned {
                    return Err(ConfigError::ModeAlreadySet);
                }
                if !own {
                    return Err(ConfigError::InvalidMode);
                }
                cfg.mode_assigned = true;
            },
            HeadSetting::CustomMode { width, height, refresh } => {
                if cfg.mode_assigned {
                    return Err(ConfigError::ModeAlreadySet);
                }
                if width <= 0 || height <= 0 {
                    return Err(ConfigError::InvalidCustomMode);
                }
                cfg.mode_assigned = true;
                cfg.custom_mode = Some((width, height, refresh));
            },
            HeadSetting::Position { x, y } => {
                if cfg.position.is_some() {
                    return Err(ConfigError::PositionAlreadySet);
                }
                cfg.position = Some((x, y));
            },
            HeadSetting::Transform { number } => {
                if cfg.transform.is_some() {
                    return Err(ConfigError::TransformAlreadySet);
                }
                match transform_from_number(number) {
                    Some(transform) => {
                        cfg.transform = Some(transform);
                    },
                    None => {
                        return Err(ConfigError::InvalidTransform);
                    },
                }
            },
            HeadSetting::Scale { scale } => {
                if cfg.scale.is_some() {
                    return Err(ConfigError::ScaleAlreadySet);
                }
                if scale <= 0 {
                    return Err(ConfigError::InvalidScale);
                }
                cfg.scale = Some(scale);
            },
        }
        self.ops.insert(output, HeadOp::Enabled(cfg));
        Ok(())
    }

    fn missing_head(&self, live: &Vec<LiveHead>) -> (r: bool)
        requires
            self.wf(),
        ensures
            r == !self.covers(live@),
    {
        let mut i: usize = 0;
        while i < live.len()
            invariant
                self.wf(),
                i <= live@.len(),
                forall|j: int|
                    0 <= j < i ==> self.ops@.contains_key((#[trigger] live@[j]).output),
            decreases live@.len() - i,
        {
            if !self.ops.contains(&live[i].output) {
                assert(!self.ops@.contains_key(live@[i as int].output));
                return true;
            }
            i += 1;
        }
        false
    }

    fn stale_head(&self, live: &Vec<LiveHead>) -> (r: bool)
        requires
            self.wf(),
        ensures
            r == !self.is_current(live@),
    {
        let keys: Vec<u64> = self.ops.keys();
        let mut i: usize = 0;
        while i < keys.len()
            invariant
                i <= keys@.len(),
                forall|j: int| 0 <= j < keys@.len() ==> self.ops@.contains_key(#[trigger] keys@[j]),
                forall|j: int| 0 <= j < i ==> is_live(live@, #[trigger] keys@[j]),
            decreases keys@.len() - i,
        {
            let mut found: bool = false;
            let mut k: usize = 0;
            while k < live.len()
                invariant
                    i < keys@.len(),
                    k <= live@.len(),
                    found == exists|m: int| 0 <= m < k && (#[trigger] live@[m]).output == keys@[i as int],
                decreases live@.len() - k,
            {
                if live[k].output == keys[i] {
                    assert(live@[k as int].output == keys@[i as int]);
                    found = true;
                }
                k += 1;
            }
            if !found {
                assert(self.ops@.contains_key(keys@[i as int]));
                return true;
            }
            i += 1;
        }
        assert forall|o: u64| #[trigger] self.ops@.contains_key(o) implies is_live(live@, o) by {
            let j = choose|j: int| 0 <= j < keys@.len() && (#[trigger] keys@[j])@ == o;
            assert(is_live(live@, keys@[j]));
        }
        false
    }

    fn feasible(&self, live: &Vec<LiveHead>) -> (r: bool)
        requires
            self.wf(),
            self.covers(live@),
        ensures
            r == self.all_supported(live@),
    {
        let mut i: usize = 0;
        while i < live.len()
            invariant
                self.wf(),
                self.covers(live@),
                i <= live@.len(),
                forall|j: int|
                    0 <= j < i ==> supported(self.ops@[(#[trigger] live@[j]).output], live@[j]),
            decreases live@.len() - i,
        {
            let head: LiveHead = live[i];
            assert(self.ops@.contains_key(live@[i as int].output));
            let fits: bool = match self.ops.get(&head.output) {
                Some(HeadOp::Enabled(cfg)) => match cfg.custom_mode {
                    None => true,
                    Some((w, h, r)) => match head.mode {
                        Some((mw, mh, mr)) => mw == w && mh == h && (r == 0 || mr == r),
                        None => false,
                    },
                },
                _ => false,
            };
            if !fits {
                assert(!supported(self.ops@[live@[i as int].output], live@[i as int]));
                return false;
            }
            i += 1;
        }
        true
    }

    fn changes(&self, live: &Vec<LiveHead>) -> (r: Vec<HeadChange>)
        requires
            self.wf(),
        ensures
            are_changes(r@, live@, self.ops@),
    {
        let mut out: Vec<HeadChange> = Vec::new();
        let mut i: usize = 0;
        while i < live.len()
            invariant
                self.wf(),
                i <= live@.len(),
                are_changes(out@, live@.take(i as int), self.ops@),
            decreases live@.len() - i,
        {
            let head: LiveHead = live[i];
            assert(live@.take(i + 1).drop_last() =~= live@.take(i as int));
            assert(live@.take(i + 1).last() == head);
            if let Some(HeadOp::Enabled(cfg)) = self.ops.get(&head.output) {
                if cfg.transform.is_some() || cfg.scale.is_some() || cfg.position.is_some() {
                    let shift: Option<(i64, i64)> = match (head.position, cfg.position) {
                        (Some((fx, fy)), Some((tx, ty))) => if fx == tx && fy == ty {
                            None
                        } else {
                            Some((tx as i64 - fx as i64, ty as i64 - fy as i64))
                        },
                        _ => None,
                    };
                    let change: HeadChange = HeadChange {
                        output: head.output,
                        transform: cfg.transform,
                        scale: cfg.scale,
                        position: cfg.position,
                        shift,
                    };
                    let ghost before = out@;
                    out.push(change);
                    assert(out@.drop_last() =~= before);
                    assert(is_change(change, head, self.ops@[head.output]));
                }
            }
            i += 1;
        }
        assert(live@.take(live@.len() as int) =~= live@);
        out
    }

    /// The client wants the configuration made, or only tried. It has one try; a
    /// configuration begun before the last change of the outputs is cancelled, one
    /// that leaves an output out is an error, and one that asks for an output to be
    /// switched off, or for another mode, fails as a whole.
    pub fn finish_configuration(&mut self, serial: u32, live: &Vec<LiveHead>, apply: bool) -> (r:
        FinishReply)
        requires
            old(self).wf(),
        ensures
            final(self).wf(),
            final(self).used,
            final(self).ops == old(self).ops,
            final(self).created_serial == old(self).created_serial,
            match r {
                FinishReply::Error(e) => if old(self).used {
                    e == ConfigError::UsedTwice
                } else {
                    e == ConfigError::UnconfiguredHead && old(self).created_serial == serial
                        && !old(self).covers(live@)
                },
                FinishReply::Cancelled => !old(self).used && (old(self).created_serial != serial
                    || (old(self).covers(live@) && !old(self).is_current(live@))),
                FinishReply::Failed => !old(self).used && old(self).created_serial == serial
                    && old(self).covers(live@) && old(self).is_current(live@)
                    && !old(self).all_supported(live@),
                FinishReply::Succeeded(changes) => {
                    &&& !old(self).used && old(self).created_serial == serial
                    &&& old(self).covers(live@) && old(self).is_current(live@)
                    &&& old(self).all_supported(live@)
                    &&& if apply {
                        are_changes(changes@, live@, old(self).ops@)
                    } else {
                        changes@.len() == 0
                    }
                },
            },
    {
        if self.used {
            return FinishReply::Error(ConfigError::UsedTwice);
        }
        self.used = true;
        if self.created_serial != serial {
            return FinishReply::Cancelled;
        }
        if self.missing_head(live) {
            return FinishReply::Error(ConfigError::UnconfiguredHead);
        }
        if self.stale_head(live) {
            return FinishReply::Cancelled;
        }
        if !self.feasible(live) {
            return FinishReply::Failed;
        }
        let changes: Vec<HeadChange> = if apply {
            self.changes(live)
        } else {
            Vec::new()
        };
        FinishReply::Succeeded(changes)
    }
}

/// An output that stays as it is.
pub open spec fn plain_head() -> EnabledHeadConfig {
    EnabledHeadConfig {
        position: None,
        transform: None,
        scale: None,
        custom_mode: None,
        mode_assigned: false,
    }
}

/// Nothing can be asked of an output twice.
pub proof fn law_each_setting_once(cfg: EnabledHeadConfig, setting: HeadSetting)
    requires
        with_setting(cfg, setting) is Ok,
    ensures
        with_setting(with_setting(cfg, setting)->Ok_0, setting) is Err,
{
}

} // verus!
