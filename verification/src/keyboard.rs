//! What becomes of a key.

use vstd::prelude::*;

use crate::assoc::Assoc;

verus! {

/// The key symbols of the first and the last console switch.
pub const SWITCH_VT_FIRST: u32 = 0x1008FE01;

pub const SWITCH_VT_LAST: u32 = 0x1008FE0C;

/// The key symbols of the first and the last function key.
pub const F_KEY_FIRST: u32 = 0xffbe;

pub const F_KEY_LAST: u32 = 0xffc9;

/// The modifiers that are held.
#[derive(Clone, Copy, Debug, PartialEq, Eq, Structural)]
pub struct Modifiers {
    pub ctrl: bool,
    pub alt: bool,
    pub shift: bool,
    pub logo: bool,
}

/// What an assistive tool that watches the keyboard does with a key.
#[derive(Clone, Copy, Debug, PartialEq, Eq, Structural)]
pub enum KbMonBlock {
    Pass,
    Block,
    /// A grabbed modifier goes down: nobody else sees the event.
    ModifierFirstPress,
}

/// A key event, as the keymap resolves it.
#[derive(Clone, Copy, Debug, PartialEq, Eq, Structural)]
pub struct KeyEvent {
    pub pressed: bool,
    /// The symbol with the modifiers applied.
    pub modified: u32,
    /// The symbol without them, where the key has one.
    pub raw: Option<u32>,
    pub modifiers: Modifiers,
}

/// A binding, with whether its modifiers are the ones held now.
#[derive(Clone, Copy, Debug, PartialEq, Eq, Structural)]
pub struct Keybind {
    pub keysym: u32,
    pub mods_match: bool,
    /// The number of the bound action.
    pub action: u64,
}

/// What the keyboard is in for.
pub struct KeyContext {
    pub monitor: KbMonBlock,
    pub session_locked: bool,
    /// The focused client has turned the shortcuts off.
    pub shortcuts_inhibited: bool,
    pub active_submap: Option<String>,
    pub keybinds: Vec<Keybind>,
    pub submaps: Assoc<String, Vec<Keybind>>,
}

/// What becomes of a key event.
#[derive(Clone, Copy, Debug, PartialEq, Eq, Structural)]
pub enum KeyOutcome {
    /// Nobody sees it, the keymap state included.
    Dropped,
    /// Switch to this console.
    SwitchVt(i32),
    /// The focused client does not see it.
    Intercept,
    /// The focused client sees it.
    Forward,
    /// Run the action of this number; the client does not see it.
    Run(u64),
}

/// The console that a key press asks for.
pub open spec fn vt_of(event: KeyEvent) -> Option<i32> {
    if SWITCH_VT_FIRST <= event.modified <= SWITCH_VT_LAST {
        Some((event.modified - SWITCH_VT_FIRST + 1) as i32)
    } else if event.modifiers.ctrl && event.modifiers.alt && event.raw is Some && F_KEY_FIRST
        <= event.raw->0 <= F_KEY_LAST {
        Some((event.raw->0 - F_KEY_FIRST + 1) as i32)
    } else {
        None
    }
}

/// The symbol is that of a modifier key.
pub open spec fn is_modifier_sym(sym: u32) -> bool {
    // Shift, Control, Alt and Super, left and right.
    0xffe1 <= sym <= 0xffe4 || 0xffe9 <= sym <= 0xffec
}

/// The bindings in force: those of the active submap, none where it is unknown;
/// the base ones where no submap is active.
pub open spec fn table_of(ctx: KeyContext) -> Seq<Keybind> {
    match ctx.active_submap {
        Some(name) => if ctx.submaps@.contains_key(name@) {
            ctx.submaps@[name@]@
        } else {
            seq![]
        },
        None => ctx.keybinds@,
    }
}

/// The action of the first binding of `sym` whose modifiers are held.
pub open spec fn bound_action(table: Seq<Keybind>, sym: u32) -> Option<u64>
    decreases table.len(),
{
    if table.len() == 0 {
        None
    } else if table[0].keysym == sym && table[0].mods_match {
        Some(table[0].action)
    } else {
        bound_action(table.skip(1), sym)
    }
}

/// What becomes of a key event. A console switch always works; a tool that grabs
/// the keyboard comes next; while the session is locked or the client has turned
/// the shortcuts off, no binding fires.
pub open spec fn key_outcome(event: KeyEvent, ctx: KeyContext) -> KeyOutcome {
    if ctx.monitor == KbMonBlock::ModifierFirstPress {
        KeyOutcome::Dropped
    } else if event.pressed && vt_of(event) is Some {
        KeyOutcome::SwitchVt(vt_of(event)->0)
    } else if ctx.monitor == KbMonBlock::Block {
        if !event.pressed && is_modifier_sym(event.modified) {
            KeyOutcome::Forward
        } else {
            KeyOutcome::Intercept
        }
    } else if !event.pressed || ctx.session_locked || ctx.shortcuts_inhibited || event.raw is None {
        KeyOutcome::Forward
    } else {
        match bound_action(table_of(ctx), event.raw->0) {
            Some(action) => KeyOutcome::Run(action),
            None => KeyOutcome::Forward,
        }
    }
}

fn find_action(table: &Vec<Keybind>, sym: u32) -> (r: Option<u64>)
    ensures
        r == bound_action(table@, sym),
{
    let mut i: usize = 0;
    assert(table@.skip(0) =~= table@);
    while i < table.len()
        invariant
            i <= table@.len(),
            bound_action(table@.skip(i as int), sym) == bound_action(table@, sym),
        decreases table@.len() - i,
    {
        let bind = table[i];
        assert(table@.skip(i as int)[0] == bind);
        assert(table@.skip(i as int).skip(1) =~= table@.skip(i + 1));
        if bind.keysym == sym && bind.mods_match {
            return Some(bind.action);
        }
        i += 1;
    }
    None
}

/// The console that a key press asks for: by the symbol of its own, or by a
/// function key with Control and Alt held.
pub fn vt_switch(event: &KeyEvent) -> (r: Option<i32>)
    ensures
        r == vt_of(*event),
{
    if SWITCH_VT_FIRST <= event.modified && event.modified <= SWITCH_VT_LAST {
        return Some((event.modified - SWITCH_VT_FIRST + 1) as i32);
    }
    if !(event.modifiers.ctrl && event.modifiers.alt) {
        return None;
    }
    match event.raw {
        Some(raw) => if F_KEY_FIRST <= raw && raw <= F_KEY_LAST {
            Some((raw - F_KEY_FIRST + 1) as i32)
        } else {
            None
        },
        None => None,
    }
}

/// Decides what becomes of a key event.
pub fn process_key(event: &KeyEvent, ctx: &KeyContext) -> (r: KeyOutcome)
    requires
        ctx.submaps.wf(),
    ensures
        r == key_outcome(*event, *ctx),
{
    match ctx.monitor {
        KbMonBlock::ModifierFirstPress => {
            return KeyOutcome::Dropped;
        },
        _ => {},
    }
    if event.pressed {
        if let Some(vt) = vt_switch(event) {
            return KeyOutcome::SwitchVt(vt);
        }
    }
    match ctx.monitor {
        KbMonBlock::Block => {
            let sym: u32 = event.modified;
            let is_modifier = (0xffe1 <= sym && sym <= 0xffe4) || (0xffe9 <= sym && sym <= 0xffec);
            if !event.pressed && is_modifier {
                return KeyOutcome::Forward;
            }
            return KeyOutcome::Intercept;
        },
        _ => {},
    }
    if !event.pressed || ctx.session_locked || ctx.shortcuts_inhibited {
        return KeyOutcome::Forward;
    }
    let keysym: u32 = match event.raw {
        Some(sym) => sym,
        None => {
            return KeyOutcome::Forward;
        },
    };
    let action = match &ctx.active_submap {
        Some(name) => match ctx.submaps.get(name) {
            Some(table) => find_action(table, keysym),
            None => None,
        },
        None => find_action(&ctx.keybinds, keysym),
    };
    match action {
        Some(action) => KeyOutcome::Run(action),
        None => KeyOutcome::Forward,
    }
}

/// A console switch cannot be withheld: not by a lock, not by a client that turned
/// the shortcuts off, not by a tool that blocks keys.
pub proof fn law_vt_switch_always_works(event: KeyEvent, ctx: KeyContext)
    requires
        event.pressed,
        vt_of(event) is Some,
        ctx.monitor != KbMonBlock::ModifierFirstPress,
    ensures
        key_outcome(event, ctx) == KeyOutcome::SwitchVt(vt_of(event)->0),
        1 <= vt_of(event)->0 <= 12,
{
}

/// While the session is locked no binding fires.
pub proof fn law_no_binding_while_locked(event: KeyEvent, ctx: KeyContext)
    requires
        ctx.session_locked,
    ensures
        !(key_outcome(event, ctx) is Run),
{
}

/// A submap replaces the base bindings: what those are makes no difference while
/// it is active.
pub proof fn law_submap_replaces_the_base_table(event: KeyEvent, a: KeyContext, b: KeyContext)
    requires
        a.active_submap is Some,
        b == (KeyContext { keybinds: b.keybinds, ..a }),
    ensures
        key_outcome(event, a) == key_outcome(event, b),
{
}

/// A released key never runs an action.
pub proof fn law_release_runs_nothing(event: KeyEvent, ctx: KeyContext)
    requires
        !event.pressed,
    ensures
        !(key_outcome(event, ctx) is Run),
        !(key_outcome(event, ctx) is SwitchVt),
{
}

} // verus!
