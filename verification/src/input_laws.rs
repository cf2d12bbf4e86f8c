//! What keys, buttons, motions and switches are for.

use vstd::prelude::*;

use crate::actions::{step_of, Action, ActionFacts, ActionStep, Direction};
use crate::bsp::reach;
use crate::config::LayoutAlgorithm;
use crate::desk::{output_named, Desk};
use crate::geometry::{FinePoint, Rect};
use crate::keyboard::{
    bound_action, is_modifier_sym, key_outcome, table_of, vt_of, KbMonBlock, KeyContext, KeyEvent,
    KeyOutcome, Keybind,
};
use crate::pointer::{
    button_outcome, edges_near, motion_allowed, region_has, AxisSample, ButtonContext, Constraint,
    FocusChange, Grab, MotionTarget, RegionPart, ResizeEdge, Switch, SwitchChange, Switches,
};
use crate::smallvil::{
    axis_of, comes_into_force, input_outcome, input_step, switch_change, switches_after, touch_step,
    InputEvent, InputStep, Smallvil, Touch,
};

verus! {

/// A press on a window that begins no drag, with no layer surface in between and nothing but
/// a popup holding the pointer, gives that window the keyboard, tiled or not. It comes to the
/// front where it is not tiled, and its client sees the button.
pub proof fn law_a_click_focuses_the_window(ctx: ButtonContext)
    requires
        !ctx.session_locked,
        ctx.pressed,
        !ctx.grabbed || ctx.popup_grab,
        ctx.layer is None,
        !ctx.exclusive_layer,
        ctx.window is Some,
    ensures
        ({
            let r = button_outcome(ctx);
            let w = ctx.window->0;
            &&& r.focus == FocusChange::Window(w.surface)
            &&& w.tiled ==> r.raise is None
            &&& !w.tiled ==> r.raise == Some(w.surface)
            &&& r.grab is None ==> r.forward
        }),
{
}

/// A press on nothing takes the keyboard from whoever has it, unless it drags a border.
pub proof fn law_a_click_on_nothing_clears_the_focus(ctx: ButtonContext)
    requires
        !ctx.session_locked,
        ctx.pressed,
        !ctx.grabbed || ctx.popup_grab,
        ctx.layer is None,
        !ctx.exclusive_layer,
        ctx.window is None,
    ensures
        ({
            let r = button_outcome(ctx);
            &&& r.raise is None
            &&& r.grab is None ==> r.focus == FocusChange::Clear && r.forward
            &&& r.grab is Some ==> r.focus == FocusChange::Keep && r.grab == Some(Grab::TileResize)
                && !ctx.grabbed && ctx.on_split && ctx.button == 0x110
            &&& !ctx.grabbed && ctx.on_split && ctx.button == 0x110 ==> r.grab == Some(
                Grab::TileResize,
            )
        }),
{
}

/// A press on a layer surface gives it the keyboard where it takes it at all, and touches no
/// window; its client sees the button.
pub proof fn law_a_click_on_a_layer_focuses_the_layer(ctx: ButtonContext)
    requires
        !ctx.session_locked,
        ctx.pressed,
        !ctx.grabbed || ctx.popup_grab,
        ctx.layer is Some,
    ensures
        ({
            let r = button_outcome(ctx);
            let layer = ctx.layer->0;
            &&& layer.interactive ==> r.focus == FocusChange::Layer(layer.surface)
            &&& !layer.interactive ==> r.focus == FocusChange::Keep
            &&& r.raise is None && r.grab is None && r.forward
        }),
{
}

/// A release, a press while a drag is under way, and a press beside a layer surface that has
/// the keyboard to itself are handed on and do nothing else.
pub proof fn law_other_buttons_are_only_handed_on(ctx: ButtonContext)
    requires
        !ctx.pressed || (ctx.grabbed && !ctx.popup_grab) || (ctx.layer is None
            && ctx.exclusive_layer),
    ensures
        ({
            let r = button_outcome(ctx);
            r.raise is None && r.focus == FocusChange::Keep && r.grab is None && r.forward
        }),
{
}

/// With the logo key, the left button moves a floating window and picks a tiled one up, the
/// right button resizes a floating one by its lower right corner and a tiled one by the
/// splits around it. Nothing of the sort happens to a window that has all of its output.
pub proof fn law_the_logo_key_drags_windows(ctx: ButtonContext)
    requires
        !ctx.session_locked,
        ctx.pressed,
        !ctx.grabbed,
        ctx.layer is None,
        !ctx.exclusive_layer,
        ctx.window is Some,
        ctx.logo,
    ensures
        ({
            let r = button_outcome(ctx);
            let w = ctx.window->0;
            let free = !w.fullscreen && !w.maximized;
            &&& free && !w.tiled && ctx.button == 0x110 ==> r.grab == Some(Grab::Move)
            &&& free && !w.tiled && ctx.button == 0x111 ==> r.grab == Some(
                Grab::Resize(ResizeEdge { left: false, right: true, top: false, bottom: true }),
            )
            &&& free && w.tiled && w.has_tile && ctx.button == 0x110 ==> r.grab == Some(
                Grab::TileMove,
            )
            &&& free && w.tiled && w.has_resize_splits && ctx.button == 0x111 ==> r.grab == Some(
                Grab::TileWindowResize,
            )
            &&& ctx.button != 0x110 && ctx.button != 0x111 ==> r.grab is None
            &&& !free ==> r.grab is None
        }),
{
}

/// Without the logo key, only the left button drags, and of windows only floating ones: by
/// the edges that the pointer is near.
pub proof fn law_a_plain_press_drags_only_edges(ctx: ButtonContext)
    requires
        !ctx.session_locked,
        ctx.pressed,
        !ctx.grabbed,
        ctx.layer is None,
        !ctx.exclusive_layer,
        ctx.window is Some,
        !ctx.logo,
    ensures
        ({
            let r = button_outcome(ctx);
            let w = ctx.window->0;
            let reach = 65536 * (if ctx.gaps > 4 {
                ctx.gaps as int
            } else {
                4
            });
            let left = ctx.point.x - 65536 * w.rect.x <= reach;
            let right = 65536 * (w.rect.x + w.rect.w) - ctx.point.x <= reach;
            let top = ctx.point.y - 65536 * w.rect.y <= reach;
            let bottom = 65536 * (w.rect.y + w.rect.h) - ctx.point.y <= reach;
            &&& r.grab is Some ==> ctx.button == 0x110 && !w.tiled && !w.fullscreen && !w.maximized
                && r.grab == Some(Grab::Resize(ResizeEdge { left, right, top, bottom }))
            &&& ctx.button == 0x110 && !w.tiled && !w.fullscreen && !w.maximized && (left || right
                || top || bottom) ==> r.grab is Some
            &&& !left && !right && !top && !bottom ==> r.grab is None
        }),
{
}

/// A border is near within four pixels, or within the gap where that is more.
pub proof fn law_borders_are_near_within_the_gap(gap: int)
    ensures
        reach(gap) >= 4,
        reach(gap) >= gap,
        reach(gap) == 4 || reach(gap) == gap,
{
}

/// A point in the middle of a window is near none of its edges, one on an edge is near that
/// edge.
pub proof fn law_edges_are_near_where_the_point_is(rect: Rect, p: FinePoint, threshold: int)
    requires
        threshold >= 0,
    ensures
        ({
            let e = edges_near(rect, p, threshold);
            &&& p.x == 65536 * rect.x ==> e.left
            &&& p.x == 65536 * (rect.x + rect.w) ==> e.right
            &&& p.y == 65536 * rect.y ==> e.top
            &&& p.y == 65536 * (rect.y + rect.h) ==> e.bottom
            &&& p.x > 65536 * (rect.x + threshold) ==> !e.left
            &&& p.x < 65536 * (rect.x + rect.w - threshold) ==> !e.right
            &&& p.y > 65536 * (rect.y + threshold) ==> !e.top
            &&& p.y < 65536 * (rect.y + rect.h - threshold) ==> !e.bottom
        }),
{
}

/// A pixel belongs to a region exactly where some part adds it and no later part takes it
/// away again.
pub proof fn law_the_last_part_decides(region: Seq<RegionPart>, px: int, py: int)
    ensures
        region_has(region, px, py) <==> exists|i: int|
            {
                &&& 0 <= i < region.len()
                &&& (#[trigger] region[i]).add
                &&& region[i].rect.x <= px < region[i].rect.x + region[i].rect.w
                &&& region[i].rect.y <= py < region[i].rect.y + region[i].rect.h
                &&& forall|j: int|
                    i < j < region.len() ==> !(#[trigger] region[j]).rect.covers(px, py)
            },
    decreases region.len(),
{
    if region.len() > 0 {
        let last = region.len() - 1;
        let rest = region.drop_last();
        law_the_last_part_decides(rest, px, py);
        if region.last().rect.covers(px, py) {
            if region.last().add {
                assert(region[last].add);
            }
            if exists|i: int|
                {
                    &&& 0 <= i < region.len()
                    &&& (#[trigger] region[i]).add
                    &&& region[i].rect.x <= px < region[i].rect.x + region[i].rect.w
                    &&& region[i].rect.y <= py < region[i].rect.y + region[i].rect.h
                    &&& forall|j: int|
                        i < j < region.len() ==> !(#[trigger] region[j]).rect.covers(px, py)
                } {
                let i = choose|i: int|
                    {
                        &&& 0 <= i < region.len()
                        &&& (#[trigger] region[i]).add
                        &&& region[i].rect.x <= px < region[i].rect.x + region[i].rect.w
                        &&& region[i].rect.y <= py < region[i].rect.y + region[i].rect.h
                        &&& forall|j: int|
                            i < j < region.len() ==> !(#[trigger] region[j]).rect.covers(px, py)
                    };
                if i < last {
                    assert(region[last].rect.covers(px, py));
                }
            }
        } else {
            assert forall|i: int| 0 <= i < rest.len() implies #[trigger] rest[i] == region[i] by {}
            if region_has(rest, px, py) {
                let i = choose|i: int|
                    {
                        &&& 0 <= i < rest.len()
                        &&& (#[trigger] rest[i]).add
                        &&& rest[i].rect.x <= px < rest[i].rect.x + rest[i].rect.w
                        &&& rest[i].rect.y <= py < rest[i].rect.y + rest[i].rect.h
                        &&& forall|j: int|
                            i < j < rest.len() ==> !(#[trigger] rest[j]).rect.covers(px, py)
                    };
                assert(region[i].add);
                assert forall|j: int| i < j < region.len() implies !(#[trigger] region[j]).rect.covers(
                    px,
                    py,
                ) by {
                    if j < last {
                        assert(!rest[j].rect.covers(px, py));
                    }
                }
            }
            if exists|i: int|
                {
                    &&& 0 <= i < region.len()
                    &&& (#[trigger] region[i]).add
                    &&& region[i].rect.x <= px < region[i].rect.x + region[i].rect.w
                    &&& region[i].rect.y <= py < region[i].rect.y + region[i].rect.h
                    &&& forall|j: int|
                        i < j < region.len() ==> !(#[trigger] region[j]).rect.covers(px, py)
                } {
                let i = choose|i: int|
                    {
                        &&& 0 <= i < region.len()
                        &&& (#[trigger] region[i]).add
                        &&& region[i].rect.x <= px < region[i].rect.x + region[i].rect.w
                        &&& region[i].rect.y <= py < region[i].rect.y + region[i].rect.h
                        &&& forall|j: int|
                            i < j < region.len() ==> !(#[trigger] region[j]).rect.covers(px, py)
                    };
                assert(i < last);
                assert(rest[i] == region[i]);
                assert(rest[i].add);
            }
        }
    }
}

/// A locked pointer never moves, a free one always does. A confined one moves within its
/// region; where it has none, within its surface.
pub proof fn law_constraints_hold_the_pointer(
    constraint: Constraint,
    constrained: Option<u64>,
    target: MotionTarget,
)
    ensures
        ({
            let moves = motion_allowed(constraint, constrained, target);
            &&& constraint is Free ==> moves
            &&& constraint is Locked ==> !moves
            &&& constraint is Confined && constraint->Confined_0 is None && constrained is Some
                ==> moves == (target.root == constrained)
            &&& constraint is Confined && constraint->Confined_0 is Some ==> moves == region_has(
                (constraint->Confined_0->0)@,
                target.x as int,
                target.y as int,
            )
        }),
{
}

proof fn lemma_first_binding(table: Seq<Keybind>, sym: u32)
    ensures
        match bound_action(table, sym) {
            Some(action) => exists|i: int|
                {
                    &&& 0 <= i < table.len()
                    &&& (#[trigger] table[i]).keysym == sym && table[i].mods_match
                    &&& table[i].action == action
                    &&& forall|j: int|
                        0 <= j < i ==> !((#[trigger] table[j]).keysym == sym && table[j].mods_match)
                },
            None => forall|j: int|
                0 <= j < table.len() ==> !((#[trigger] table[j]).keysym == sym && table[j].mods_match),
        },
    decreases table.len(),
{
    if table.len() > 0 {
        let rest = table.skip(1);
        lemma_first_binding(rest, sym);
        if table[0].keysym == sym && table[0].mods_match {
            assert(table[0].action == bound_action(table, sym)->0);
        } else {
            match bound_action(rest, sym) {
                Some(action) => {
                    let i = choose|i: int|
                        {
                            &&& 0 <= i < rest.len()
                            &&& (#[trigger] rest[i]).keysym == sym && rest[i].mods_match
                            &&& rest[i].action == action
                            &&& forall|j: int|
                                0 <= j < i ==> !((#[trigger] rest[j]).keysym == sym
                                    && rest[j].mods_match)
                        };
                    assert(table[i + 1] == rest[i]);
                    assert forall|j: int| 0 <= j < i + 1 implies !((#[trigger] table[j]).keysym
                        == sym && table[j].mods_match) by {
                        if j > 0 {
                            assert(table[j] == rest[j - 1]);
                        }
                    }
                },
                None => {
                    assert forall|j: int| 0 <= j < table.len() implies !((
                    #[trigger] table[j]).keysym == sym && table[j].mods_match) by {
                        if j > 0 {
                            assert(table[j] == rest[j - 1]);
                        }
                    }
                },
            }
        }
    }
}

/// A key press runs the first binding of its symbol whose modifiers are held, of the base
/// table or of the submap that is active; where there is none, the client sees the key. No
/// binding runs while the session is locked or the client turned the shortcuts off.
pub proof fn law_a_bound_key_runs_its_action(event: KeyEvent, ctx: KeyContext, table: Seq<Keybind>)
    requires
        ctx.active_submap is None ==> table == ctx.keybinds@,
        ctx.active_submap is Some ==> if ctx.submaps@.contains_key((ctx.active_submap->0)@) {
            table == ctx.submaps@[(ctx.active_submap->0)@]@
        } else {
            table.len() == 0
        },
        event.pressed,
        vt_of(event) is None,
        ctx.monitor == KbMonBlock::Pass,
    ensures
        ({
            let r = key_outcome(event, ctx);
            let free = !ctx.session_locked && !ctx.shortcuts_inhibited && event.raw is Some;
            &&& !free ==> r == KeyOutcome::Forward
            &&& free ==> match r {
                KeyOutcome::Run(action) => exists|i: int|
                    {
                        &&& 0 <= i < table.len()
                        &&& (#[trigger] table[i]).keysym == event.raw->0 && table[i].mods_match
                        &&& table[i].action == action
                        &&& forall|j: int|
                            0 <= j < i ==> !((#[trigger] table[j]).keysym == event.raw->0
                                && table[j].mods_match)
                    },
                _ => r == KeyOutcome::Forward && forall|j: int|
                    0 <= j < table.len() ==> !((#[trigger] table[j]).keysym == event.raw->0
                        && table[j].mods_match),
            }
        }),
{
    assert(table =~= table_of(ctx));
    if event.raw is Some {
        lemma_first_binding(table, event.raw->0);
    }
}

/// The twelve console symbols name their consoles, and so do the twelve function keys while
/// Control and Alt are held; nothing else switches the console.
pub proof fn law_consoles_have_their_keys(event: KeyEvent, n: int)
    requires
        1 <= n <= 12,
    ensures
        event.modified == 0x1008FE00 + n ==> vt_of(event) == Some(n as i32),
        !(0x1008FE01 <= event.modified <= 0x1008FE0C) && event.modifiers.ctrl && event.modifiers.alt
            && event.raw == Some((0xffbd + n) as u32) ==> vt_of(event) == Some(n as i32),
        !(0x1008FE01 <= event.modified <= 0x1008FE0C) && (!event.modifiers.ctrl
            || !event.modifiers.alt || event.raw is None) ==> vt_of(event) is None,
        !(0x1008FE01 <= event.modified <= 0x1008FE0C) && event.raw is Some && !(0xffbe
            <= event.raw->0 <= 0xffc9) ==> vt_of(event) is None,
{
}

/// A tool that blocks the keyboard keeps every key from the client but the release of a
/// modifier; a modifier that it grabs is seen by nobody at its first press.
pub proof fn law_a_blocking_tool_has_the_keys(event: KeyEvent, ctx: KeyContext)
    ensures
        ctx.monitor == KbMonBlock::ModifierFirstPress ==> key_outcome(event, ctx)
            == KeyOutcome::Dropped,
        ctx.monitor == KbMonBlock::Block && event.pressed && vt_of(event) is None ==> key_outcome(
            event,
            ctx,
        ) == KeyOutcome::Intercept,
        ctx.monitor == KbMonBlock::Block && !event.pressed && is_modifier_sym(event.modified)
            ==> key_outcome(event, ctx) == KeyOutcome::Forward,
        ctx.monitor == KbMonBlock::Block && !event.pressed && !is_modifier_sym(event.modified)
            ==> key_outcome(event, ctx) == KeyOutcome::Intercept,
        ctx.monitor == KbMonBlock::Pass && !event.pressed ==> key_outcome(event, ctx)
            == KeyOutcome::Forward,
        is_modifier_sym(0xffe1) && is_modifier_sym(0xffe4) && is_modifier_sym(0xffe9)
            && is_modifier_sym(0xffec),
        is_modifier_sym(event.modified) ==> 0xffe1 <= event.modified <= 0xffec,
{
}

/// An action on a window is on the focused one, an action on an output on the primary one;
/// what is missing leaves it undone.
pub proof fn law_actions_are_on_the_focused_window(desk: Desk, facts: ActionFacts, s: u64, w: u32)
    ensures
        ({
            let with = ActionFacts { focused: Some(s), workspace: Some(w) };
            let without = ActionFacts { focused: None, workspace: Some(w) };
            let nowhere = ActionFacts { focused: Some(s), workspace: None };
            let seen = desk.facts.visible@.contains_key(s);
            &&& seen ==> step_of(desk, Action::CloseWindow, with) == ActionStep::Close(s)
            &&& !seen ==> step_of(desk, Action::CloseWindow, with) == ActionStep::Nothing
            &&& step_of(desk, Action::CloseWindow, without) == ActionStep::Nothing
            &&& step_of(desk, Action::ToggleFloating, with) == ActionStep::ToggleFloating(s)
            &&& step_of(desk, Action::ToggleFloating, without) == ActionStep::Nothing
            &&& step_of(desk, Action::TogglePin, with) == ActionStep::TogglePin(s)
            &&& step_of(desk, Action::TogglePin, without) == ActionStep::Nothing
            &&& step_of(desk, Action::TogglePseudoTile, with) == ActionStep::TogglePseudoTile(s)
            &&& step_of(desk, Action::TogglePseudoTile, without) == ActionStep::Nothing
            &&& step_of(desk, Action::RaiseWindow, with) == ActionStep::Raise(s)
            &&& step_of(desk, Action::RaiseWindow, without) == ActionStep::Nothing
            &&& step_of(desk, Action::LowerWindow, with) == ActionStep::Lower(s)
            &&& step_of(desk, Action::LowerWindow, without) == ActionStep::Nothing
            &&& step_of(desk, Action::MoveToScratchpad, with) == ActionStep::MoveToScratchpad(s)
            &&& step_of(desk, Action::MoveToScratchpad, without) == ActionStep::Nothing
            &&& step_of(desk, Action::Ungroup, with) == ActionStep::Ungroup(s)
            &&& step_of(desk, Action::Ungroup, without) == ActionStep::Nothing
            &&& step_of(desk, Action::MoveToWorkspace, with) == ActionStep::MoveToWorkspace {
                surface: s,
                workspace: w,
            }
            &&& step_of(desk, Action::MoveToWorkspace, without) == ActionStep::Nothing
            &&& step_of(desk, Action::MoveToWorkspace, nowhere) == ActionStep::Nothing
            &&& step_of(desk, Action::SwitchWorkspace, nowhere) == ActionStep::Nothing
            &&& desk.facts.live(desk.facts.primary) is Some ==> {
                let o = desk.facts.primary->0;
                &&& step_of(desk, Action::SwitchWorkspace, with) == ActionStep::SwitchWorkspace {
                    output: o,
                    workspace: w,
                }
                &&& step_of(desk, Action::ToggleScratchpad, facts) == ActionStep::ToggleScratchpad(o)
            }
            &&& desk.facts.live(desk.facts.primary) is None ==> {
                &&& step_of(desk, Action::SwitchWorkspace, with) == ActionStep::Nothing
                &&& step_of(desk, Action::ToggleScratchpad, facts) == ActionStep::Nothing
            }
        }),
{
}

/// The master pane grows and shrinks by the same step, a twentieth; tabs are cycled one way
/// and the other; everything else is done as it is asked for.
pub proof fn law_actions_do_what_they_say(
    desk: Desk,
    facts: ActionFacts,
    text: String,
    direction: Direction,
    algorithm: LayoutAlgorithm,
)
    ensures
        ({
            let grow = step_of(desk, Action::GrowMaster, facts);
            let shrink = step_of(desk, Action::ShrinkMaster, facts);
            &&& grow is AdjustMasterRatio && grow->AdjustMasterRatio_0 > 0
            &&& 0x10_0000_0000_0000 - 0x2000_0000 * 20 <= 20 * grow->AdjustMasterRatio_0
                <= 0x10_0000_0000_0000 + 0x2000_0000 * 20
            &&& shrink is AdjustMasterRatio && shrink->AdjustMasterRatio_0
                == -(grow->AdjustMasterRatio_0)
        }),
        step_of(desk, Action::CycleTabForward, facts) == ActionStep::CycleTab(true),
        step_of(desk, Action::CycleTabBackward, facts) == ActionStep::CycleTab(false),
        step_of(desk, Action::Spawn(text), facts) == ActionStep::Spawn(text),
        step_of(desk, Action::EnterSubmap(text), facts) == ActionStep::EnterSubmap(text),
        step_of(desk, Action::FocusDirection(direction), facts) == ActionStep::FocusDirection(
            direction,
        ),
        step_of(desk, Action::SwapDirection(direction), facts) == ActionStep::SwapDirection(
            direction,
        ),
        step_of(desk, Action::GroupDirection(direction), facts) == ActionStep::GroupDirection(
            direction,
        ),
        step_of(desk, Action::SetLayout(algorithm), facts) == ActionStep::SetLayout(algorithm),
        step_of(desk, Action::ToggleFullscreen, facts) is ToggleFullscreen,
        step_of(desk, Action::FocusUrgent, facts) is FocusUrgent,
        step_of(desk, Action::ToggleDpms, facts) is ToggleDpms,
        step_of(desk, Action::CycleFocus, facts) is CycleFocus,
        step_of(desk, Action::ExitSubmap, facts) is ExitSubmap,
        step_of(desk, Action::ToggleOverview, facts) is ToggleOverview,
        step_of(desk, Action::Quit, facts) is Quit,
{
}

/// Workspaces are swapped between the primary output and the one that is named, where there
/// are both.
pub proof fn law_workspaces_are_swapped_with_the_named_output(
    desk: Desk,
    facts: ActionFacts,
    name: String,
)
    ensures
        ({
            let r = step_of(desk, Action::SwapWorkspacesWithOutput(name), facts);
            let this = desk.facts.live(desk.facts.primary);
            match output_named(desk.facts.outputs@, name@) {
                Some(other) => this is Some ==> r == ActionStep::SwapWorkspaces {
                    this: desk.facts.primary->0,
                    other,
                },
                None => r == ActionStep::Nothing,
            }
        }),
{
}

/// A switch that changes is told by the direction it changed in; one that reports how it
/// stood is not told at all. Either way it then stands as it reported.
pub proof fn law_switches_tell_their_changes(switches: Switches, on: bool)
    ensures
        switch_change(switches, Switch::Lid, on) == if switches.is_lid_closed == on {
            None
        } else if on {
            Some(SwitchChange::LidClose)
        } else {
            Some(SwitchChange::LidOpen)
        },
        switch_change(switches, Switch::TabletMode, on) == if switches.is_tablet_mode == on {
            None
        } else if on {
            Some(SwitchChange::TabletModeOn)
        } else {
            Some(SwitchChange::TabletModeOff)
        },
        ({
            let lid = switches_after(
                switches,
                InputEvent::SwitchToggle { switch: Some(Switch::Lid), on },
            );
            let tablet = switches_after(
                switches,
                InputEvent::SwitchToggle { switch: Some(Switch::TabletMode), on },
            );
            &&& lid.is_lid_closed == on && lid.is_tablet_mode == switches.is_tablet_mode
            &&& tablet.is_tablet_mode == on && tablet.is_lid_closed == switches.is_lid_closed
        }),
{
}

/// A switch that changes runs the action that is bound to the change.
pub proof fn law_switches_run_their_actions(s: Smallvil, on: bool)
    ensures
        ({
            let lid = input_step(s, InputEvent::SwitchToggle { switch: Some(Switch::Lid), on });
            let bound = if on {
                s.switch_events.lid_close
            } else {
                s.switch_events.lid_open
            };
            &&& s.switches.is_lid_closed != on && bound is Some ==> lid == InputStep::Run(bound->0)
            &&& s.switches.is_lid_closed == on || bound is None ==> lid == InputStep::Ignored
        }),
        ({
            let tablet = input_step(
                s,
                InputEvent::SwitchToggle { switch: Some(Switch::TabletMode), on },
            );
            let bound = if on {
                s.switch_events.tablet_mode_on
            } else {
                s.switch_events.tablet_mode_off
            };
            &&& s.switches.is_tablet_mode != on && bound is Some ==> tablet == InputStep::Run(
                bound->0,
            )
            &&& s.switches.is_tablet_mode == on || bound is None ==> tablet == InputStep::Ignored
        }),
{
}

/// What moved is handed on, what did not is not; a finger that lies still says that it
/// stopped. The steps of a wheel go along with the amount.
pub proof fn law_scrolling_is_handed_on(sample: AxisSample, finger: bool)
    ensures
        ({
            let r = axis_of(sample, finger);
            &&& sample.amount_is_zero == Some(false) ==> r.value && !r.stop
            &&& sample.amount_is_zero == Some(true) ==> !r.value && r.stop == finger
            &&& sample.amount_is_zero is None ==> !r.stop && r.value == (sample.v120 is Some
                && !(sample.v120->0).zero)
            &&& r.value && sample.v120 is Some ==> r.v120 == Some((sample.v120->0).whole)
            &&& !r.value || sample.v120 is None ==> r.v120 is None
        }),
{
}

/// Touches are handed on where there is a touchscreen; those that have a position, only
/// where there is an output.
pub proof fn law_touches_are_handed_on(touch: Touch, has_touch: bool, has_output: bool)
    ensures
        ({
            let r = touch_step(touch, has_touch, has_output);
            &&& !has_touch ==> r == InputStep::Ignored
            &&& has_touch && has_output ==> r == InputStep::Touch(touch)
            &&& has_touch && !has_output && (touch == Touch::Down || touch == Touch::Motion) ==> r
                == InputStep::Ignored
            &&& has_touch && (touch == Touch::Up || touch == Touch::Frame || touch == Touch::Cancel)
                ==> r == InputStep::Touch(touch)
        }),
{
}

/// Everything but the coming and going of devices shows that the user is there. Only motions
/// show the pointer again, and ask for a new picture where the compositor paints it.
pub proof fn law_input_shows_that_the_user_is_there(s: Smallvil, event: InputEvent)
    ensures
        ({
            let r = input_outcome(s, event);
            let moved = event is PointerMotion || event is PointerMotionAbsolute;
            &&& r.activity == !(event is DeviceAdded || event is DeviceRemoved)
            &&& r.pointer_moved == moved
            &&& r.redraw ==> moved && s.paints_pointer
            &&& event is PointerMotion && s.paints_pointer ==> r.redraw
        }),
{
}

/// A motion that its constraint allows moves the pointer, and brings the constraint that it
/// meets into force where the pointer then lies in its region; one that is not allowed does
/// neither.
pub proof fn law_motion_brings_constraints_into_force(
    s: Smallvil,
    constraint: Constraint,
    constrained: Option<u64>,
    target: MotionTarget,
    met: Option<crate::smallvil::Met>,
)
    ensures
        ({
            let step = input_step(
                s,
                InputEvent::PointerMotion { constraint, constrained, target, met },
            );
            &&& step is Motion
            &&& step->moves == motion_allowed(constraint, constrained, target)
            &&& step->activates ==> step->moves && met is Some && !(met->0).active
            &&& step->moves && met is Some && !(met->0).active && (met->0).region is None
                ==> step->activates
            &&& met is Some && (met->0).active ==> !comes_into_force(met)
        }),
{
}

} // verus!
