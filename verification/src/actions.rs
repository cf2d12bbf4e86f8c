//! What the user can have done by a key, a switch or a request.

use vstd::prelude::*;
use vstd::string::*;

use crate::config::LayoutAlgorithm;
use crate::desk::{Desk, output_named};

verus! {

/// One step of the master pane's fraction: 0.05 in single precision, in steps of 2^-52.
pub const MASTER_STEP: i64 = 225179984723968;

/// A direction on the screen.
#[derive(Clone, Copy, Debug, PartialEq, Eq, Structural)]
pub enum Direction {
    Left,
    Right,
    Up,
    Down,
}

/// Something that can be done. Where a workspace is meant, which one is told apart.
pub enum Action {
    Spawn(String),
    CloseWindow,
    ToggleFloating,
    ToggleFullscreen,
    TogglePin,
    TogglePseudoTile,
    RaiseWindow,
    LowerWindow,
    FocusUrgent,
    ToggleDpms,
    ToggleScratchpad,
    MoveToScratchpad,
    CycleFocus,
    FocusDirection(Direction),
    SwapDirection(Direction),
    GroupDirection(Direction),
    Ungroup,
    CycleTabForward,
    CycleTabBackward,
    SwitchWorkspace,
    MoveToWorkspace,
    SwapWorkspacesWithOutput(String),
    EnterSubmap(String),
    ExitSubmap,
    SetLayout(LayoutAlgorithm),
    GrowMaster,
    ShrinkMaster,
    ToggleOverview,
    Quit,
}

/// What an action comes to.
pub enum ActionStep {
    Nothing,
    Spawn(String),
    Close(u64),
    ToggleFloating(u64),
    ToggleFullscreen,
    TogglePin(u64),
    TogglePseudoTile(u64),
    Raise(u64),
    Lower(u64),
    FocusUrgent,
    ToggleDpms,
    /// On this output.
    ToggleScratchpad(u64),
    MoveToScratchpad(u64),
    CycleFocus,
    FocusDirection(Direction),
    SwapDirection(Direction),
    GroupDirection(Direction),
    Ungroup(u64),
    /// Forward, or back.
    CycleTab(bool),
    SwitchWorkspace { output: u64, workspace: u32 },
    MoveToWorkspace { surface: u64, workspace: u32 },
    SwapWorkspaces { this: u64, other: u64 },
    EnterSubmap(String),
    ExitSubmap,
    SetLayout(LayoutAlgorithm),
    /// By so many steps of 2^-52.
    AdjustMasterRatio(i64),
    ToggleOverview,
    Quit,
}

/// What an action meets.
#[derive(Clone, Copy, Debug, PartialEq, Eq, Structural)]
pub struct ActionFacts {
    /// The window that has the focus.
    pub focused: Option<u64>,
    /// The workspace that the action means, where there is such a one.
    pub workspace: Option<u32>,
}

/// What the action comes to. One that is about a window is about the focused one; one
/// that is about an output, about the primary one. Where there is none, or where a
/// workspace or another output is meant that there is not, nothing happens.
pub open spec fn step_of(desk: Desk, action: Action, facts: ActionFacts) -> ActionStep {
    let window = facts.focused;
    let output = desk.facts.live(desk.facts.primary);
    match action {
        Action::Spawn(command) => ActionStep::Spawn(command),
        Action::CloseWindow => if window is Some && desk.facts.visible@.contains_key(window->0) {
            ActionStep::Close(window->0)
        } else {
            ActionStep::Nothing
        },
        Action::ToggleFloating => match window {
            Some(s) => ActionStep::ToggleFloating(s),
            None => ActionStep::Nothing,
        },
        Action::ToggleFullscreen => ActionStep::ToggleFullscreen,
        Action::TogglePin => match window {
            Some(s) => ActionStep::TogglePin(s),
            None => ActionStep::Nothing,
        },
        Action::TogglePseudoTile => match window {
            Some(s) => ActionStep::TogglePseudoTile(s),
            None => ActionStep::Nothing,
        },
        Action::RaiseWindow => match window {
            Some(s) => ActionStep::Raise(s),
            None => ActionStep::Nothing,
        },
        Action::LowerWindow => match window {
            Some(s) => ActionStep::Lower(s),
            None => ActionStep::Nothing,
        },
        Action::FocusUrgent => ActionStep::FocusUrgent,
        Action::ToggleDpms => ActionStep::ToggleDpms,
        Action::ToggleScratchpad => match output {
            Some(o) => ActionStep::ToggleScratchpad(o),
            None => ActionStep::Nothing,
        },
        Action::MoveToScratchpad => match window {
            Some(s) => ActionStep::MoveToScratchpad(s),
            None => ActionStep::Nothing,
        },
        Action::CycleFocus => ActionStep::CycleFocus,
        Action::FocusDirection(direction) => ActionStep::FocusDirection(direction),
        Action::SwapDirection(direction) => ActionStep::SwapDirection(direction),
        Action::GroupDirection(direction) => ActionStep::GroupDirection(direction),
        Action::Ungroup => match window {
            Some(s) => ActionStep::Ungroup(s),
            None => ActionStep::Nothing,
        },
        Action::CycleTabForward => ActionStep::CycleTab(true),
        Action::CycleTabBackward => ActionStep::CycleTab(false),
        Action::SwitchWorkspace => match (facts.workspace, output) {
            (Some(workspace), Some(o)) => ActionStep::SwitchWorkspace { output: o, workspace },
            _ => ActionStep::Nothing,
        },
        Action::MoveToWorkspace => match (facts.workspace, window) {
            (Some(workspace), Some(s)) => ActionStep::MoveToWorkspace { surface: s, workspace },
            _ => ActionStep::Nothing,
        },
        Action::SwapWorkspacesWithOutput(name) => match (
            output,
            output_named(desk.facts.outputs@, name@),
        ) {
            (Some(this), Some(other)) => ActionStep::SwapWorkspaces { this, other },
            _ => ActionStep::Nothing,
        },
        Action::EnterSubmap(name) => ActionStep::EnterSubmap(name),
        Action::ExitSubmap => ActionStep::ExitSubmap,
        Action::SetLayout(algorithm) => ActionStep::SetLayout(algorithm),
        Action::GrowMaster => ActionStep::AdjustMasterRatio(MASTER_STEP),
        Action::ShrinkMaster => ActionStep::AdjustMasterRatio((-MASTER_STEP) as i64),
        Action::ToggleOverview => ActionStep::ToggleOverview,
        Action::Quit => ActionStep::Quit,
    }
}

/// Decides what an action comes to.
pub fn action_step(desk: &Desk, action: Action, facts: &ActionFacts) -> (r: ActionStep)
    requires
        desk.wf(),
    ensures
        r == step_of(*desk, action, *facts),
{
    match action {
        Action::Spawn(command) => ActionStep::Spawn(command),
        Action::CloseWindow => match facts.focused {
            Some(s) => if desk.facts.visible.contains(&s) {
                ActionStep::Close(s)
            } else {
                ActionStep::Nothing
            },
            None => ActionStep::Nothing,
        },
        Action::ToggleFloating => match facts.focused {
            Some(s) => ActionStep::ToggleFloating(s),
            None => ActionStep::Nothing,
        },
        Action::ToggleFullscreen => ActionStep::ToggleFullscreen,
        Action::TogglePin => match facts.focused {
            Some(s) => ActionStep::TogglePin(s),
            None => ActionStep::Nothing,
        },
        Action::TogglePseudoTile => match facts.focused {
            Some(s) => ActionStep::TogglePseudoTile(s),
            None => ActionStep::Nothing,
        },
        Action::RaiseWindow => match facts.focused {
            Some(s) => ActionStep::Raise(s),
            None => ActionStep::Nothing,
        },
        Action::LowerWindow => match facts.focused {
            Some(s) => ActionStep::Lower(s),
            None => ActionStep::Nothing,
        },
        Action::FocusUrgent => ActionStep::FocusUrgent,
        Action::ToggleDpms => ActionStep::ToggleDpms,
        Action::ToggleScratchpad => match desk.facts.live_output(desk.facts.primary) {
            Some(output) => ActionStep::ToggleScratchpad(output),
            None => ActionStep::Nothing,
        },
        Action::MoveToScratchpad => match facts.focused {
            Some(s) => ActionStep::MoveToScratchpad(s),
            None => ActionStep::Nothing,
        },
        Action::CycleFocus => ActionStep::CycleFocus,
        Action::FocusDirection(direction) => ActionStep::FocusDirection(direction),
        Action::SwapDirection(direction) => ActionStep::SwapDirection(direction),
        Action::GroupDirection(direction) => ActionStep::GroupDirection(direction),
        Action::Ungroup => match facts.focused {
            Some(s) => ActionStep::Ungroup(s),
            None => ActionStep::Nothing,
        },
        Action::CycleTabForward => ActionStep::CycleTab(true),
        Action::CycleTabBackward => ActionStep::CycleTab(false),
        Action::SwitchWorkspace => match (
            facts.workspace,
            desk.facts.live_output(desk.facts.primary),
        ) {
            (Some(workspace), Some(output)) => ActionStep::SwitchWorkspace { output, workspace },
            _ => ActionStep::Nothing,
        },
        Action::MoveToWorkspace => match (facts.workspace, facts.focused) {
            (Some(workspace), Some(surface)) => ActionStep::MoveToWorkspace { surface, workspace },
            _ => ActionStep::Nothing,
        },
        Action::SwapWorkspacesWithOutput(name) => match (
            desk.facts.live_output(desk.facts.primary),
            desk.facts.find_named(name.as_str()),
        ) {
            (Some(this), Some(other)) => ActionStep::SwapWorkspaces { this, other },
            _ => ActionStep::Nothing,
        },
        Action::EnterSubmap(name) => ActionStep::EnterSubmap(name),
        Action::ExitSubmap => ActionStep::ExitSubmap,
        Action::SetLayout(algorithm) => ActionStep::SetLayout(algorithm),
        Action::GrowMaster => ActionStep::AdjustMasterRatio(MASTER_STEP),
        Action::ShrinkMaster => ActionStep::AdjustMasterRatio(-MASTER_STEP),
        Action::ToggleOverview => ActionStep::ToggleOverview,
        Action::Quit => ActionStep::Quit,
    }
}

/// What the user is shown of a command that could not be started.
pub fn spawn_failure(command: &str) -> (r: String)
    ensures
        r@ == "Failed to spawn: "@ + command@,
{
    let mut out: String = "Failed to spawn: ".to_owned();
    out.append(command);
    out
}

} // verus!
