//! The compositor as a whole: its windows, what clients are told of them, what the user
//! does with them.

use vstd::prelude::*;

use crate::actions::{Action, ActionFacts, ActionStep, action_step, step_of};
use crate::assoc::Assoc;
use crate::bsp::SplitHit;
use crate::desk::{Desk, Toggled};
use crate::ext_workspace::{
    ExtWorkspaceState, Refreshed, desired_of, desired_workspaces, event_views, later_call, made_by,
    refreshed,
};
use crate::geometry::{half, FinePoint, Rect};
use crate::keyboard::{KeyContext, KeyEvent, KeyOutcome, key_outcome, process_key};
use crate::pointer::{
    AxisPart, AxisSample, ButtonContext, ButtonOutcome, Constraint, Grab, MotionTarget, RegionPart,
    Switch, SwitchChange, Switches, axis_part, button_outcome, constraint_activates, motion_allowed,
    pointer_motion, process_button, region_has, WindowUnder,
};
use crate::press::{
    border_start, find_border_start, find_point_start, find_resize_starts, find_window_starts,
    point_start, resize_starts, start_view, start_views, window_starts,
};
use crate::ratio::Ratio;
use crate::screencast::{
    OutputMode, ScreencastState, ShareableWindow, refresh_screencast_windows, window_snapshots,
};
use crate::source_picker::{
    all_choices, choice_views, countable, moved, nothing_to_pick, open_picker, panel_key,
    panel_size, picker_key, KeyResult, PanelKey, PickOutcome, PickableWindow, SourceChoice,
    SourcePicker,
};
use crate::toplevels::Toplevels;
use crate::wlr_foreign_toplevel::{
    WlrForeignToplevelState, handle_open, state_bytes, state_seq,
};

verus! {

/// The actions that are bound to the switches of the machine, by their numbers.
#[derive(Clone, Copy, Debug, PartialEq, Eq, Structural)]
pub struct SwitchEvents {
    pub lid_close: Option<u64>,
    pub lid_open: Option<u64>,
    pub tablet_mode_on: Option<u64>,
    pub tablet_mode_off: Option<u64>,
}

impl SwitchEvents {
    /// The action that is bound to a change.
    pub open spec fn bound(&self, change: SwitchChange) -> Option<u64> {
        match change {
            SwitchChange::LidClose => self.lid_close,
            SwitchChange::LidOpen => self.lid_open,
            SwitchChange::TabletModeOn => self.tablet_mode_on,
            SwitchChange::TabletModeOff => self.tablet_mode_off,
        }
    }

    fn action(&self, change: SwitchChange) -> (r: Option<u64>)
        ensures
            r == self.bound(change),
    {
        match change {
            SwitchChange::LidClose => self.lid_close,
            SwitchChange::LidOpen => self.lid_open,
            SwitchChange::TabletModeOn => self.tablet_mode_on,
            SwitchChange::TabletModeOff => self.tablet_mode_off,
        }
    }
}

/// The compositor.
pub struct Smallvil {
    pub top: Toplevels,
    pub wlr_foreign_toplevel_state: Option<WlrForeignToplevelState>,
    pub ext_workspace_state: ExtWorkspaceState,
    pub screencast: Option<ScreencastState>,
    pub screencast_picker: Option<SourcePicker>,
    pub session_locked: bool,
    /// The compositor paints the pointer itself.
    pub paints_pointer: bool,
    pub active_submap: Option<String>,
    /// The submaps that are configured.
    pub submaps: Assoc<String, ()>,
    pub switches: Switches,
    pub switch_events: SwitchEvents,
}

/// A window of which clients are told, with what is known of it beside: whether it is
/// shown on an output, and its size there in pixels.
#[derive(Clone, Copy, Debug, PartialEq, Eq, Structural)]
pub struct AnnouncedWindow {
    pub surface: u64,
    pub on_output: bool,
    pub width: i64,
    pub height: i64,
}

/// What can be shared of a window.
pub open spec fn shareable(top: Toplevels, w: AnnouncedWindow) -> ShareableWindow {
    ShareableWindow {
        number: if top.numeric_ids@.contains_key(w.surface) {
            Some(top.numeric_ids@[w.surface])
        } else {
            None
        },
        mapped: top.desk.facts.mapped(top.desk.modes@, w.surface),
        on_output: w.on_output,
        width: w.width,
        height: w.height,
    }
}

/// What can be shared of the windows.
pub open spec fn all_shareable(top: Toplevels, windows: Seq<AnnouncedWindow>) -> Seq<ShareableWindow> {
    windows.map_values(|w: AnnouncedWindow| shareable(top, w))
}

/// A window with its title.
pub struct TitledWindow {
    pub window: AnnouncedWindow,
    pub title: String,
}

/// `w` says what a panel can offer of `t`.
pub open spec fn offers(top: Toplevels, t: TitledWindow, w: PickableWindow) -> bool {
    let s = shareable(top, t.window);
    &&& s.number == Some(w.number)
    &&& w.mapped == s.mapped
    &&& w.on_output == s.on_output
    &&& w.width == s.width
    &&& w.height == s.height
    &&& w.title@ == t.title@
}

/// The windows that have a number.
pub open spec fn numbered(top: Toplevels, windows: Seq<TitledWindow>) -> Seq<TitledWindow>
    decreases windows.len(),
{
    if windows.len() == 0 {
        seq![]
    } else if shareable(top, windows.last().window).number is Some {
        numbered(top, windows.drop_last()).push(windows.last())
    } else {
        numbered(top, windows.drop_last())
    }
}

/// `pickable` says what a panel can offer of those windows that have a number.
pub open spec fn offer_all(
    top: Toplevels,
    windows: Seq<TitledWindow>,
    pickable: Seq<PickableWindow>,
) -> bool {
    let listed = numbered(top, windows);
    &&& pickable.len() == listed.len()
    &&& forall|i: int|
        0 <= i < listed.len() ==> offers(top, #[trigger] listed[i], pickable[i])
}

fn to_shareable(top: &Toplevels, w: &AnnouncedWindow) -> (r: ShareableWindow)
    requires
        top.wf(),
    ensures
        r == shareable(*top, *w),
{
    ShareableWindow {
        number: match top.numeric_ids.get(&w.surface) {
            Some(n) => Some(*n),
            None => None,
        },
        mapped: top.desk.mapped_toplevel_window(w.surface).is_some(),
        on_output: w.on_output,
        width: w.width,
        height: w.height,
    }
}

fn to_pickable(top: &Toplevels, windows: &Vec<TitledWindow>) -> (r: Vec<PickableWindow>)
    requires
        top.wf(),
    ensures
        offer_all(*top, windows@, r@),
        r@.len() <= windows@.len(),
{
    let mut out: Vec<PickableWindow> = Vec::new();
    let mut i: usize = 0;
    assert(windows@.take(0) =~= seq![]);
    while i < windows.len()
        invariant
            top.wf(),
            i <= windows@.len(),
            offer_all(*top, windows@.take(i as int), out@),
            out@.len() <= i,
        decreases windows@.len() - i,
    {
        let t = &windows[i];
        let ghost before = numbered(*top, windows@.take(i as int));
        proof {
            let upto = windows@.take(i + 1);
            assert(upto.drop_last() =~= windows@.take(i as int));
            assert(upto.last() == *t);
        }
        let s = to_shareable(top, &t.window);
        if let Some(number) = s.number {
            let ghost held = out@;
            out.push(
                PickableWindow {
                    number,
                    mapped: s.mapped,
                    on_output: s.on_output,
                    width: s.width,
                    height: s.height,
                    title: t.title.clone(),
                },
            );
            proof {
                let listed = numbered(*top, windows@.take(i + 1));
                assert(listed == before.push(*t));
                assert forall|j: int| 0 <= j < listed.len() implies offers(
                    *top,
                    #[trigger] listed[j],
                    out@[j],
                ) by {
                    if j < before.len() {
                        assert(offers(*top, before[j], held[j]));
                    }
                }
            }
        }
        i += 1;
    }
    assert(windows@.take(i as int) =~= windows@);
    out
}

/// What an action came to.
pub enum ActionOutcome {
    /// This is left to do.
    Do(ActionStep),
    /// The focused window changed its mode.
    Fullscreen(Toggled),
    /// It is done.
    Done,
}

/// A constraint that the pointer has come under: whether it is in force, its region, and
/// the pixel of its surface that the pointer is at.
pub struct Met {
    pub active: bool,
    pub region: Option<Vec<RegionPart>>,
    pub x: i32,
    pub y: i32,
}

/// A gesture on a touchpad.
#[derive(Clone, Copy, Debug, PartialEq, Eq, Structural)]
pub enum Gesture {
    SwipeBegin,
    SwipeUpdate,
    SwipeEnd,
    PinchBegin,
    PinchUpdate,
    PinchEnd,
    HoldBegin,
    HoldEnd,
}

/// A thing that happens on a touchscreen.
#[derive(Clone, Copy, Debug, PartialEq, Eq, Structural)]
pub enum Touch {
    Down,
    Motion,
    Up,
    Frame,
    Cancel,
}

/// Something that an input device reports, with what decides over it.
pub enum InputEvent {
    DeviceAdded,
    DeviceRemoved,
    Keyboard { event: KeyEvent, context: KeyContext },
    PointerMotion {
        constraint: Constraint,
        constrained: Option<u64>,
        target: MotionTarget,
        /// The constraint at the position that the motion would lead to.
        met: Option<Met>,
    },
    /// To a position on the first output, where there is one.
    PointerMotionAbsolute { has_output: bool },
    /// What the compositor knows of the window and of the splits itself is filled in.
    PointerButton(ButtonContext),
    PointerAxis { horizontal: AxisSample, vertical: AxisSample, finger: bool },
    /// A touch: whether the seat has a touchscreen, and whether there is an output.
    Touched { touch: Touch, has_touch: bool, has_output: bool },
    /// A switch, where its kind is known, and whether it is on.
    SwitchToggle { switch: Option<Switch>, on: bool },
    Gestured(Gesture),
    Other,
}

/// What becomes of an input event.
#[derive(Clone, Copy, Debug, PartialEq, Eq, Structural)]
pub enum InputStep {
    Ignored,
    Key(KeyOutcome),
    /// The client is told how far the pointer moved. It moves, or stays; where it moves,
    /// the constraint that it comes under may come into force.
    Motion { moves: bool, activates: bool },
    AbsoluteMotion,
    Button(ButtonOutcome),
    Axis { horizontal: AxisPart, vertical: AxisPart },
    Touch(Touch),
    /// Run the action of this number.
    Run(u64),
    Gesture(Gesture),
}

/// What becomes of an input event, and what goes with it.
#[derive(Clone, Copy, Debug, PartialEq, Eq, Structural)]
pub struct InputOutcome {
    /// The user is there.
    pub activity: bool,
    /// The pointer was moved, so that it is shown again.
    pub pointer_moved: bool,
    pub step: InputStep,
    pub redraw: bool,
}

/// What the key meets: the lock and the submap are the compositor's own.
pub open spec fn key_context(s: Smallvil, context: KeyContext) -> KeyContext {
    KeyContext { session_locked: s.session_locked, active_submap: s.active_submap, ..context }
}

/// A window at the pointer, by its tile and its modes. `has_resize_splits` says whether
/// there are splits around it.
pub open spec fn window_met(desk: Desk, surface: u64, rect: Rect, has_resize_splits: bool) -> WindowUnder {
    let tiled = desk.facts.layouts.home(surface) is Some;
    WindowUnder {
        surface,
        tiled,
        fullscreen: desk.modes@.fullscreen.contains_key(surface),
        maximized: desk.modes@.maximized.contains_key(surface),
        rect,
        has_tile: tiled,
        has_resize_splits,
    }
}

/// What the button meets: the lock, the place and the modes of the window, and the splits
/// are the compositor's own.
pub open spec fn button_context(s: Smallvil, ctx: ButtonContext) -> ButtonContext {
    let desk = s.top.desk;
    ButtonContext {
        session_locked: s.session_locked,
        window: match ctx.window {
            Some(w) => Some(
                window_met(
                    desk,
                    w.surface,
                    w.rect,
                    window_starts(desk.facts, w.surface).len() > 0,
                ),
            ),
            None => None,
        },
        on_split: point_start(desk.facts, ctx.gaps as int, ctx.point) is Some,
        ..ctx
    }
}

/// The constraint that the pointer has come under comes into force.
pub open spec fn comes_into_force(met: Option<Met>) -> bool {
    match met {
        Some(m) => !m.active && match m.region {
            Some(region) => region_has(region@, m.x as int, m.y as int),
            None => true,
        },
        None => false,
    }
}

/// What is handed on of one axis of a scroll event.
pub open spec fn axis_of(sample: AxisSample, finger: bool) -> AxisPart {
    let value = match sample.amount_is_zero {
        Some(zero) => !zero,
        None => sample.v120 is Some && !(sample.v120->0).zero,
    };
    AxisPart {
        value,
        v120: if value && sample.v120 is Some {
            Some((sample.v120->0).whole)
        } else {
            None
        },
        stop: finger && sample.amount_is_zero == Some(true),
    }
}

/// The touch is handed on: there is a touchscreen, and an output where the touch has a
/// position.
pub open spec fn touch_step(touch: Touch, has_touch: bool, has_output: bool) -> InputStep {
    if has_touch && (has_output || !(touch == Touch::Down || touch == Touch::Motion)) {
        InputStep::Touch(touch)
    } else {
        InputStep::Ignored
    }
}

/// The change that a report of a switch makes.
pub open spec fn switch_change(switches: Switches, switch: Switch, on: bool) -> Option<SwitchChange> {
    if switches.stands(switch) == on {
        None
    } else {
        Some(
            match (switch, on) {
                (Switch::Lid, true) => SwitchChange::LidClose,
                (Switch::Lid, false) => SwitchChange::LidOpen,
                (Switch::TabletMode, true) => SwitchChange::TabletModeOn,
                (Switch::TabletMode, false) => SwitchChange::TabletModeOff,
            },
        )
    }
}

/// What becomes of an input event.
pub open spec fn input_step(s: Smallvil, event: InputEvent) -> InputStep {
    match event {
        InputEvent::DeviceAdded | InputEvent::DeviceRemoved | InputEvent::Other => InputStep::Ignored,
        InputEvent::Keyboard { event, context } => InputStep::Key(
            key_outcome(event, key_context(s, context)),
        ),
        InputEvent::PointerMotion { constraint, constrained, target, met } => {
            let moves = motion_allowed(constraint, constrained, target);
            InputStep::Motion { moves, activates: moves && comes_into_force(met) }
        },
        InputEvent::PointerMotionAbsolute { has_output } => if has_output {
            InputStep::AbsoluteMotion
        } else {
            InputStep::Ignored
        },
        InputEvent::PointerButton(ctx) => InputStep::Button(
            button_outcome(button_context(s, ctx)),
        ),
        InputEvent::PointerAxis { horizontal, vertical, finger } => InputStep::Axis {
            horizontal: axis_of(horizontal, finger),
            vertical: axis_of(vertical, finger),
        },
        InputEvent::Touched { touch, has_touch, has_output } => touch_step(
            touch,
            has_touch,
            has_output,
        ),
        InputEvent::SwitchToggle { switch: Some(switch), on } => match switch_change(
            s.switches,
            switch,
            on,
        ) {
            Some(change) => match s.switch_events.bound(change) {
                Some(action) => InputStep::Run(action),
                None => InputStep::Ignored,
            },
            None => InputStep::Ignored,
        },
        InputEvent::SwitchToggle { switch: None, on } => InputStep::Ignored,
        InputEvent::Gestured(gesture) => InputStep::Gesture(gesture),
    }
}

/// The switches after an input event.
pub open spec fn switches_after(switches: Switches, event: InputEvent) -> Switches {
    match event {
        InputEvent::SwitchToggle { switch: Some(Switch::Lid), on } => Switches {
            is_lid_closed: on,
            ..switches
        },
        InputEvent::SwitchToggle { switch: Some(Switch::TabletMode), on } => Switches {
            is_tablet_mode: on,
            ..switches
        },
        _ => switches,
    }
}

/// The event is of the pointer's motion.
pub open spec fn is_motion(event: InputEvent) -> bool {
    event is PointerMotion || event is PointerMotionAbsolute
}

/// What an input event does, as a whole.
pub open spec fn input_outcome(s: Smallvil, event: InputEvent) -> InputOutcome {
    InputOutcome {
        activity: !(event is DeviceAdded || event is DeviceRemoved),
        pointer_moved: is_motion(event),
        step: input_step(s, event),
        redraw: s.paints_pointer && is_motion(event) && !(input_step(s, event) is Ignored),
    }
}

impl Smallvil {
    pub open spec fn wf(&self) -> bool {
        &&& self.top.wf()
        &&& self.submaps.wf()
        &&& self.wlr_foreign_toplevel_state is Some ==> self.wlr_foreign_toplevel_state->0.wf()
        &&& self.screencast_picker is Some ==> self.screencast_picker->0.wf()
    }

    /// Lists no more the windows that are closed.
    pub fn cleanup_wlr_foreign_toplevels(&mut self)
        ensures
            old(self).wf() ==> final(self).wf(),
            match (old(self).wlr_foreign_toplevel_state, final(self).wlr_foreign_toplevel_state) {
                (Some(before), Some(after)) => {
                    &&& after.handles() == before.handles().filter(handle_open())
                    &&& after.instances == before.instances
                },
                (None, None) => true,
                _ => false,
            },
            *final(self) == (Smallvil {
                wlr_foreign_toplevel_state: final(self).wlr_foreign_toplevel_state,
                ..*old(self)
            }),
    {
        if let Some(state) = &mut self.wlr_foreign_toplevel_state {
            state.cleanup_closed();
        }
    }

    /// Tells clients how a window stands: the objects that are told, and what they are
    /// told. The handle of a window has the number of its surface.
    pub fn refresh_wlr_toplevel_state(&self, surface: u64, activated: bool) -> (r: Option<
        (Vec<u64>, Vec<u8>),
    >)
        requires
            self.wf(),
        ensures
            match r {
                Some((objects, state)) => {
                    let fullscreen = self.top.desk.modes@.fullscreen.contains_key(surface);
                    let maximized = self.top.desk.modes@.maximized.contains_key(surface);
                    &&& self.wlr_foreign_toplevel_state is Some
                    &&& listed(self.wlr_foreign_toplevel_state->0, surface, objects@)
                    &&& state@ == state_seq(activated, maximized && !fullscreen, fullscreen)
                },
                None => self.wlr_foreign_toplevel_state is Some ==> unlisted(
                    self.wlr_foreign_toplevel_state->0,
                    surface,
                ),
            },
    {
        match &self.wlr_foreign_toplevel_state {
            Some(state) => match state.objects_of(surface) {
                Some(objects) => {
                    let (maximized, fullscreen) = self.top.desk.shown_modes(surface);
                    Some((objects, state_bytes(activated, maximized, fullscreen)))
                },
                None => None,
            },
            None => None,
        }
    }

    /// Tells clients of the workspaces there are now, given those that each output
    /// advertises. Objects can be made for the clients in `live`.
    pub fn refresh_ext_workspaces(
        &mut self,
        outputs: &Vec<(String, Vec<u32>)>,
        live: &Vec<u64>,
    ) -> (r: Refreshed)
        requires
            old(self).wf(),
        ensures
            final(self).wf(),
            ({
                let p = refreshed(
                    old(self).ext_workspace_state.views(),
                    desired_of(old(self).top.desk.facts.layouts, outputs@),
                    old(self).ext_workspace_state.managers@.map_values(
                        made_by(old(self).ext_workspace_state.next_made),
                    ),
                    live@,
                );
                &&& final(self).ext_workspace_state.views() == p.groups
                &&& event_views(r.events@) == p.events
                &&& r.done@ == if p.changed {
                    old(self).ext_workspace_state.managers@
                } else {
                    Seq::empty()
                }
            }),
            final(self).ext_workspace_state.managers == old(self).ext_workspace_state.managers,
            final(self).ext_workspace_state.next_made == later_call(
                old(self).ext_workspace_state.next_made,
            ),
            *final(self) == (Smallvil {
                ext_workspace_state: final(self).ext_workspace_state,
                ..*old(self)
            }),
    {
        let desired = desired_workspaces(&self.top.desk.facts.layouts, outputs);
        self.ext_workspace_state.refresh(&desired, live)
    }

    /// Takes in which windows can be shared now.
    pub fn refresh_screencast_windows(&mut self, windows: &Vec<AnnouncedWindow>)
        requires
            old(self).wf(),
        ensures
            final(self).wf(),
            match (old(self).screencast, final(self).screencast) {
                (Some(before), Some(after)) => {
                    &&& after.windows@ == window_snapshots(all_shareable(old(self).top, windows@))
                    &&& after.outputs == before.outputs
                },
                (None, None) => true,
                _ => false,
            },
            *final(self) == (Smallvil { screencast: final(self).screencast, ..*old(self) }),
    {
        let mut list: Vec<ShareableWindow> = Vec::new();
        let ghost goal = all_shareable(self.top, windows@);
        let mut i: usize = 0;
        assert(list@ =~= goal.take(0));
        while i < windows.len()
            invariant
                self.top.wf(),
                *self == *old(self),
                i <= windows@.len(),
                goal == all_shareable(self.top, windows@),
                list@ == goal.take(i as int),
            decreases windows@.len() - i,
        {
            list.push(to_shareable(&self.top, &windows[i]));
            assert(goal.take(i + 1) =~= goal.take(i as int).push(goal[i as int]));
            i += 1;
        }
        assert(goal.take(i as int) =~= goal);
        let snapshots = refresh_screencast_windows(&list);
        if let Some(screencast) = &mut self.screencast {
            screencast.refresh_windows(snapshots);
        }
    }

    /// Opens the panel in which the user picks a source, on the primary output `ui`. A
    /// panel that is open already is closed first. Where there is nothing to pick, and
    /// where there is only one choice, the answer is given without a panel.
    pub fn open_screencast_picker(
        &mut self,
        request: u64,
        source_types: u32,
        ui: &Option<OutputMode>,
        outputs: &Vec<OutputMode>,
        windows: &Vec<TitledWindow>,
    ) -> (r: PickOutcome)
        requires
            old(self).wf(),
            countable((outputs@.len() + windows@.len() + 1) as int),
            *ui is Some && (ui->0).mode is Some ==> ((ui->0).mode->0).0 > i32::MIN && ((
            ui->0).mode->0).1 > i32::MIN,
        ensures
            final(self).wf(),
            *final(self) == (Smallvil {
                screencast_picker: final(self).screencast_picker,
                ..*old(self)
            }),
            r.cancelled == match old(self).screencast_picker {
                Some(picker) => Some(picker.request),
                None => None,
            },
            exists|pickable: Seq<PickableWindow>|
                {
                    &&& #[trigger] offer_all(old(self).top, windows@, pickable)
                    &&& picked(
                        old(self).session_locked,
                        request,
                        source_types,
                        *ui,
                        outputs@,
                        pickable,
                        final(self).screencast_picker,
                        r,
                    )
                },
    {
        let pickable = to_pickable(&self.top, windows);
        let locked = self.session_locked;
        let r = open_picker(
            &mut self.screencast_picker,
            request,
            source_types,
            locked,
            ui,
            outputs,
            &pickable,
        );
        assert(offer_all(old(self).top, windows@, pickable@));
        r
    }

    /// Hands a key to the panel. While it is open no client sees a key.
    pub fn handle_screencast_picker_key(&mut self, sym: u32) -> (r: KeyResult)
        requires
            old(self).wf(),
        ensures
            final(self).wf(),
            *final(self) == (Smallvil {
                screencast_picker: final(self).screencast_picker,
                ..*old(self)
            }),
            r.swallowed == old(self).screencast_picker is Some,
            match old(self).screencast_picker {
                None => final(self).screencast_picker is None && r.reply is None && !r.redraw,
                Some(picker) => {
                    let count = picker.choices@.len() as int;
                    match panel_key(sym) {
                        PanelKey::Back => {
                            &&& final(self).screencast_picker == Some(
                                SourcePicker {
                                    selected: moved(picker.selected as int, -1, count) as usize,
                                    ..picker
                                },
                            )
                            &&& r.reply is None
                            &&& r.redraw
                        },
                        PanelKey::Forward => {
                            &&& final(self).screencast_picker == Some(
                                SourcePicker {
                                    selected: moved(picker.selected as int, 1, count) as usize,
                                    ..picker
                                },
                            )
                            &&& r.reply is None
                            &&& r.redraw
                        },
                        PanelKey::Accept => {
                            &&& final(self).screencast_picker is None
                            &&& r.reply == Some(
                                (picker.request, Some(picker.choices@[picker.selected as int])),
                            )
                            &&& r.redraw
                        },
                        PanelKey::Cancel => {
                            &&& final(self).screencast_picker is None
                            &&& r.reply == Some((picker.request, None::<SourceChoice>))
                            &&& r.redraw
                        },
                        PanelKey::Other => {
                            &&& final(self).screencast_picker == old(self).screencast_picker
                            &&& r.reply is None
                            &&& !r.redraw
                        },
                    }
                },
            },
    {
        picker_key(&mut self.screencast_picker, sym)
    }

    /// Makes the focused window fullscreen, or ends its fullscreen mode.
    pub fn toggle_fullscreen(&mut self, focused: Option<u64>, exclusive_layer: bool) -> (r: Toggled)
        requires
            old(self).wf(),
        ensures
            final(self).wf(),
            fullscreen_toggled(
                old(self).top.desk,
                final(self).top.desk,
                focused,
                exclusive_layer,
                r,
            ),
            only_desk_changed(*old(self), *final(self)),
    {
        self.top.desk.toggle_fullscreen(focused, exclusive_layer)
    }

    /// Maximizes the focused window, or ends its maximized mode.
    pub fn toggle_maximize(&mut self, focused: Option<u64>, exclusive_layer: bool, shown: bool) -> (r:
        Toggled)
        requires
            old(self).wf(),
        ensures
            final(self).wf(),
            maximize_toggled(
                old(self).top.desk,
                final(self).top.desk,
                focused,
                exclusive_layer,
                shown,
                r,
            ),
            only_desk_changed(*old(self), *final(self)),
    {
        self.top.desk.toggle_maximize(focused, exclusive_layer, shown)
    }

    /// Runs an action, as far as the compositor's own state goes; the rest is handed
    /// back. A submap that is not configured is not entered.
    pub fn run_action(&mut self, action: Action, facts: &ActionFacts, exclusive_layer: bool) -> (r:
        ActionOutcome)
        requires
            old(self).wf(),
        ensures
            final(self).wf(),
            match step_of(old(self).top.desk, action, *facts) {
                ActionStep::ToggleFullscreen => {
                    &&& r is Fullscreen
                    &&& fullscreen_toggled(
                        old(self).top.desk,
                        final(self).top.desk,
                        facts.focused,
                        exclusive_layer,
                        r->Fullscreen_0,
                    )
                    &&& only_desk_changed(*old(self), *final(self))
                },
                ActionStep::EnterSubmap(name) => {
                    &&& r is Done
                    &&& *final(self) == (Smallvil {
                        active_submap: if old(self).submaps@.contains_key(name@) {
                            Some(name)
                        } else {
                            old(self).active_submap
                        },
                        ..*old(self)
                    })
                },
                ActionStep::ExitSubmap => r is Done && *final(self) == (Smallvil {
                    active_submap: None,
                    ..*old(self)
                }),
                step => r == ActionOutcome::Do(step) && *final(self) == *old(self),
            },
    {
        match action_step(&self.top.desk, action, facts) {
            ActionStep::ToggleFullscreen => {
                let toggled = self.toggle_fullscreen(facts.focused, exclusive_layer);
                ActionOutcome::Fullscreen(toggled)
            },
            ActionStep::EnterSubmap(name) => {
                if self.submaps.contains(&name) {
                    self.active_submap = Some(name);
                }
                ActionOutcome::Done
            },
            ActionStep::ExitSubmap => {
                self.active_submap = None;
                ActionOutcome::Done
            },
            step => ActionOutcome::Do(step),
        }
    }

    fn key_step(&self, event: KeyEvent, context: KeyContext) -> (r: InputStep)
        requires
            context.submaps.wf(),
        ensures
            r == InputStep::Key(key_outcome(event, key_context(*self, context))),
    {
        let mut met = context;
        met.session_locked = self.session_locked;
        met.active_submap = match &self.active_submap {
            Some(name) => Some(name.clone()),
            None => None,
        };
        assert(met == key_context(*self, context));
        InputStep::Key(process_key(&event, &met))
    }

    /// The splits around a tiled window that a drag of it moves, on the workspace that an
    /// output shows, each with the fraction that it has at the start.
    pub fn tile_resize_handles(&self, surface: u64, output: &str, area: Rect) -> (r: Vec<
        (SplitHit, Ratio),
    >)
        requires
            self.wf(),
            area.fits(),
        ensures
            start_views(r@) == resize_starts(
                self.top.desk.facts.layouts,
                output@,
                area,
                surface,
            ),
    {
        find_resize_starts(&self.top.desk.facts.layouts, output, area, surface)
    }

    /// The split whose boundary is at a point of the workspace that an output shows, with
    /// the fraction that it has at the start.
    pub fn split_under(&self, output: &str, area: Rect, gap: i32, point: FinePoint) -> (r: Option<
        (SplitHit, Ratio),
    >)
        requires
            self.wf(),
            area.fits(),
        ensures
            start_view(r) == border_start(
                self.top.desk.facts.layouts,
                output@,
                area,
                gap as int,
                point,
            ),
    {
        find_border_start(&self.top.desk.facts.layouts, output, area, gap, point)
    }

    /// What is known of a window at the pointer, which is seen on an output.
    pub fn window_under(&self, surface: u64, rect: Rect, output: &str, area: Rect) -> (r: WindowUnder)
        requires
            self.wf(),
            area.fits(),
        ensures
            r == window_met(
                self.top.desk,
                surface,
                rect,
                resize_starts(self.top.desk.facts.layouts, output@, area, surface).len() > 0,
            ),
    {
        let starts = self.tile_resize_handles(surface, output, area);
        self.met_with(surface, rect, starts.len() > 0)
    }

    fn met_with(&self, surface: u64, rect: Rect, has_resize_splits: bool) -> (r: WindowUnder)
        requires
            self.wf(),
        ensures
            r == window_met(self.top.desk, surface, rect, has_resize_splits),
    {
        let tiled: bool = self.top.desk.facts.layouts.contains(surface);
        proof {
            self.top.desk.facts.layouts.lemma_home(surface);
        }
        WindowUnder {
            surface,
            tiled,
            fullscreen: self.top.desk.modes.fullscreen.contains(&surface),
            maximized: self.top.desk.modes.maximized.contains(&surface),
            rect,
            has_tile: tiled,
            has_resize_splits,
        }
    }

    fn button_step(&self, ctx: ButtonContext) -> (r: InputStep)
        requires
            self.wf(),
        ensures
            r == InputStep::Button(button_outcome(button_context(*self, ctx))),
    {
        let mut met = ctx;
        met.session_locked = self.session_locked;
        if let Some(w) = ctx.window {
            let starts = find_window_starts(&self.top.desk.facts, w.surface);
            met.window = Some(self.met_with(w.surface, w.rect, starts.len() > 0));
        }
        met.on_split = find_point_start(&self.top.desk.facts, ctx.gaps, ctx.point).is_some();
        assert(met == button_context(*self, ctx));
        InputStep::Button(process_button(&met))
    }

    /// Decides what becomes of an input event. Any but the coming and going of devices
    /// tells that the user is there.
    pub fn process_input_event(&mut self, event: InputEvent) -> (r: InputOutcome)
        requires
            old(self).wf(),
            event is Keyboard ==> event->context.submaps.wf(),
        ensures
            final(self).wf(),
            r == input_outcome(*old(self), event),
            *final(self) == (Smallvil {
                switches: switches_after(old(self).switches, event),
                ..*old(self)
            }),
    {
        match event {
            InputEvent::DeviceAdded | InputEvent::DeviceRemoved => InputOutcome {
                activity: false,
                pointer_moved: false,
                step: InputStep::Ignored,
                redraw: false,
            },
            InputEvent::Other => plain(InputStep::Ignored),
            InputEvent::Keyboard { event, context } => plain(self.key_step(event, context)),
            InputEvent::PointerMotion { constraint, constrained, target, met } => {
                InputOutcome {
                    activity: true,
                    pointer_moved: true,
                    step: motion_step(&constraint, constrained, target, &met),
                    redraw: self.paints_pointer,
                }
            },
            InputEvent::PointerMotionAbsolute { has_output } => InputOutcome {
                activity: true,
                pointer_moved: true,
                step: if has_output {
                    InputStep::AbsoluteMotion
                } else {
                    InputStep::Ignored
                },
                redraw: self.paints_pointer && has_output,
            },
            InputEvent::PointerButton(ctx) => plain(self.button_step(ctx)),
            InputEvent::PointerAxis { horizontal, vertical, finger } => plain(
                InputStep::Axis {
                    horizontal: axis_part(horizontal, finger),
                    vertical: axis_part(vertical, finger),
                },
            ),
            InputEvent::Touched { touch, has_touch, has_output } => plain(
                handed_touch(touch, has_touch, has_output),
            ),
            InputEvent::SwitchToggle { switch, on } => {
                match switch {
                    Some(switch) => {
                        let events = self.switch_events;
                        plain(switch_step(&mut self.switches, &events, switch, on))
                    },
                    None => plain(InputStep::Ignored),
                }
            },
            InputEvent::Gestured(gesture) => plain(InputStep::Gesture(gesture)),
        }
    }
}

fn motion_step(
    constraint: &Constraint,
    constrained: Option<u64>,
    target: MotionTarget,
    met: &Option<Met>,
) -> (r: InputStep)
    ensures
        ({
            let moves = motion_allowed(*constraint, constrained, target);
            r == InputStep::Motion { moves, activates: moves && comes_into_force(*met) }
        }),
{
    let moves = pointer_motion(constraint, constrained, target);
    let activates = match met {
        Some(m) => moves && constraint_activates(m.active, &m.region, m.x, m.y),
        None => false,
    };
    InputStep::Motion { moves, activates }
}

fn handed_touch(touch: Touch, has_touch: bool, has_output: bool) -> (r: InputStep)
    ensures
        r == touch_step(touch, has_touch, has_output),
{
    let placed = match touch {
        Touch::Down | Touch::Motion => has_output,
        _ => true,
    };
    if has_touch && placed {
        InputStep::Touch(touch)
    } else {
        InputStep::Ignored
    }
}

fn switch_step(switches: &mut Switches, events: &SwitchEvents, switch: Switch, on: bool) -> (r:
    InputStep)
    ensures
        *final(switches) == switches_after(
            *old(switches),
            InputEvent::SwitchToggle { switch: Some(switch), on },
        ),
        r == match switch_change(*old(switches), switch, on) {
            Some(change) => match events.bound(change) {
                Some(action) => InputStep::Run(action),
                None => InputStep::Ignored,
            },
            None => InputStep::Ignored,
        },
{
    match switches.toggle(switch, on) {
        Some(change) => match events.action(change) {
            Some(action) => InputStep::Run(action),
            None => InputStep::Ignored,
        },
        None => InputStep::Ignored,
    }
}

fn plain(step: InputStep) -> (r: InputOutcome)
    ensures
        r == (InputOutcome { activity: true, pointer_moved: false, step, redraw: false }),
{
    InputOutcome { activity: true, pointer_moved: false, step, redraw: false }
}

/// A press that resizes a tiled window, or drags a border, has splits to move.
pub proof fn law_tile_drags_have_splits(s: Smallvil, ctx: ButtonContext)
    ensures
        ({
            let grab = button_outcome(button_context(s, ctx)).grab;
            let facts = s.top.desk.facts;
            &&& grab == Some(Grab::TileWindowResize) ==> ctx.window is Some && window_starts(
                facts,
                (ctx.window->0).surface,
            ).len() > 0
            &&& grab == Some(Grab::TileResize) ==> point_start(
                facts,
                ctx.gaps as int,
                ctx.point,
            ) is Some
        }),
{
}

/// The handle of this number is listed, with these objects.
pub open spec fn listed(state: WlrForeignToplevelState, id: u64, objects: Seq<u64>) -> bool {
    exists|i: int|
        0 <= i < state.handles().len() && (#[trigger] state.handles()[i]).id == id
            && state.handles()[i].instances == objects
}

/// No handle of this number is listed.
pub open spec fn unlisted(state: WlrForeignToplevelState, id: u64) -> bool {
    forall|i: int| 0 <= i < state.handles().len() ==> (#[trigger] state.handles()[i]).id != id
}

/// What a wish to pick a source comes to.
pub open spec fn picked(
    locked: bool,
    request: u64,
    source_types: u32,
    ui: Option<OutputMode>,
    outputs: Seq<OutputMode>,
    windows: Seq<PickableWindow>,
    after: Option<SourcePicker>,
    r: PickOutcome,
) -> bool {
    if nothing_to_pick(locked, ui, source_types, outputs, windows) {
        &&& after is None
        &&& r.reply is Some
        &&& r.reply->0 is None
        &&& !r.redraw
    } else {
        let mode = (ui->0).mode->0;
        let list = all_choices(source_types, outputs, windows, (ui->0).name@, mode);
        if list.len() == 1 {
            &&& after is None
            &&& r.reply is Some
            &&& r.reply->0 is Some
            &&& (r.reply->0->0)@ == list[0]
            &&& !r.redraw
        } else {
            let size = panel_size(mode, list.len() as int);
            &&& after is Some
            &&& (after->0).wf()
            &&& (after->0).request == request
            &&& (after->0).output_name@ == (ui->0).name@
            &&& choice_views((after->0).choices@) == list
            &&& (after->0).selected == 0
            &&& (after->0).size.0 == size.0
            &&& (after->0).size.1 == size.1
            &&& (after->0).location.0 == half(mode.0 - size.0)
            &&& (after->0).location.1 == half(mode.1 - size.1)
            &&& r.reply is None
            &&& r.redraw
        }
    }
}

/// Nothing but the windows' modes changed.
pub open spec fn only_desk_changed(before: Smallvil, after: Smallvil) -> bool {
    after == (Smallvil { top: Toplevels { desk: after.top.desk, ..before.top }, ..before })
}

/// The focused window took the fullscreen mode, as if it had asked for it itself, or left
/// it.
pub open spec fn fullscreen_toggled(
    before: Desk,
    after: Desk,
    focused: Option<u64>,
    exclusive_layer: bool,
    r: Toggled,
) -> bool {
    &&& after.facts == before.facts
    &&& match before.toggle_target(focused, exclusive_layer) {
        None => r == Toggled::Nothing && after.modes@ == before.modes@,
        Some(s) => if before.modes@.fullscreen.contains_key(s) {
            &&& r == Toggled::Changed(s, before.facts.unfullscreen_reply(before.modes@, s))
            &&& after.modes@ == before.facts.unfullscreened(before.modes@, s)
        } else {
            &&& r is Entered
            &&& r->Entered_0 == s
            &&& before.facts.goes_fullscreen(
                before.modes@,
                after.modes@,
                s,
                None,
                r->Entered_1,
            )
        },
    }
}

/// The focused window took, or left, the maximized mode.
pub open spec fn maximize_toggled(
    before: Desk,
    after: Desk,
    focused: Option<u64>,
    exclusive_layer: bool,
    shown: bool,
    r: Toggled,
) -> bool {
    &&& after.facts == before.facts
    &&& match before.toggle_target(focused, exclusive_layer) {
        None => r == Toggled::Nothing && after.modes@ == before.modes@,
        Some(s) => if before.modes@.maximized.contains_key(s) {
            &&& r == Toggled::Changed(s, before.facts.unmaximize_reply(before.modes@, s))
            &&& after.modes@ == before.facts.unmaximized(before.modes@, s)
        } else {
            &&& r == Toggled::Changed(s, before.facts.maximize_reply(before.modes@, s, shown))
            &&& after.modes@ == before.facts.maximized(before.modes@, s)
        },
    }
}

/// While the session is locked, no key runs an action, and no button does more than
/// reach its client.
pub proof fn law_locked_input_is_handed_on(s: Smallvil, event: InputEvent)
    requires
        s.session_locked,
    ensures
        event is Keyboard ==> !(input_step(s, event)->Key_0 is Run),
        event is PointerButton ==> input_step(s, event) == InputStep::Button(
            crate::pointer::handed_on(),
        ),
{
}

/// A report of a switch that tells nothing new runs nothing.
pub proof fn law_repeated_switch_reports_run_nothing(s: Smallvil, switch: Switch, on: bool)
    ensures
        ({
            let event = InputEvent::SwitchToggle { switch: Some(switch), on };
            let after = Smallvil { switches: switches_after(s.switches, event), ..s };
            input_step(after, event) == InputStep::Ignored
        }),
{
}

} // verus!
