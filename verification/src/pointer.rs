//! What becomes of the pointer: its motion, its buttons, its wheels.

use vstd::prelude::*;

use crate::geometry::{FinePoint, Rect};

verus! {

pub const BTN_LEFT: u32 = 0x110;

pub const BTN_RIGHT: u32 = 0x111;

/// The edges of a window that a drag moves.
#[derive(Clone, Copy, Debug, PartialEq, Eq, Structural)]
pub struct ResizeEdge {
    pub left: bool,
    pub right: bool,
    pub top: bool,
    pub bottom: bool,
}

/// The edges of `rect` that lie within `threshold` pixels of `p`.
pub open spec fn edges_near(rect: Rect, p: FinePoint, threshold: int) -> ResizeEdge {
    ResizeEdge {
        left: p.x - 65536 * rect.x <= 65536 * threshold,
        right: 65536 * (rect.x + rect.w) - p.x <= 65536 * threshold,
        top: p.y - 65536 * rect.y <= 65536 * threshold,
        bottom: 65536 * (rect.y + rect.h) - p.y <= 65536 * threshold,
    }
}

/// No edge at all.
pub open spec fn no_edge(e: ResizeEdge) -> bool {
    !e.left && !e.right && !e.top && !e.bottom
}

/// The edges that a drag from `point`, which lies in the window of `rect`, moves:
/// those within `threshold` pixels. None in the window's interior.
pub fn floating_resize_edge(rect: Rect, point: FinePoint, threshold: i32) -> (r: Option<ResizeEdge>)
    ensures
        r == if no_edge(edges_near(rect, point, threshold as int)) {
            None
        } else {
            Some(edges_near(rect, point, threshold as int))
        },
{
    let (px, py): (i128, i128) = (point.x as i128, point.y as i128);
    let t: i128 = 65536 * threshold as i128;
    let edge = ResizeEdge {
        left: px - 65536 * rect.x as i128 <= t,
        right: 65536 * (rect.x as i128 + rect.w as i128) - px <= t,
        top: py - 65536 * rect.y as i128 <= t,
        bottom: 65536 * (rect.y as i128 + rect.h as i128) - py <= t,
    };
    if edge.left || edge.right || edge.top || edge.bottom {
        Some(edge)
    } else {
        None
    }
}

/// How near to an edge counts as on it: the gap between windows, at least four
/// pixels.
pub fn edge_threshold(gaps: i32) -> (r: i32)
    ensures
        r == crate::bsp::reach(gaps as int),
{
    if gaps > 4 {
        gaps
    } else {
        4
    }
}

/// A part of a region: a rectangle that is added to what came before it, or taken
/// away from it.
#[derive(Clone, Copy, Debug, PartialEq, Eq, Structural)]
pub struct RegionPart {
    pub add: bool,
    pub rect: Rect,
}

/// The pixel belongs to the region: the last part that covers it adds it.
pub open spec fn region_has(region: Seq<RegionPart>, px: int, py: int) -> bool
    decreases region.len(),
{
    if region.len() == 0 {
        false
    } else if region.last().rect.covers(px, py) {
        region.last().add
    } else {
        region_has(region.drop_last(), px, py)
    }
}

/// Whether a pixel belongs to a region.
pub fn region_contains(region: &Vec<RegionPart>, x: i32, y: i32) -> (r: bool)
    ensures
        r == region_has(region@, x as int, y as int),
{
    let mut contains = false;
    let mut i: usize = 0;
    assert(region@.take(0) =~= seq![]);
    while i < region.len()
        invariant
            i <= region@.len(),
            contains == region_has(region@.take(i as int), x as int, y as int),
        decreases region@.len() - i,
    {
        let part = region[i];
        proof {
            let upto = region@.take(i + 1);
            assert(upto.drop_last() =~= region@.take(i as int));
            assert(upto.last() == part);
        }
        let rect = part.rect;
        if rect.x <= x && (x as i64) < rect.x as i64 + rect.w as i64 && rect.y <= y && (y as i64)
            < rect.y as i64 + rect.h as i64 {
            contains = part.add;
        }
        i += 1;
    }
    assert(region@.take(i as int) =~= region@);
    contains
}

/// The constraint that holds the pointer.
pub enum Constraint {
    /// None, or one that is not in force.
    Free,
    /// The pointer stays where it is.
    Locked,
    /// The pointer stays in a region of the surface, in all of it where none is
    /// given.
    Confined(Option<Vec<RegionPart>>),
}

/// The position that a motion would lead to.
#[derive(Clone, Copy, Debug, PartialEq, Eq, Structural)]
pub struct MotionTarget {
    /// The pixel, as the constrained surface counts.
    pub x: i32,
    pub y: i32,
    /// The root of the surface there.
    pub root: Option<u64>,
}

/// The motion happens. `constrained` is the root of the surface whose constraint
/// holds the pointer.
pub open spec fn motion_allowed(
    constraint: Constraint,
    constrained: Option<u64>,
    target: MotionTarget,
) -> bool {
    match constraint {
        Constraint::Free => true,
        Constraint::Locked => false,
        Constraint::Confined(Some(region)) => region_has(
            region@,
            target.x as int,
            target.y as int,
        ),
        Constraint::Confined(None) => constrained is Some ==> target.root == constrained,
    }
}

/// Decides whether the pointer moves. A locked one stays; a confined one does not
/// leave its region, or its surface where it has no region.
pub fn pointer_motion(constraint: &Constraint, constrained: Option<u64>, target: MotionTarget) -> (r:
    bool)
    ensures
        r == motion_allowed(*constraint, constrained, target),
{
    match constraint {
        Constraint::Free => true,
        Constraint::Locked => false,
        Constraint::Confined(Some(region)) => region_contains(region, target.x, target.y),
        Constraint::Confined(None) => match (constrained, target.root) {
            (Some(root), Some(new_root)) => root == new_root,
            (Some(_), None) => false,
            (None, _) => true,
        },
    }
}

/// Whether a constraint that is not in force yet comes into force with the pointer
/// at this pixel of the surface: it lies in its region, where it has one.
pub fn constraint_activates(active: bool, region: &Option<Vec<RegionPart>>, x: i32, y: i32) -> (r:
    bool)
    ensures
        r == (!active && match *region {
            Some(region) => region_has(region@, x as int, y as int),
            None => true,
        }),
{
    if active {
        return false;
    }
    match region {
        Some(region) => region_contains(region, x, y),
        None => true,
    }
}

/// A layer surface at the pointer.
#[derive(Clone, Copy, Debug, PartialEq, Eq, Structural)]
pub struct LayerUnder {
    pub surface: u64,
    /// It takes the keyboard at all.
    pub interactive: bool,
}

/// A window at the pointer.
#[derive(Clone, Copy, Debug, PartialEq, Eq, Structural)]
pub struct WindowUnder {
    pub surface: u64,
    pub tiled: bool,
    pub fullscreen: bool,
    pub maximized: bool,
    pub rect: Rect,
    /// The tree that the window is tiled in is known.
    pub has_tile: bool,
    /// There are splits around the window to resize it by.
    pub has_resize_splits: bool,
}

/// Everything that decides over a button.
#[derive(Clone, Copy, Debug, PartialEq, Eq, Structural)]
pub struct ButtonContext {
    pub button: u32,
    pub pressed: bool,
    pub session_locked: bool,
    /// Something holds the pointer already.
    pub grabbed: bool,
    /// What holds it is a popup.
    pub popup_grab: bool,
    pub layer: Option<LayerUnder>,
    pub exclusive_layer: bool,
    pub logo: bool,
    pub window: Option<WindowUnder>,
    pub point: FinePoint,
    pub gaps: i32,
    /// The pointer is on the border of a split of the tiling.
    pub on_split: bool,
}

/// Where the keyboard focus goes.
#[derive(Clone, Copy, Debug, PartialEq, Eq, Structural)]
pub enum FocusChange {
    Keep,
    Layer(u64),
    Window(u64),
    /// Nothing has it.
    Clear,
}

/// What takes hold of the pointer.
#[derive(Clone, Copy, Debug, PartialEq, Eq, Structural)]
pub enum Grab {
    /// Drags a floating window along.
    Move,
    /// Resizes a floating window by these edges.
    Resize(ResizeEdge),
    /// Picks a tiled window up, to swap it with another.
    TileMove,
    /// Resizes a tiled window by the splits around it.
    TileWindowResize,
    /// Drags the border of a split.
    TileResize,
}

/// What a button does.
#[derive(Clone, Copy, Debug, PartialEq, Eq, Structural)]
pub struct ButtonOutcome {
    /// The window that comes to the front.
    pub raise: Option<u64>,
    pub focus: FocusChange,
    pub grab: Option<Grab>,
    /// The client under the pointer sees the button.
    pub forward: bool,
}

/// The button is only handed on.
pub open spec fn handed_on() -> ButtonOutcome {
    ButtonOutcome { raise: None, focus: FocusChange::Keep, grab: None, forward: true }
}

/// The layer surface takes the keyboard where it takes it at all.
pub open spec fn layer_focus(layer: LayerUnder) -> FocusChange {
    if layer.interactive {
        FocusChange::Layer(layer.surface)
    } else {
        FocusChange::Keep
    }
}

/// An ordinary click: the window under the pointer gets the focus, and comes to
/// the front where it is not tiled.
pub open spec fn plain_click(window: Option<WindowUnder>) -> ButtonOutcome {
    match window {
        Some(w) => ButtonOutcome {
            raise: if w.tiled {
                None
            } else {
                Some(w.surface)
            },
            focus: FocusChange::Window(w.surface),
            grab: None,
            forward: true,
        },
        None => ButtonOutcome { raise: None, focus: FocusChange::Clear, grab: None, forward: true },
    }
}

/// A drag of the window begins.
pub open spec fn drag(w: WindowUnder, grab: Grab) -> ButtonOutcome {
    ButtonOutcome {
        raise: if w.tiled {
            None
        } else {
            Some(w.surface)
        },
        focus: FocusChange::Window(w.surface),
        grab: Some(grab),
        forward: false,
    }
}

/// The window takes all of its output, or of its tiling area.
pub open spec fn output_owned(w: WindowUnder) -> bool {
    w.fullscreen || w.maximized
}

/// The drag that a press with the logo key begins.
pub open spec fn super_grab(ctx: ButtonContext) -> Option<Grab> {
    let left = ctx.button == BTN_LEFT;
    let right = ctx.button == BTN_RIGHT;
    match ctx.window {
        Some(w) => if !ctx.logo || !(left || right) || output_owned(w) {
            None
        } else if !w.tiled {
            if left {
                Some(Grab::Move)
            } else {
                Some(
                    Grab::Resize(
                        ResizeEdge { left: false, right: true, top: false, bottom: true },
                    ),
                )
            }
        } else if left && w.has_tile {
            Some(Grab::TileMove)
        } else if right && w.has_resize_splits {
            Some(Grab::TileWindowResize)
        } else {
            None
        },
        None => None,
    }
}

/// The drag that a plain press on a floating window's edge begins.
pub open spec fn edge_grab(ctx: ButtonContext) -> Option<Grab> {
    match ctx.window {
        Some(w) => {
            let near = edges_near(w.rect, ctx.point, crate::bsp::reach(ctx.gaps as int));
            if ctx.button == BTN_LEFT && !ctx.logo && !w.tiled && !output_owned(w) && !no_edge(
                near,
            ) {
                Some(Grab::Resize(near))
            } else {
                None
            }
        },
        None => None,
    }
}

/// What a press does that nothing holds the pointer against.
pub open spec fn free_press(ctx: ButtonContext) -> ButtonOutcome {
    if ctx.layer is Some {
        ButtonOutcome { focus: layer_focus(ctx.layer->0), ..handed_on() }
    } else if ctx.exclusive_layer {
        handed_on()
    } else if super_grab(ctx) is Some {
        drag(ctx.window->0, super_grab(ctx)->0)
    } else if edge_grab(ctx) is Some {
        drag(ctx.window->0, edge_grab(ctx)->0)
    } else if ctx.window is None && ctx.button == BTN_LEFT && ctx.on_split {
        ButtonOutcome {
            raise: None,
            focus: FocusChange::Keep,
            grab: Some(Grab::TileResize),
            forward: false,
        }
    } else {
        plain_click(ctx.window)
    }
}

/// What a button does. While the session is locked, and on a release, it is only
/// handed on. A press while a popup holds the pointer moves the focus, but starts
/// nothing; one while anything else holds it is handed on.
pub open spec fn button_outcome(ctx: ButtonContext) -> ButtonOutcome {
    if ctx.session_locked || !ctx.pressed {
        handed_on()
    } else if !ctx.grabbed {
        free_press(ctx)
    } else if !ctx.popup_grab {
        handed_on()
    } else if ctx.layer is Some {
        ButtonOutcome { focus: layer_focus(ctx.layer->0), ..handed_on() }
    } else if ctx.exclusive_layer {
        handed_on()
    } else {
        plain_click(ctx.window)
    }
}

fn click(window: Option<WindowUnder>) -> (r: ButtonOutcome)
    ensures
        r == plain_click(window),
{
    match window {
        Some(w) => ButtonOutcome {
            raise: if w.tiled {
                None
            } else {
                Some(w.surface)
            },
            focus: FocusChange::Window(w.surface),
            grab: None,
            forward: true,
        },
        None => ButtonOutcome { raise: None, focus: FocusChange::Clear, grab: None, forward: true },
    }
}

fn begin_drag(w: &WindowUnder, grab: Grab) -> (r: ButtonOutcome)
    ensures
        r == drag(*w, grab),
{
    ButtonOutcome {
        raise: if w.tiled {
            None
        } else {
            Some(w.surface)
        },
        focus: FocusChange::Window(w.surface),
        grab: Some(grab),
        forward: false,
    }
}

/// Decides what a pointer button does.
pub fn process_button(ctx: &ButtonContext) -> (r: ButtonOutcome)
    ensures
        r == button_outcome(*ctx),
{
    let only_forward = ButtonOutcome {
        raise: None,
        focus: FocusChange::Keep,
        grab: None,
        forward: true,
    };
    if ctx.session_locked || !ctx.pressed {
        return only_forward;
    }
    if ctx.grabbed && !ctx.popup_grab {
        return only_forward;
    }
    if let Some(layer) = ctx.layer {
        if layer.interactive {
            return ButtonOutcome {
                raise: None,
                focus: FocusChange::Layer(layer.surface),
                grab: None,
                forward: true,
            };
        }
        return only_forward;
    }
    if ctx.exclusive_layer {
        return only_forward;
    }
    if ctx.grabbed {
        return click(ctx.window);
    }
    let left = ctx.button == BTN_LEFT;
    let right = ctx.button == BTN_RIGHT;
    let super_drag = ctx.logo && (left || right);
    if let Some(w) = ctx.window {
        let owned = w.fullscreen || w.maximized;
        if super_drag && !owned {
            if !w.tiled {
                if left {
                    return begin_drag(&w, Grab::Move);
                }
                return begin_drag(
                    &w,
                    Grab::Resize(
                        ResizeEdge { left: false, right: true, top: false, bottom: true },
                    ),
                );
            }
            if left && w.has_tile {
                return begin_drag(&w, Grab::TileMove);
            }
            if right && w.has_resize_splits {
                return begin_drag(&w, Grab::TileWindowResize);
            }
        }
        if !super_drag && left && !w.tiled && !owned {
            if let Some(edge) = floating_resize_edge(w.rect, ctx.point, edge_threshold(ctx.gaps)) {
                return begin_drag(&w, Grab::Resize(edge));
            }
        }
    } else if left && ctx.on_split {
        return ButtonOutcome {
            raise: None,
            focus: FocusChange::Keep,
            grab: Some(Grab::TileResize),
            forward: false,
        };
    }
    click(ctx.window)
}

/// While the session is locked a button is handed on and does nothing else.
pub proof fn law_locked_buttons_do_nothing(ctx: ButtonContext)
    requires
        ctx.session_locked,
    ensures
        button_outcome(ctx) == handed_on(),
{
}

/// A window that takes all of its output is never dragged or resized.
pub proof fn law_output_owned_windows_stay(ctx: ButtonContext)
    requires
        ctx.window is Some,
        output_owned(ctx.window->0),
    ensures
        button_outcome(ctx).grab is None,
{
}

/// A button that begins a drag is not seen by the client; every other one is.
pub proof fn law_a_drag_keeps_the_button(ctx: ButtonContext)
    ensures
        button_outcome(ctx).forward <==> button_outcome(ctx).grab is None,
{
}

/// A tiled window is never raised.
pub proof fn law_tiled_windows_are_not_raised(ctx: ButtonContext)
    requires
        ctx.window is Some,
        (ctx.window->0).tiled,
    ensures
        button_outcome(ctx).raise is None,
{
}

/// The steps of a wheel, of which a notch has 120.
#[derive(Clone, Copy, Debug, PartialEq, Eq, Structural)]
pub struct WheelSteps {
    /// They come to nothing at all, not even to a fraction of a step.
    pub zero: bool,
    /// The whole steps, without the fraction.
    pub whole: i32,
}

/// One axis of a scroll event: whether an amount is given and whether it is zero,
/// and the wheel's own steps where there are any.
#[derive(Clone, Copy, Debug, PartialEq, Eq, Structural)]
pub struct AxisSample {
    /// The amount is given; it is zero where this says so.
    pub amount_is_zero: Option<bool>,
    pub v120: Option<WheelSteps>,
}

/// What is handed on of one axis.
#[derive(Clone, Copy, Debug, PartialEq, Eq, Structural)]
pub struct AxisPart {
    /// The amount is handed on; without one, the steps times fifteen by 120.
    pub value: bool,
    pub v120: Option<i32>,
    /// The finger has left the pad.
    pub stop: bool,
}

/// Decides what is handed on of one axis: nothing where it did not move; a stop
/// where a finger reports that it did not.
pub fn axis_part(sample: AxisSample, finger: bool) -> (r: AxisPart)
    ensures
        r.value == match sample.amount_is_zero {
            Some(zero) => !zero,
            None => sample.v120 is Some && !(sample.v120->0).zero,
        },
        r.v120 == if r.value && sample.v120 is Some {
            Some((sample.v120->0).whole)
        } else {
            None
        },
        r.stop == (finger && sample.amount_is_zero == Some(true)),
{
    let value = match sample.amount_is_zero {
        Some(zero) => !zero,
        None => match sample.v120 {
            Some(steps) => !steps.zero,
            None => false,
        },
    };
    let stop = match sample.amount_is_zero {
        Some(zero) => finger && zero,
        None => false,
    };
    AxisPart {
        value,
        v120: match sample.v120 {
            Some(steps) => if value {
                Some(steps.whole)
            } else {
                None
            },
            None => None,
        },
        stop,
    }
}

/// A switch of a portable machine.
#[derive(Clone, Copy, Debug, PartialEq, Eq, Structural)]
pub enum Switch {
    Lid,
    TabletMode,
}

/// Something that an action can be bound to.
#[derive(Clone, Copy, Debug, PartialEq, Eq, Structural)]
pub enum SwitchChange {
    LidClose,
    LidOpen,
    TabletModeOn,
    TabletModeOff,
}

/// How the switches stand.
#[derive(Clone, Copy, Debug, PartialEq, Eq, Structural)]
pub struct Switches {
    pub is_lid_closed: bool,
    pub is_tablet_mode: bool,
}

impl Switches {
    /// How one switch stands.
    pub open spec fn stands(&self, switch: Switch) -> bool {
        match switch {
            Switch::Lid => self.is_lid_closed,
            Switch::TabletMode => self.is_tablet_mode,
        }
    }

    /// Takes in a report of a switch. Only one that differs from how the switch
    /// stood is a change.
    pub fn toggle(&mut self, switch: Switch, on: bool) -> (r: Option<SwitchChange>)
        ensures
            *final(self) == match switch {
                Switch::Lid => (Switches { is_lid_closed: on, ..*old(self) }),
                Switch::TabletMode => (Switches { is_tablet_mode: on, ..*old(self) }),
            },
            r == if old(self).stands(switch) == on {
                None
            } else {
                Some(
                    match (switch, on) {
                        (Switch::Lid, true) => SwitchChange::LidClose,
                        (Switch::Lid, false) => SwitchChange::LidOpen,
                        (Switch::TabletMode, true) => SwitchChange::TabletModeOn,
                        (Switch::TabletMode, false) => SwitchChange::TabletModeOff,
                    },
                )
            },
    {
        match switch {
            Switch::Lid => {
                let before = self.is_lid_closed;
                self.is_lid_closed = on;
                if before == on {
                    None
                } else if on {
                    Some(SwitchChange::LidClose)
                } else {
                    Some(SwitchChange::LidOpen)
                }
            },
            Switch::TabletMode => {
                let before = self.is_tablet_mode;
                self.is_tablet_mode = on;
                if before == on {
                    None
                } else if on {
                    Some(SwitchChange::TabletModeOn)
                } else {
                    Some(SwitchChange::TabletModeOff)
                }
            },
        }
    }
}

} // verus!
