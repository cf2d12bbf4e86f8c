//! Popups: when they show, which may hold the pointer and the keyboard, and the
//! room they have.

use vstd::prelude::*;

use crate::assoc::Assoc;
use crate::desk::Desk;
use crate::geometry::Rect;
use crate::seqs::{lemma_filter_ends, lemma_filter_step};

verus! {

/// What a commit does to a popup.
#[derive(Clone, Copy, Debug, PartialEq, Eq, Structural)]
pub enum PopupStep {
    NoChange,
    Shown,
    /// It is hidden; a grab it takes part in ends.
    Hidden,
    /// It is told its first place.
    Configure,
}

/// What a commit does to a popup: it shows with its first buffer and hides when the
/// buffer is taken away.
pub open spec fn popup_step(
    is_popup: bool,
    was_unmapped: bool,
    has_buffer: bool,
    configure_sent: bool,
) -> PopupStep {
    if !is_popup {
        PopupStep::NoChange
    } else if was_unmapped && has_buffer {
        PopupStep::Shown
    } else if !was_unmapped && !has_buffer {
        PopupStep::Hidden
    } else if was_unmapped && !configure_sent {
        PopupStep::Configure
    } else {
        PopupStep::NoChange
    }
}

/// The popups that have no buffer.
pub struct Popups {
    pub unmapped: Assoc<u64, ()>,
}

impl Popups {
    pub open spec fn wf(&self) -> bool {
        self.unmapped.wf()
    }

    pub fn new() -> (r: Self)
        ensures
            r.wf(),
            r.unmapped@ == Map::<u64, ()>::empty(),
    {
        Popups { unmapped: Assoc::new() }
    }

    /// A client makes a popup.
    pub fn new_popup(&mut self, s: u64)
        requires
            old(self).wf(),
        ensures
            final(self).wf(),
            final(self).unmapped@ == old(self).unmapped@.insert(s, ()),
    {
        self.unmapped.insert(s, ());
    }

    /// A popup is gone.
    pub fn popup_destroyed(&mut self, s: u64)
        requires
            old(self).wf(),
        ensures
            final(self).wf(),
            final(self).unmapped@ == old(self).unmapped@.remove(s),
    {
        let _ = self.unmapped.remove(&s);
    }

    /// A surface commits, of which `is_popup` says whether it is a popup of a
    /// window or a panel.
    pub fn commit(&mut self, s: u64, is_popup: bool, has_buffer: bool, configure_sent: bool) -> (r:
        PopupStep)
        requires
            old(self).wf(),
        ensures
            final(self).wf(),
            r == popup_step(
                is_popup,
                old(self).unmapped@.contains_key(s),
                has_buffer,
                configure_sent,
            ),
            final(self).unmapped@ == match r {
                PopupStep::Shown => old(self).unmapped@.remove(s),
                PopupStep::Hidden => old(self).unmapped@.insert(s, ()),
                _ => old(self).unmapped@,
            },
    {
        if !is_popup {
            return PopupStep::NoChange;
        }
        let was_unmapped: bool = self.unmapped.contains(&s);
        if was_unmapped && has_buffer {
            let _ = self.unmapped.remove(&s);
            PopupStep::Shown
        } else if !was_unmapped && !has_buffer {
            self.unmapped.insert(s, ());
            PopupStep::Hidden
        } else if was_unmapped && !has_buffer && !configure_sent {
            PopupStep::Configure
        } else {
            PopupStep::NoChange
        }
    }
}

/// Who holds a device.
#[derive(Clone, Copy, Debug, PartialEq, Eq, Structural)]
pub struct DeviceGrab {
    pub grabbed: bool,
    /// It is held under the serial of the request.
    pub by_serial: bool,
    /// It is held under the serial of the grab that the request extends.
    pub by_previous: bool,
}

/// The device is held by something that the request has no part in.
pub open spec fn held_by_another(device: DeviceGrab) -> bool {
    device.grabbed && !device.by_serial && !device.by_previous
}

/// What is answered to a popup that asks to hold the pointer.
#[derive(Clone, Copy, Debug, PartialEq, Eq, Structural)]
pub enum PopupGrabReply {
    Ignored,
    Dismissed,
    /// The grab that was begun is ended.
    Ended,
    /// The popup holds the pointer, and the keyboard where it says so.
    Granted { keyboard: bool },
}

/// What is answered to a popup that asks to hold the pointer: nothing where it hangs
/// from no surface; it is dismissed where that has no right to the focus (`policy`
/// is none); a request that is not valid is ignored; and one that conflicts with
/// another grab is ended.
pub fn popup_grab(
    has_root: bool,
    policy: Option<bool>,
    valid: bool,
    keyboard: DeviceGrab,
    pointer: DeviceGrab,
) -> (r: PopupGrabReply)
    ensures
        r == if !has_root {
            PopupGrabReply::Ignored
        } else if policy is None {
            PopupGrabReply::Dismissed
        } else if !valid {
            PopupGrabReply::Ignored
        } else if (policy->0 && held_by_another(keyboard)) || held_by_another(pointer) {
            PopupGrabReply::Ended
        } else {
            PopupGrabReply::Granted { keyboard: policy->0 }
        },
{
    if !has_root {
        return PopupGrabReply::Ignored;
    }
    match policy {
        None => PopupGrabReply::Dismissed,
        Some(has_keyboard_grab) => {
            if !valid {
                return PopupGrabReply::Ignored;
            }
            let keyboard_mismatch: bool = has_keyboard_grab && keyboard.grabbed && !(
            keyboard.by_serial || keyboard.by_previous);
            let pointer_mismatch: bool = pointer.grabbed && !(pointer.by_serial
                || pointer.by_previous);
            if keyboard_mismatch || pointer_mismatch {
                PopupGrabReply::Ended
            } else {
                PopupGrabReply::Granted { keyboard: has_keyboard_grab }
            }
        },
    }
}

/// A panel surface, on its output, at a place relative to the output.
#[derive(Clone, Copy, Debug)]
pub struct LayerPlace {
    pub surface: u64,
    pub output: u64,
    pub rect: Option<Rect>,
}

/// The first place of a panel that shows `root`: its output, and its corner on the
/// whole desktop.
pub open spec fn layer_corner(desk: Desk, layers: Seq<LayerPlace>, root: u64) -> Option<
    (u64, int, int),
>
    decreases layers.len(),
{
    if layers.len() == 0 {
        None
    } else {
        let layer = layers[0];
        let output = desk.facts.geometry_of(layer.output);
        if layer.surface == root && layer.rect is Some && output is Some {
            Some(
                (
                    layer.output,
                    (layer.rect->0).x + (output->0).x,
                    (layer.rect->0).y + (output->0).y,
                ),
            )
        } else {
            layer_corner(desk, layers.skip(1), root)
        }
    }
}

/// The output and the corner of the surface that a popup hangs from: a window that
/// is seen, else a panel.
pub open spec fn root_corner(desk: Desk, layers: Seq<LayerPlace>, root: u64) -> Option<
    (u64, int, int),
> {
    if desk.facts.visible@.contains_key(root) {
        let w = desk.facts.visible@[root];
        match w.output {
            Some(output) => Some((output, w.rect.x as int, w.rect.y as int)),
            None => None,
        }
    } else {
        layer_corner(desk, layers, root)
    }
}

/// The room of a popup, with its corner: the output it is on, seen from the surface
/// it hangs from and from its place there.
pub open spec fn popup_room(
    desk: Desk,
    layers: Seq<LayerPlace>,
    root: u64,
    offset: (i32, i32),
) -> Option<(int, int, i32, i32)> {
    match root_corner(desk, layers, root) {
        Some((output, x, y)) => match desk.facts.geometry_of(output) {
            Some(area) => Some((area.x - offset.0 - x, area.y - offset.1 - y, area.w, area.h)),
            None => None,
        },
        None => None,
    }
}

/// The room that a popup is fitted into, relative to the surface it hangs from.
pub fn unconstrain_popup(
    desk: &Desk,
    layers: &Vec<LayerPlace>,
    root: u64,
    offset: (i32, i32),
) -> (r: Option<Rect>)
    requires
        desk.wf(),
        match popup_room(*desk, layers@, root, offset) {
            Some((x, y, w, h)) => i32::MIN <= x <= i32::MAX && i32::MIN <= y <= i32::MAX,
            None => true,
        },
    ensures
        match popup_room(*desk, layers@, root, offset) {
            Some((x, y, w, h)) => r is Some && (r->0).x == x && (r->0).y == y && (r->0).w == w && (
            r->0).h == h,
            None => r is None,
        },
{
    let corner: Option<(u64, i64, i64)> = match desk.facts.visible.get(&root) {
        Some(w) => match w.output {
            Some(output) => Some((output, w.rect.x as i64, w.rect.y as i64)),
            None => None,
        },
        None => find_layer(desk, layers, root),
    };
    match corner {
        Some((output, x, y)) => match desk.facts.find_output(output) {
            Some(i) => match desk.facts.outputs[i].geometry {
                Some(area) => Some(
                    Rect {
                        x: (area.x as i64 - offset.0 as i64 - x) as i32,
                        y: (area.y as i64 - offset.1 as i64 - y) as i32,
                        w: area.w,
                        h: area.h,
                    },
                ),
                None => None,
            },
            None => None,
        },
        None => None,
    }
}

fn find_layer(desk: &Desk, layers: &Vec<LayerPlace>, root: u64) -> (r: Option<(u64, i64, i64)>)
    requires
        desk.wf(),
    ensures
        match layer_corner(*desk, layers@, root) {
            Some((output, x, y)) => r is Some && (r->0).0 == output && (r->0).1 == x && (r->0).2
                == y && -0x1_0000_0000 <= x <= 0x1_0000_0000 && -0x1_0000_0000 <= y <= 0x1_0000_0000,
            None => r is None,
        },
{
    let mut i: usize = 0;
    assert(layers@.skip(0) =~= layers@);
    while i < layers.len()
        invariant
            desk.wf(),
            i <= layers@.len(),
            layer_corner(*desk, layers@, root) == layer_corner(*desk, layers@.skip(i as int), root),
        decreases layers@.len() - i,
    {
        assert(layers@.skip(i as int)[0] == layers@[i as int]);
        assert(layers@.skip(i as int).skip(1) =~= layers@.skip(i + 1));
        let layer: LayerPlace = layers[i];
        if layer.surface == root {
            if let Some(rect) = layer.rect {
                if let Some(k) = desk.facts.find_output(layer.output) {
                    if let Some(area) = desk.facts.outputs[k].geometry {
                        return Some(
                            (
                                layer.output,
                                rect.x as i64 + area.x as i64,
                                rect.y as i64 + area.y as i64,
                            ),
                        );
                    }
                }
            }
        }
        i += 1;
    }
    None
}

/// A popup that hangs from a window.
#[derive(Clone, Copy, Debug, PartialEq, Eq, Structural)]
pub struct HangingPopup {
    pub surface: u64,
    /// It is placed by a positioner, as opposed to an input method.
    pub positioned: bool,
    /// It wants to be placed anew where its surroundings change.
    pub reactive: bool,
}

/// It is placed anew where its surroundings change.
pub open spec fn reacts() -> spec_fn(HangingPopup) -> bool {
    |p: HangingPopup| p.positioned && p.reactive
}

/// The popups that are placed anew when the window that they hang from was committed.
pub fn update_reactive_popups(popups: &Vec<HangingPopup>) -> (r: Vec<HangingPopup>)
    ensures
        r@ == popups@.filter(reacts()),
{
    let mut out: Vec<HangingPopup> = Vec::new();
    let mut i: usize = 0;
    proof {
        lemma_filter_ends(popups@, reacts());
    }
    while i < popups.len()
        invariant
            i <= popups@.len(),
            out@ == popups@.take(i as int).filter(reacts()),
        decreases popups@.len() - i,
    {
        proof {
            lemma_filter_step(popups@, i as int, reacts());
        }
        if popups[i].positioned && popups[i].reactive {
            out.push(popups[i]);
        }
        i += 1;
    }
    out
}

} // verus!
