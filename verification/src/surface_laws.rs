//! What holds of popups, of layer surfaces, and of what is copied off an output.

use vstd::prelude::*;

use crate::desk::Desk;
use crate::geometry::Rect;
use crate::layer_shell::{
    demanding, demanding_on, layer_commit, stacked, KeyboardInteractivity, Layer, LayerFocus,
    LayerTransition, StackedLayer,
};
use crate::output_configuration::Transform;
use crate::popups::{
    held_by_another, layer_corner, popup_room, popup_step, reacts, root_corner, DeviceGrab,
    HangingPopup, LayerPlace, PopupStep,
};
use crate::screencopy::{
    copy_reply, is_part, overlaps, upright, CopyReply, FrameBuffer, PixelFormat,
};

verus! {

/// A popup shows with its first buffer and hides when it has none; until it was told its
/// size, it is told.
pub proof fn law_popups_follow_their_buffers(
    was_unmapped: bool,
    has_buffer: bool,
    configure_sent: bool,
)
    ensures
        popup_step(true, was_unmapped, has_buffer, configure_sent) == PopupStep::Shown
            <==> was_unmapped && has_buffer,
        popup_step(true, was_unmapped, has_buffer, configure_sent) == PopupStep::Hidden
            <==> !was_unmapped && !has_buffer,
        popup_step(true, was_unmapped, has_buffer, configure_sent) == PopupStep::Configure
            <==> was_unmapped && !has_buffer && !configure_sent,
        popup_step(false, was_unmapped, has_buffer, configure_sent) == PopupStep::NoChange,
{
}

/// A device that nothing has grabbed is free, and so is one whose grab the popup's own
/// request, or the popup before it, holds.
pub proof fn law_only_foreign_grabs_stand_in_the_way(device: DeviceGrab)
    ensures
        !device.grabbed ==> !held_by_another(device),
        device.by_serial ==> !held_by_another(device),
        device.by_previous ==> !held_by_another(device),
        device.grabbed && !device.by_serial && !device.by_previous ==> held_by_another(device),
{
}

proof fn lemma_layer_corner(desk: Desk, layers: Seq<LayerPlace>, root: u64, i: int)
    requires
        0 <= i < layers.len(),
        layers[i].surface == root,
        layers[i].rect is Some,
        desk.facts.geometry_of(layers[i].output) is Some,
        forall|j: int| 0 <= j < i ==> (#[trigger] layers[j]).surface != root,
    ensures
        layer_corner(desk, layers, root) == Some(
            (
                layers[i].output,
                (layers[i].rect->0).x + (desk.facts.geometry_of(layers[i].output)->0).x,
                (layers[i].rect->0).y + (desk.facts.geometry_of(layers[i].output)->0).y,
            ),
        ),
    decreases layers.len(),
{
    if i > 0 {
        assert(layers[0].surface != root);
        let rest = layers.skip(1);
        assert(rest[i - 1] == layers[i]);
        assert forall|j: int| 0 <= j < i - 1 implies (#[trigger] rest[j]).surface != root by {
            assert(rest[j] == layers[j + 1]);
        }
        lemma_layer_corner(desk, rest, root, i - 1);
    }
}

proof fn lemma_no_layer_corner(desk: Desk, layers: Seq<LayerPlace>, root: u64)
    requires
        forall|j: int| 0 <= j < layers.len() ==> (#[trigger] layers[j]).surface != root,
    ensures
        layer_corner(desk, layers, root) is None,
    decreases layers.len(),
{
    if layers.len() > 0 {
        assert(layers[0].surface != root);
        let rest = layers.skip(1);
        assert forall|j: int| 0 <= j < rest.len() implies (#[trigger] rest[j]).surface != root by {
            assert(rest[j] == layers[j + 1]);
        }
        lemma_no_layer_corner(desk, rest, root);
    }
}

/// A popup of a window may stay anywhere on the output of the window. The room is given
/// as seen from where the popup hangs: moved there, it is the output again.
pub proof fn law_a_popup_of_a_window_has_the_output(
    desk: Desk,
    layers: Seq<LayerPlace>,
    root: u64,
    offset: (i32, i32),
    output: u64,
)
    requires
        desk.facts.visible@.contains_key(root),
        desk.facts.visible@[root].output == Some(output),
        desk.facts.geometry_of(output) is Some,
    ensures
        ({
            let window = desk.facts.visible@[root].rect;
            let area = desk.facts.geometry_of(output)->0;
            let room = popup_room(desk, layers, root, offset);
            &&& room is Some
            &&& (room->0).0 + offset.0 + window.x == area.x
            &&& (room->0).1 + offset.1 + window.y == area.y
            &&& (room->0).2 == area.w
            &&& (room->0).3 == area.h
        }),
{
}

/// A popup of a layer surface may stay anywhere on the output of the layer surface, whose
/// place counts from the corner of the output.
pub proof fn law_a_popup_of_a_layer_has_the_output(
    desk: Desk,
    layers: Seq<LayerPlace>,
    root: u64,
    offset: (i32, i32),
    i: int,
)
    requires
        !desk.facts.visible@.contains_key(root),
        0 <= i < layers.len(),
        layers[i].surface == root,
        layers[i].rect is Some,
        desk.facts.geometry_of(layers[i].output) is Some,
        forall|j: int| 0 <= j < i ==> (#[trigger] layers[j]).surface != root,
    ensures
        ({
            let layer = layers[i].rect->0;
            let area = desk.facts.geometry_of(layers[i].output)->0;
            let room = popup_room(desk, layers, root, offset);
            &&& room is Some
            &&& (room->0).0 + offset.0 + layer.x == 0
            &&& (room->0).1 + offset.1 + layer.y == 0
            &&& (room->0).2 == area.w
            &&& (room->0).3 == area.h
        }),
{
    lemma_layer_corner(desk, layers, root, i);
}

/// A popup that hangs from nothing that is seen has no room.
pub proof fn law_a_popup_of_nothing_has_no_room(
    desk: Desk,
    layers: Seq<LayerPlace>,
    root: u64,
    offset: (i32, i32),
)
    requires
        !desk.facts.visible@.contains_key(root) || desk.facts.visible@[root].output is None,
        forall|j: int| 0 <= j < layers.len() ==> (#[trigger] layers[j]).surface != root,
    ensures
        popup_room(desk, layers, root, offset) is None,
        root_corner(desk, layers, root) is None,
{
    lemma_no_layer_corner(desk, layers, root);
}

/// The popups that follow their window are those that have a place and asked for it.
pub proof fn law_popups_follow_only_when_asked(p: HangingPopup)
    ensures
        reacts()(p) <==> p.positioned && p.reactive,
{
}

/// A layer surface shows with its first buffer and hides when it has none. It is told its
/// size before its first buffer, once.
pub proof fn law_layers_follow_their_buffers(
    unmapped: bool,
    has_buffer: bool,
    sent: bool,
    interactivity: KeyboardInteractivity,
)
    ensures
        ({
            let commit = layer_commit(unmapped, has_buffer, sent, interactivity);
            &&& commit is Committed
            &&& commit->transition == LayerTransition::ToMapped <==> unmapped && has_buffer
            &&& commit->transition == LayerTransition::ToUnmapped <==> !unmapped && !has_buffer
            &&& commit->send_configure <==> unmapped && !has_buffer && !sent
        }),
{
}

/// A layer surface takes the keys when it shows, unless it wants none, and gives them up
/// when it hides; any other commit leaves it to the stack who has them.
pub proof fn law_layers_take_and_release_the_keys(
    unmapped: bool,
    has_buffer: bool,
    sent: bool,
    interactivity: KeyboardInteractivity,
)
    ensures
        ({
            let focus = layer_commit(unmapped, has_buffer, sent, interactivity)->focus;
            &&& focus == LayerFocus::Take <==> unmapped && has_buffer && (interactivity is Exclusive
                || interactivity is OnDemand)
            &&& focus == LayerFocus::Release <==> !unmapped && !has_buffer
        }),
{
}

proof fn lemma_demanding_on(stack: Seq<StackedLayer>, layer: Layer)
    ensures
        demanding_on(stack, layer) is Some ==> exists|i: int|
            0 <= i < stack.len() && (#[trigger] stack[i]).surface == demanding_on(stack, layer)->0
                && stack[i].layer == layer && stack[i].mapped && stack[i].interactivity
                == KeyboardInteractivity::Exclusive && forall|j: int|
                i < j < stack.len() ==> !((#[trigger] stack[j]).layer == layer && stack[j].mapped
                    && stack[j].interactivity == KeyboardInteractivity::Exclusive),
        demanding_on(stack, layer) is None ==> forall|j: int|
            0 <= j < stack.len() ==> !((#[trigger] stack[j]).layer == layer && stack[j].mapped
                && stack[j].interactivity == KeyboardInteractivity::Exclusive),
    decreases stack.len(),
{
    if stack.len() > 0 {
        let rest = stack.drop_last();
        let n = stack.len() - 1;
        let top = stack[n];
        if top.layer == layer && top.mapped && top.interactivity
            == KeyboardInteractivity::Exclusive {
            assert(demanding_on(stack, layer) == Some(stack[n].surface));
        } else {
            lemma_demanding_on(rest, layer);
            assert(demanding_on(stack, layer) == demanding_on(rest, layer));
            if demanding_on(rest, layer) is Some {
                let i = choose|i: int|
                    0 <= i < rest.len() && (#[trigger] rest[i]).surface == demanding_on(
                        rest,
                        layer,
                    )->0 && rest[i].layer == layer && rest[i].mapped && rest[i].interactivity
                        == KeyboardInteractivity::Exclusive && forall|j: int|
                        i < j < rest.len() ==> !((#[trigger] rest[j]).layer == layer
                            && rest[j].mapped && rest[j].interactivity
                            == KeyboardInteractivity::Exclusive);
                assert(stack[i] == rest[i]);
                assert forall|j: int| i < j < stack.len() implies !((#[trigger] stack[j]).layer
                    == layer && stack[j].mapped && stack[j].interactivity
                    == KeyboardInteractivity::Exclusive) by {
                    if j < n {
                        assert(rest[j] == stack[j]);
                    }
                }
            } else {
                assert forall|j: int| 0 <= j < stack.len() implies !((#[trigger] stack[j]).layer
                    == layer && stack[j].mapped && stack[j].interactivity
                    == KeyboardInteractivity::Exclusive) by {
                    if j < n {
                        assert(rest[j] == stack[j]);
                    }
                }
            }
        }
    }
}

/// Of the surfaces on a layer of an output, the topmost that is shown and wants all keys
/// has them; where none does, none has.
pub proof fn law_the_topmost_demand_is_met(stack: Seq<StackedLayer>, layer: Layer)
    ensures
        demanding_on(stack, layer) is Some ==> exists|i: int|
            0 <= i < stack.len() && (#[trigger] stack[i]).surface == demanding_on(stack, layer)->0
                && stack[i].layer == layer && stack[i].mapped && stack[i].interactivity
                == KeyboardInteractivity::Exclusive && forall|j: int|
                i < j < stack.len() ==> !((#[trigger] stack[j]).layer == layer && stack[j].mapped
                    && stack[j].interactivity == KeyboardInteractivity::Exclusive),
        demanding_on(stack, layer) is None ==> forall|j: int|
            0 <= j < stack.len() ==> !((#[trigger] stack[j]).layer == layer && stack[j].mapped
                && stack[j].interactivity == KeyboardInteractivity::Exclusive),
{
    lemma_demanding_on(stack, layer);
}

/// Of the outputs, the first on which a layer is demanding decides.
pub proof fn law_the_first_demanding_output_decides(
    outputs: Seq<Vec<StackedLayer>>,
    layer: Layer,
    i: int,
)
    requires
        0 <= i < outputs.len(),
        demanding_on(outputs[i]@, layer) is Some,
        forall|j: int| 0 <= j < i ==> demanding_on((#[trigger] outputs[j])@, layer) is None,
    ensures
        demanding(outputs, layer) == demanding_on(outputs[i]@, layer),
    decreases outputs.len(),
{
    if i > 0 {
        assert(demanding_on(outputs[0]@, layer) is None);
        let rest = outputs.skip(1);
        assert(rest[i - 1] == outputs[i]);
        assert forall|j: int| 0 <= j < i - 1 implies demanding_on((#[trigger] rest[j])@, layer)
            is None by {
            assert(rest[j] == outputs[j + 1]);
        }
        law_the_first_demanding_output_decides(rest, layer, i - 1);
    }
}

/// Where no output has a demanding surface on a layer, nothing on the layer is demanding.
pub proof fn law_no_demand_on_any_output_is_no_demand(
    outputs: Seq<Vec<StackedLayer>>,
    layer: Layer,
)
    requires
        forall|j: int|
            0 <= j < outputs.len() ==> demanding_on((#[trigger] outputs[j])@, layer) is None,
    ensures
        demanding(outputs, layer) is None,
    decreases outputs.len(),
{
    if outputs.len() > 0 {
        assert(demanding_on(outputs[0]@, layer) is None);
        let rest = outputs.skip(1);
        assert forall|j: int| 0 <= j < rest.len() implies demanding_on((#[trigger] rest[j])@, layer)
            is None by {
            assert(rest[j] == outputs[j + 1]);
        }
        law_no_demand_on_any_output_is_no_demand(rest, layer);
    }
}

/// A surface is on a stack where some place of the stack is its own.
pub proof fn law_stacked_surfaces_have_a_place(stack: Seq<StackedLayer>, i: int, surface: u64)
    ensures
        0 <= i < stack.len() && stack[i].surface == surface ==> stacked(stack, surface),
        (forall|j: int| 0 <= j < stack.len() ==> (#[trigger] stack[j]).surface != surface)
            ==> !stacked(stack, surface),
{
}

/// An output that is turned by a quarter is as wide as its mode is high and as high as
/// its mode is wide; any other has the size of its mode.
pub proof fn law_turned_outputs_swap_their_sides(w: i32, h: i32, transform: Transform)
    ensures
        transform is Rotated90 || transform is Rotated270 || transform is Flipped90
            || transform is Flipped270 ==> upright(Some((w, h)), transform) == Some((h, w)),
        transform is Normal || transform is Rotated180 || transform is Flipped
            || transform is Flipped180 ==> upright(Some((w, h)), transform) == Some((w, h)),
        upright(None, transform) is None,
{
}

/// There is a part to copy exactly where the region has a pixel on the output.
pub proof fn law_a_part_is_copied_where_the_region_meets_the_output(size: (i32, i32), region: Rect)
    requires
        region.w >= 0,
        region.h >= 0,
    ensures
        overlaps(size, region) <==> exists|x: int, y: int|
            0 <= x < size.0 && 0 <= y < size.1 && #[trigger] region.covers(x, y),
{
    if overlaps(size, region) {
        let x = if region.x > 0 {
            region.x as int
        } else {
            0
        };
        let y = if region.y > 0 {
            region.y as int
        } else {
            0
        };
        assert(region.covers(x, y));
    }
    if exists|x: int, y: int| 0 <= x < size.0 && 0 <= y < size.1 && #[trigger] region.covers(x, y) {
        let (x, y) = choose|x: int, y: int|
            0 <= x < size.0 && 0 <= y < size.1 && #[trigger] region.covers(x, y);
        assert(region.x <= x < region.x + region.w);
    }
}

/// What is copied of an output holds exactly the pixels of the region that are on the
/// output.
pub proof fn law_a_copy_holds_the_pixels_in_both(
    part: Rect,
    size: (i32, i32),
    region: Rect,
    x: int,
    y: int,
)
    requires
        is_part(part, size, region),
    ensures
        part.covers(x, y) <==> region.covers(x, y) && 0 <= x < size.0 && 0 <= y < size.1,
{
    assert(crate::screencopy::pixel_in(x, y, part) <==> crate::screencopy::pixel_in(x, y, region)
        && 0 <= x < size.0 && 0 <= y < size.1);
}

/// A frame is drawn right into graphics memory only where it is the whole output in the
/// right format, and nothing is left out of it.
pub proof fn law_only_whole_outputs_are_drawn(
    output: u64,
    rect: Rect,
    cursor: bool,
    damage: bool,
    width: i32,
    height: i32,
    format: PixelFormat,
    full: Option<(i32, i32)>,
    graphics_memory: bool,
    excluded_layers: bool,
)
    ensures
        ({
            let r = copy_reply(
                Some((output, rect)),
                cursor,
                damage,
                FrameBuffer::GraphicsMemory { width, height, format },
                full,
                graphics_memory,
                excluded_layers,
            );
            let whole = full == Some((width, height)) && rect.x == 0 && rect.y == 0 && rect.w
                == width && rect.h == height;
            let right = format is Argb8888 || format is Xrgb8888;
            &&& r == (CopyReply::Draw { output, cursor, damage }) <==> whole && right
                && graphics_memory && !excluded_layers
            &&& !(whole && right && graphics_memory && !excluded_layers) ==> r is Failed
        }),
{
}

/// A frame is written to shared memory where the buffer is at least as wide and as high
/// and has the right format, with the cursor where it was asked for.
pub proof fn law_frames_are_written_where_they_fit(
    output: u64,
    rect: Rect,
    cursor: bool,
    damage: bool,
    width: i32,
    height: i32,
    format: PixelFormat,
    full: Option<(i32, i32)>,
    graphics_memory: bool,
    excluded_layers: bool,
)
    ensures
        ({
            let r = copy_reply(
                Some((output, rect)),
                cursor,
                damage,
                FrameBuffer::SharedMemory { width, height, format },
                full,
                graphics_memory,
                excluded_layers,
            );
            let fits = rect.w <= width && rect.h <= height && (format is Argb8888
                || format is Xrgb8888);
            &&& fits ==> r == (CopyReply::Write { output, rect, cursor, damage })
            &&& !fits ==> r is Failed
        }),
{
}

/// Without anything to copy, and into any other kind of buffer, copying fails.
pub proof fn law_nothing_else_is_copied(
    capture: Option<(u64, Rect)>,
    cursor: bool,
    damage: bool,
    buffer: FrameBuffer,
    full: Option<(i32, i32)>,
    graphics_memory: bool,
    excluded_layers: bool,
)
    requires
        capture is None || buffer is Other,
    ensures
        copy_reply(capture, cursor, damage, buffer, full, graphics_memory, excluded_layers)
            is Failed,
{
}

} // verus!
