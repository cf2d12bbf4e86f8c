//! Layer surfaces: panels, launchers and backgrounds.

use vstd::prelude::*;

use crate::assoc::Assoc;
use crate::compositor::surface_root;

verus! {

/// Whether a layer surface has shown a buffer since it was last unmapped.
#[derive(Clone, Copy, Debug, PartialEq, Eq, Structural)]
pub enum LayerTracking {
    Unmapped,
    Mapped,
}

/// What a commit does to a layer surface.
#[derive(Clone, Copy, Debug, PartialEq, Eq, Structural)]
pub enum LayerTransition {
    NoChange,
    ToMapped,
    ToUnmapped,
}

/// Whether a layer surface wants the keyboard.
#[derive(Clone, Copy, Debug, PartialEq, Eq, Structural)]
pub enum KeyboardInteractivity {
    Refused,
    Exclusive,
    OnDemand,
}

/// How a layer surface changes with a commit: it maps with its first buffer and
/// unmaps when the buffer is taken away.
pub fn layer_lifecycle_transition(tracking: LayerTracking, has_buffer: bool) -> (r: LayerTransition)
    ensures
        r == LayerTransition::ToMapped <==> tracking == LayerTracking::Unmapped && has_buffer,
        r == LayerTransition::ToUnmapped <==> tracking == LayerTracking::Mapped && !has_buffer,
{
    match (tracking, has_buffer) {
        (LayerTracking::Unmapped, true) => LayerTransition::ToMapped,
        (LayerTracking::Mapped, false) => LayerTransition::ToUnmapped,
        _ => LayerTransition::NoChange,
    }
}

/// What happens to the keyboard focus after a layer surface was committed.
#[derive(Clone, Copy, Debug, PartialEq, Eq, Structural)]
pub enum LayerFocus {
    /// The layer surface takes it.
    Take,
    /// The layer surface loses it for good.
    Release,
    /// It is only checked against what is mapped now.
    Reconcile,
}

/// What a commit asks for.
#[derive(Clone, Copy, Debug, PartialEq, Eq, Structural)]
pub enum LayerCommit {
    /// The surface is in no layer surface's tree.
    NotALayer,
    /// The surface is below a layer surface, whose mapping it does not touch.
    Subsurface,
    /// The layer surface itself was committed.
    Committed { transition: LayerTransition, send_configure: bool, focus: LayerFocus },
}

/// The layer surfaces that have no buffer.
pub struct LayerSurfaces {
    pub unmapped: Assoc<u64, ()>,
}

/// What the commit of a layer surface's own surface asks for.
pub open spec fn layer_commit(
    unmapped: bool,
    has_buffer: bool,
    initial_configure_sent: bool,
    interactivity: KeyboardInteractivity,
) -> LayerCommit {
    LayerCommit::Committed {
        transition: if unmapped && has_buffer {
            LayerTransition::ToMapped
        } else if !unmapped && !has_buffer {
            LayerTransition::ToUnmapped
        } else {
            LayerTransition::NoChange
        },
        send_configure: unmapped && !has_buffer && !initial_configure_sent,
        focus: if unmapped && has_buffer && interactivity != KeyboardInteractivity::Refused {
            LayerFocus::Take
        } else if !unmapped && !has_buffer {
            LayerFocus::Release
        } else {
            LayerFocus::Reconcile
        },
    }
}

impl LayerSurfaces {
    pub open spec fn wf(&self) -> bool {
        self.unmapped.wf()
    }

    pub fn new() -> (r: Self)
        ensures
            r.wf(),
            r.unmapped@ == Map::<u64, ()>::empty(),
    {
        LayerSurfaces { unmapped: Assoc::new() }
    }

    /// Starts following a layer surface; it has no buffer yet.
    pub fn track(&mut self, surface: u64)
        requires
            old(self).wf(),
        ensures
            final(self).wf(),
            final(self).unmapped@ == old(self).unmapped@.insert(surface, ()),
    {
        self.unmapped.insert(surface, ());
    }

    /// Stops following a layer surface.
    pub fn forget(&mut self, surface: u64)
        requires
            old(self).wf(),
        ensures
            final(self).wf(),
            final(self).unmapped@ == old(self).unmapped@.remove(surface),
    {
        let _ = self.unmapped.remove(&surface);
    }
}

/// Handles the commit of `surface`, the root of whose tree belongs to a layer
/// surface where `root_is_layer` says so. Afterwards the layer surface counts as
/// unmapped exactly when it has no buffer.
pub fn handle_commit(
    state: &mut LayerSurfaces,
    surface: u64,
    ancestors: &Vec<u64>,
    root_is_layer: bool,
    has_buffer: bool,
    initial_configure_sent: bool,
    interactivity: KeyboardInteractivity,
) -> (r: LayerCommit)
    requires
        old(state).wf(),
    ensures
        final(state).wf(),
        r == if !root_is_layer {
            LayerCommit::NotALayer
        } else if crate::compositor::root_of(surface, ancestors@) != surface {
            LayerCommit::Subsurface
        } else {
            layer_commit(
                old(state).unmapped@.contains_key(surface),
                has_buffer,
                initial_configure_sent,
                interactivity,
            )
        },
        final(state).unmapped@ == if r is Committed {
            if has_buffer {
                old(state).unmapped@.remove(surface)
            } else {
                old(state).unmapped@.insert(surface, ())
            }
        } else {
            old(state).unmapped@
        },
{
    if !root_is_layer {
        return LayerCommit::NotALayer;
    }
    if surface_root(surface, ancestors) != surface {
        return LayerCommit::Subsurface;
    }
    let ghost before = state.unmapped@;
    let tracking = if state.unmapped.contains(&surface) {
        LayerTracking::Unmapped
    } else {
        LayerTracking::Mapped
    };
    let transition = layer_lifecycle_transition(tracking, has_buffer);
    match transition {
        LayerTransition::ToMapped => {
            state.forget(surface);
        },
        LayerTransition::ToUnmapped => {
            state.track(surface);
        },
        LayerTransition::NoChange => {
            assert(state.unmapped@ =~= if has_buffer {
                before.remove(surface)
            } else {
                before.insert(surface, ())
            });
        },
    }
    let send_configure = match tracking {
        LayerTracking::Unmapped => !has_buffer && !initial_configure_sent,
        LayerTracking::Mapped => false,
    };
    let focus = match transition {
        LayerTransition::ToMapped => match interactivity {
            KeyboardInteractivity::Refused => LayerFocus::Reconcile,
            _ => LayerFocus::Take,
        },
        LayerTransition::ToUnmapped => LayerFocus::Release,
        LayerTransition::NoChange => LayerFocus::Reconcile,
    };
    LayerCommit::Committed { transition, send_configure, focus }
}

/// A layer surface that lost its buffer maps again only with a new one: the
/// commit that follows an unmapping finds it unmapped.
pub proof fn law_unmap_precedes_map(
    has_buffer: bool,
    configured: bool,
    interactivity: KeyboardInteractivity,
)
    ensures
        layer_commit(true, has_buffer, configured, interactivity)->transition == LayerTransition::ToMapped
            <==> has_buffer,
        layer_commit(true, has_buffer, configured, interactivity)->transition
            != LayerTransition::ToUnmapped,
        layer_commit(false, has_buffer, configured, interactivity)->transition
            != LayerTransition::ToMapped,
{
}

/// Where a layer surface goes: the output it asked for if that is in use, else
/// the primary one; nowhere where there is neither, and it is then closed.
pub fn layer_output(requested: Option<u64>, mapped: &Vec<u64>, primary: Option<u64>) -> (r: Option<u64>)
    ensures
        r == if requested is Some && mapped@.contains(requested->0) {
            requested
        } else {
            primary
        },
{
    if let Some(wanted) = requested {
        let mut i: usize = 0;
        while i < mapped.len()
            invariant
                i <= mapped@.len(),
                requested == Some(wanted),
                forall|j: int| 0 <= j < i ==> mapped@[j] != wanted,
            decreases mapped@.len() - i,
        {
            if mapped[i] == wanted {
                assert(mapped@[i as int] == wanted);
                return requested;
            }
            i += 1;
        }
    }
    primary
}

/// The layer a surface is on, lowest first.
#[derive(Clone, Copy, Debug, PartialEq, Eq, Structural)]
pub enum Layer {
    Background,
    Bottom,
    Top,
    Overlay,
}

/// A layer surface as it is stacked on an output.
#[derive(Clone, Copy, Debug, PartialEq, Eq, Structural)]
pub struct StackedLayer {
    pub surface: u64,
    pub layer: Layer,
    pub mapped: bool,
    pub interactivity: KeyboardInteractivity,
}

/// The surface demands the keyboard from `layer`.
pub open spec fn demands(s: StackedLayer, layer: Layer) -> bool {
    s.layer == layer && s.mapped && s.interactivity == KeyboardInteractivity::Exclusive
}

/// The topmost surface of one output that demands the keyboard from `layer`.
pub open spec fn demanding_on(stack: Seq<StackedLayer>, layer: Layer) -> Option<u64>
    decreases stack.len(),
{
    if stack.len() == 0 {
        None
    } else if demands(stack.last(), layer) {
        Some(stack.last().surface)
    } else {
        demanding_on(stack.drop_last(), layer)
    }
}

/// The first output's topmost surface that demands the keyboard from `layer`.
pub open spec fn demanding(outputs: Seq<Vec<StackedLayer>>, layer: Layer) -> Option<u64>
    decreases outputs.len(),
{
    if outputs.len() == 0 {
        None
    } else if demanding_on(outputs[0]@, layer) is Some {
        demanding_on(outputs[0]@, layer)
    } else {
        demanding(outputs.skip(1), layer)
    }
}

fn demanding_layer(outputs: &Vec<Vec<StackedLayer>>, layer: Layer) -> (r: Option<u64>)
    ensures
        r == demanding(outputs@, layer),
{
    let mut i: usize = 0;
    assert(outputs@.skip(0) =~= outputs@);
    while i < outputs.len()
        invariant
            i <= outputs@.len(),
            demanding(outputs@.skip(i as int), layer) == demanding(outputs@, layer),
        decreases outputs@.len() - i,
    {
        let stack = &outputs[i];
        let mut j: usize = stack.len();
        assert(stack@.take(j as int) =~= stack@);
        while j > 0
            invariant
                j <= stack@.len(),
                i < outputs@.len(),
                *stack == outputs@[i as int],
                demanding_on(stack@.take(j as int), layer) == demanding_on(stack@, layer),
                demanding(outputs@.skip(i as int), layer) == demanding(outputs@, layer),
            decreases j,
        {
            assert(stack@.take(j as int).drop_last() =~= stack@.take(j - 1));
            assert(stack@.take(j as int).last() == stack@[j - 1]);
            j -= 1;
            let s = stack[j];
            if s.layer == layer && s.mapped && s.interactivity == KeyboardInteractivity::Exclusive {
                assert(outputs@.skip(i as int)[0] == outputs@[i as int]);
                return Some(s.surface);
            }
        }
        assert(demanding_on(stack@, layer) is None);
        assert(outputs@.skip(i as int)[0] == outputs@[i as int]);
        assert(outputs@.skip(i as int).skip(1) =~= outputs@.skip(i + 1));
        i += 1;
    }
    None
}

/// The layer surface that has the keyboard to itself: on the highest layer that
/// has such a surface, on the first output that has one there, the topmost. The
/// stacks list each output's surfaces from bottom to top.
pub fn exclusive_layer(outputs: &Vec<Vec<StackedLayer>>) -> (r: Option<u64>)
    ensures
        r == if demanding(outputs@, Layer::Overlay) is Some {
            demanding(outputs@, Layer::Overlay)
        } else if demanding(outputs@, Layer::Top) is Some {
            demanding(outputs@, Layer::Top)
        } else if demanding(outputs@, Layer::Bottom) is Some {
            demanding(outputs@, Layer::Bottom)
        } else {
            demanding(outputs@, Layer::Background)
        },
{
    if let Some(s) = demanding_layer(outputs, Layer::Overlay) {
        return Some(s);
    }
    if let Some(s) = demanding_layer(outputs, Layer::Top) {
        return Some(s);
    }
    if let Some(s) = demanding_layer(outputs, Layer::Bottom) {
        return Some(s);
    }
    demanding_layer(outputs, Layer::Background)
}

/// The surface is in the stack.
pub open spec fn stacked(stack: Seq<StackedLayer>, surface: u64) -> bool {
    exists|j: int| 0 <= j < stack.len() && (#[trigger] stack[j]).surface == surface
}

/// The first output that a surface is stacked on: it is taken off there when it goes.
pub fn layer_home(outputs: &Vec<Vec<StackedLayer>>, surface: u64) -> (r: Option<usize>)
    ensures
        match r {
            Some(i) => i < outputs@.len() && stacked(outputs@[i as int]@, surface) && forall|k: int|
                0 <= k < i ==> !stacked((#[trigger] outputs@[k])@, surface),
            None => forall|k: int|
                0 <= k < outputs@.len() ==> !stacked((#[trigger] outputs@[k])@, surface),
        },
{
    let mut i: usize = 0;
    while i < outputs.len()
        invariant
            i <= outputs@.len(),
            forall|k: int| 0 <= k < i ==> !stacked((#[trigger] outputs@[k])@, surface),
        decreases outputs@.len() - i,
    {
        let stack = &outputs[i];
        let mut j: usize = 0;
        while j < stack.len()
            invariant
                j <= stack@.len(),
                i < outputs@.len(),
                *stack == outputs@[i as int],
                forall|k: int| 0 <= k < j ==> (#[trigger] stack@[k]).surface != surface,
                forall|k: int| 0 <= k < i ==> !stacked((#[trigger] outputs@[k])@, surface),
            decreases stack@.len() - j,
        {
            if stack[j].surface == surface {
                assert(stacked(outputs@[i as int]@, surface));
                return Some(i);
            }
            j += 1;
        }
        i += 1;
    }
    None
}

} // verus!
