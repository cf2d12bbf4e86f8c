//! Presentation hints: whether a surface may be shown with tearing.

use vstd::prelude::*;

verus! {

/// How a surface would like to be presented.
#[derive(Clone, Copy, Debug, PartialEq, Eq, Structural)]
pub enum PresentationHint {
    Vsync,
    Async,
}

/// The hint of a surface, one copy pending and one in force.
#[derive(Clone, Copy, Debug, PartialEq, Eq, Structural)]
pub struct TearingSurfaceCachedState {
    pub hint: PresentationHint,
}

impl Default for TearingSurfaceCachedState {
    fn default() -> (r: Self)
        ensures
            r.hint == PresentationHint::Vsync,
    {
        TearingSurfaceCachedState { hint: PresentationHint::Vsync }
    }
}

impl TearingSurfaceCachedState {
    /// The hint in force.
    pub fn hint(&self) -> (r: PresentationHint)
        ensures
            r == self.hint,
    {
        self.hint
    }

    /// The state a commit hands on: the pending one, which stays as it is.
    pub fn commit(&mut self) -> (r: Self)
        ensures
            r == *old(self),
            *final(self) == *old(self),
    {
        *self
    }

    /// Puts the state in force.
    pub fn merge_into(self, into: &mut Self)
        ensures
            *final(into) == self,
    {
        *into = self;
    }
}

/// Whether a surface has a tearing-control object.
#[derive(Clone, Copy, Debug, PartialEq, Eq, Structural)]
pub struct TearingSurfaceData {
    pub attached: bool,
}

impl Default for TearingSurfaceData {
    fn default() -> (r: Self)
        ensures
            !r.attached,
    {
        TearingSurfaceData { attached: false }
    }
}

impl TearingSurfaceData {
    pub fn attached(&self) -> (r: bool)
        ensures
            r == self.attached,
    {
        self.attached
    }

    pub fn set_attached(&mut self, value: bool)
        ensures
            final(self).attached == value,
    {
        self.attached = value;
    }
}

/// Why a tearing-control object is refused.
#[derive(Clone, Copy, Debug, PartialEq, Eq, Structural)]
pub enum TearingError {
    /// The surface has one already.
    TearingControlExists,
}

/// A surface, as far as tearing is concerned.
#[derive(Clone, Copy, Debug, PartialEq, Eq, Structural)]
pub struct TearingSurface {
    pub data: TearingSurfaceData,
    pub pending: TearingSurfaceCachedState,
    pub current: TearingSurfaceCachedState,
}

impl TearingSurface {
    pub fn new() -> (r: Self)
        ensures
            !r.data.attached,
            r.pending.hint == PresentationHint::Vsync,
            r.current.hint == PresentationHint::Vsync,
    {
        TearingSurface {
            data: TearingSurfaceData { attached: false },
            pending: TearingSurfaceCachedState { hint: PresentationHint::Vsync },
            current: TearingSurfaceCachedState { hint: PresentationHint::Vsync },
        }
    }

    /// Gives the surface its tearing-control object; refused where it has one.
    pub fn get_tearing_control(&mut self) -> (r: Result<(), TearingError>)
        ensures
            r is Err <==> old(self).data.attached,
            final(self).data.attached,
            final(self).pending == old(self).pending,
            final(self).current == old(self).current,
    {
        if self.data.attached() {
            return Err(TearingError::TearingControlExists);
        }
        self.data.set_attached(true);
        Ok(())
    }

    /// Records a hint, to take effect with the next commit. A value outside the
    /// protocol's enumeration is ignored.
    pub fn set_presentation_hint(&mut self, hint: Option<PresentationHint>)
        ensures
            *final(self) == match hint {
                Some(h) => (TearingSurface {
                    pending: TearingSurfaceCachedState { hint: h },
                    ..*old(self)
                }),
                None => *old(self),
            },
    {
        if let Some(h) = hint {
            self.pending.hint = h;
        }
    }

    /// Takes the tearing-control object away again: the surface falls back to
    /// `Vsync` with its next commit, and may get another object.
    pub fn destroy_control(&mut self)
        ensures
            !final(self).data.attached,
            final(self).pending.hint == PresentationHint::Vsync,
            final(self).current == old(self).current,
    {
        self.data.set_attached(false);
        self.pending.hint = PresentationHint::Vsync;
    }

    /// A commit of the surface: what is pending takes effect.
    pub fn commit(&mut self)
        ensures
            final(self).current == old(self).pending,
            final(self).pending == old(self).pending,
            final(self).data == old(self).data,
    {
        let state = self.pending.commit();
        state.merge_into(&mut self.current);
    }
}

} // verus!
