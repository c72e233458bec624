//! The press / release cycle of the glass surface.
//!
//! A press sinks the surface (the spring's target becomes the pressed depth);
//! a release lets it spring back; once it has come to rest after a release
//! the surface is idle again. The spring itself (displacement, velocity) is
//! integrated by the caller; this state decides its target and the phase.

use vstd::prelude::*;

verus! {

/// Phase of the spring deformation.
#[derive(PartialEq, Eq, Structural, Debug, Clone, Copy)]
pub enum DeformationState {
    /// No interaction.
    Idle,
    /// Pressed, the surface sinks.
    Pressed,
    /// Dragging, the highlight follows the cursor.
    Dragging,
    /// Released, the surface springs back.
    Releasing,
}

/// Whether the pointer is held down and the deformation phase.
pub struct PressState {
    /// The pointer is held down.
    pub is_pressed: bool,
    /// Current deformation phase.
    pub deformation_state: DeformationState,
}

impl PressState {
    /// The pointer is down exactly in the pressed phase.
    pub open spec fn wf(self) -> bool {
        self.is_pressed <==> self.deformation_state == DeformationState::Pressed
    }

    /// At rest: not pressed, idle.
    pub fn new() -> (s: Self)
        ensures
            !s.is_pressed,
            s.deformation_state == DeformationState::Idle,
            s.wf(),
    {
        PressState { is_pressed: false, deformation_state: DeformationState::Idle }
    }

    /// Press: the surface starts sinking. The caller resets the spring
    /// (displacement to the pressed depth, velocity and timer to zero).
    pub fn press(&mut self)
        ensures
            final(self).is_pressed,
            final(self).deformation_state == DeformationState::Pressed,
            final(self).wf(),
    {
        self.is_pressed = true;
        self.deformation_state = DeformationState::Pressed;
    }

    /// Release: the spring's target goes back to the flat surface.
    pub fn release(&mut self)
        ensures
            !final(self).is_pressed,
            final(self).deformation_state == DeformationState::Releasing,
            final(self).wf(),
    {
        self.is_pressed = false;
        self.deformation_state = DeformationState::Releasing;
    }

    /// Whether the spring pulls towards the pressed depth (otherwise towards
    /// the flat surface).
    pub fn targets_pressed_depth(&self) -> (r: bool)
        ensures
            r == self.is_pressed,
    {
        self.is_pressed
    }

    /// After a spring step: a released surface whose spring has come to rest
    /// (`at_rest`) becomes idle. Returns whether it did, in which case the
    /// caller zeroes displacement and velocity.
    pub fn settle(&mut self, at_rest: bool) -> (settled: bool)
        ensures
            settled == (!old(self).is_pressed && old(self).deformation_state
                == DeformationState::Releasing && at_rest),
            settled ==> !final(self).is_pressed && final(self).deformation_state
                == DeformationState::Idle,
            !settled ==> *final(self) == *old(self),
            old(self).wf() ==> final(self).wf(),
    {
        if !self.is_pressed && self.deformation_state == DeformationState::Releasing && at_rest {
            self.deformation_state = DeformationState::Idle;
            true
        } else {
            false
        }
    }
}

} // verus!
