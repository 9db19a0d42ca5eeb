//! A snowflake, and what one frame does to it.
use vstd::prelude::*;
use crate::vec2::Vec2;
use crate::viewport::Viewport;

verus! {

/// A snowflake: where it is, in sub-units, and how fast it moves, in
/// sub-units per second. Its place in the field is its identity.
#[derive(Clone, Copy, Debug, PartialEq, Eq, Structural)]
pub struct Particle {
    pub position: Vec2,
    pub velocity: Vec2,
}

impl Particle {
    /// The flake with `drift` added to its velocity. The sum is not
    /// brought back to unit length: a flake may gather speed frame by
    /// frame, up to the limit of the representable range.
    pub open spec fn perturbed_spec(self, drift: Vec2) -> Particle {
        Particle { position: self.position, velocity: self.velocity.plus_spec(drift) }
    }

    /// Where the flake is after `dt` microseconds at its velocity, before
    /// any edge sends it back.
    pub open spec fn moved_to(self, dt: u64) -> Vec2 {
        self.position.moved_spec(self.velocity, dt)
    }

    /// Whether `dt` microseconds carry the flake beyond an edge that sends
    /// it back, which also costs it its velocity.
    pub open spec fn respawns(self, viewport: Viewport, dt: u64, bottom: bool) -> bool {
        viewport.crosses(self.moved_to(dt), bottom)
    }

    /// The flake after `dt` microseconds, sent back into view where it
    /// went beyond an edge, with its velocity as it was.
    pub open spec fn advanced_spec(self, viewport: Viewport, dt: u64, bottom: bool) -> Particle {
        Particle {
            position: viewport.wrap_spec(self.moved_to(dt), bottom),
            velocity: self.velocity,
        }
    }

    /// Adds `drift` to the velocity and leaves the position alone.
    pub fn perturbed(self, drift: Vec2) -> (p: Particle)
        ensures
            p == self.perturbed_spec(drift),
            p.velocity.in_range(),
    {
        Particle { position: self.position, velocity: self.velocity.plus(drift) }
    }

    /// Moves the flake for `dt` microseconds and sends it back into view
    /// where it went beyond an edge. The second result says whether it
    /// did, and so whether it is due a fresh velocity.
    pub fn advanced(self, viewport: &Viewport, dt: u64, bottom: bool) -> (r: (Particle, bool))
        requires
            viewport.wf(),
        ensures
            r.0 == self.advanced_spec(*viewport, dt, bottom),
            r.1 == self.respawns(*viewport, dt, bottom),
            r.0.position.in_range(),
    {
        let moved = self.position.moved(self.velocity, dt);
        let (position, crossed) = viewport.wrap(moved, bottom);
        (Particle { position, velocity: self.velocity }, crossed)
    }
}

/// A step of no duration leaves a flake as it is, with its velocity, if
/// the flake is not beyond an edge that sends it back, and only then.
pub proof fn lemma_zero_step_is_identity(p: Particle, viewport: Viewport, bottom: bool)
    requires
        viewport.wf(),
        p.position.in_range(),
    ensures
        p.moved_to(0) == p.position,
        p.respawns(viewport, 0, bottom) == viewport.crosses(p.position, bottom),
        p.advanced_spec(viewport, 0, bottom) == p <==> !viewport.crosses(p.position, bottom),
{
}

} // verus!
