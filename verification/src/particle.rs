//! Debris: particles that fly for a while after a destruction and do nothing
//! else.

use vstd::prelude::*;
use crate::clock::{elapsed, span};
use crate::state::{Session, State};

verus! {

/// The look of a particle.
#[derive(Clone, Copy, Debug, PartialEq, Eq, Structural)]
pub enum ParticleType {
    Line,
    Dot,
}

/// A particle as the rules see it.
#[derive(Clone, Copy, Debug, PartialEq, Eq, Structural)]
pub struct Particle {
    /// The time the particle has left.
    pub time_to_live: u64,
    pub particle_type: ParticleType,
}

impl Particle {
    /// Whether the particle still flies.
    pub open spec fn live(self) -> bool {
        self.time_to_live > 0
    }

    /// The particle after `delta` has passed.
    pub open spec fn aged(self, delta: u64) -> Particle {
        Particle { time_to_live: span(self.time_to_live, delta), ..self }
    }
}

impl Session {
    /// The session after its particles lost the frame's time from their
    /// lifetimes.
    pub open spec fn particles_aged(self) -> Session {
        Session {
            particles: Seq::new(self.particles.len(), |i: int| self.particles[i].aged(self.delta)),
            ..self
        }
    }
}

/// Ages the session's particles by the time of the frame.
pub fn particle_phase(state: &mut State)
    ensures
        final(state)@ == old(state)@.particles_aged(),
        final(state).random == old(state).random,
{
    let ghost pre = state@;
    let count: usize = state.particles.len();
    let delta: u64 = state.delta;
    let mut i: usize = 0;
    while i < count
        invariant
            i <= count,
            count == pre.particles.len(),
            delta == pre.delta,
            state@ == (Session { particles: state@.particles, ..pre }),
            state.random == old(state).random,
            state@.particles.len() == count,
            forall|k: int| 0 <= k < i ==> state@.particles[k] == pre.particles[k].aged(delta),
            forall|k: int| i <= k < count ==> state@.particles[k] == pre.particles[k],
        decreases count - i,
    {
        let left: u64 = elapsed(state.particles[i].time_to_live, delta);
        state.particles[i].time_to_live = left;
        i += 1;
    }
    assert(state@.particles =~= pre.particles_aged().particles);
}

} // verus!
