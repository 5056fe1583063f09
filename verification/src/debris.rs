//! The debris that a destruction scatters.

use vstd::prelude::*;
use crate::clock::{elapsed, span};
use crate::particle::{Particle, ParticleType};
use crate::state::{Session, State};
use crate::sweep::{lemma_filter_step, marks_of};

verus! {

/// What was destroyed.
#[derive(Clone, Copy, Debug, PartialEq, Eq, Structural)]
pub enum Wreck {
    Rock,
    Alien,
    Ship,
}

/// How many particles of each kind a destruction scatters.
#[derive(Clone, Copy, Debug, PartialEq, Eq, Structural)]
pub struct Burst {
    pub dots: usize,
    pub lines: usize,
}

/// The burst that a wreck of the kind `wreck` leaves.
pub open spec fn burst_of(wreck: Wreck) -> Burst {
    match wreck {
        Wreck::Rock => Burst { dots: 10, lines: 0 },
        Wreck::Alien => Burst { dots: 15, lines: 4 },
        Wreck::Ship => Burst { dots: 20, lines: 5 },
    }
}

/// Computes [`burst_of`].
pub fn burst(wreck: Wreck) -> (particles: Burst)
    ensures
        particles == burst_of(wreck),
{
    match wreck {
        Wreck::Rock => Burst { dots: 10, lines: 0 },
        Wreck::Alien => Burst { dots: 15, lines: 4 },
        Wreck::Ship => Burst { dots: 20, lines: 5 },
    }
}

impl Burst {
    /// How many particles the burst has.
    pub open spec fn total(self) -> nat {
        (self.dots + self.lines) as nat
    }

    /// The look of particle `i` of the burst: the dots come first.
    pub open spec fn look(self, i: int) -> ParticleType {
        if i < self.dots {
            ParticleType::Dot
        } else {
            ParticleType::Line
        }
    }
}

impl Wreck {
    /// What a particle of this wreck has left of the lifetime `lifetime` at
    /// the end of the frame of the wreck. A rock is wrecked before the
    /// frame's debris ages, so that its debris has lost the frame's time by
    /// then; a saucer and the ship are wrecked after it.
    pub open spec fn first_age(self, lifetime: u64, delta: u64) -> u64 {
        match self {
            Wreck::Rock => span(lifetime, delta),
            Wreck::Alien => lifetime,
            Wreck::Ship => lifetime,
        }
    }

    /// Whether a particle of this wreck with the time `left` is still there
    /// at the end of the frame of the wreck. A rock and a saucer are wrecked
    /// before the frame is swept, so that debris with no time left is gone by
    /// then; the ship is wrecked after the sweep.
    pub open spec fn keeps(self, left: u64) -> bool {
        match self {
            Wreck::Rock => left > 0,
            Wreck::Alien => left > 0,
            Wreck::Ship => true,
        }
    }

    /// The particles of this wreck that are still there at the end of the
    /// frame of the wreck.
    pub open spec fn debris_stays(self) -> spec_fn(Particle) -> bool {
        |particle: Particle| self.keeps(particle.time_to_live)
    }

    /// The burst of this wreck as it is at the end of the frame of the wreck,
    /// before any of it has left, when its particles were scattered with the
    /// lifetimes `lifetimes` in a frame of the time `delta`.
    pub open spec fn debris(self, lifetimes: Seq<u64>, delta: u64) -> Seq<Particle> {
        Seq::new(
            lifetimes.len(),
            |i: int|
                Particle {
                    time_to_live: self.first_age(lifetimes[i], delta),
                    particle_type: burst_of(self).look(i),
                },
        )
    }
}

impl Session {
    /// The session after a wreck of the kind `wreck` of this frame has
    /// scattered its burst with the lifetimes `lifetimes`.
    pub open spec fn scattered(self, wreck: Wreck, lifetimes: Seq<u64>) -> Session {
        Session {
            particles: self.particles + wreck.debris(lifetimes, self.delta).filter(
                wreck.debris_stays(),
            ),
            ..self
        }
    }
}

/// Scatters the burst of a wreck that the frame's update has reported. The
/// caller picks the lifetimes, one for each particle of the burst of `wreck`,
/// the dots first. The session takes the particles as they are at the end of
/// the frame, after the last of its list: those of a rock have aged by the
/// frame's time, and those of a rock or a saucer that have no time left are
/// not taken. The marks that come back say, particle by particle, which were
/// taken.
pub fn scatter(state: &mut State, wreck: Wreck, lifetimes: &Vec<u64>) -> (taken: Vec<bool>)
    requires
        lifetimes@.len() == burst_of(wreck).total(),
    ensures
        final(state)@ == old(state)@.scattered(wreck, lifetimes@),
        final(state).random == old(state).random,
        marks_of(taken@, wreck.debris(lifetimes@, old(state)@.delta), wreck.debris_stays()),
{
    let ghost pre = state@;
    let ghost all = wreck.debris(lifetimes@, pre.delta);
    let ghost stays = wreck.debris_stays();
    let dots: usize = burst(wreck).dots;
    let delta: u64 = state.delta;
    let mut taken: Vec<bool> = Vec::new();
    let count: usize = lifetimes.len();
    let mut i: usize = 0;
    proof {
        reveal(Seq::filter);
        assert(all.take(0).filter(stays) =~= Seq::<Particle>::empty());
        assert(pre.particles + all.take(0).filter(stays) =~= pre.particles);
    }
    while i < count
        invariant
            i <= count,
            count == lifetimes@.len(),
            count == all.len(),
            dots == burst_of(wreck).dots,
            delta == pre.delta,
            all == wreck.debris(lifetimes@, pre.delta),
            stays == wreck.debris_stays(),
            state@ == (Session { particles: pre.particles + all.take(i as int).filter(stays), ..pre }),
            state.random == old(state).random,
            marks_of(taken@, all.take(i as int), stays),
        decreases count - i,
    {
        let lifetime: u64 = lifetimes[i];
        let left: u64 = match wreck {
            Wreck::Rock => elapsed(lifetime, delta),
            _ => lifetime,
        };
        let keep: bool = match wreck {
            Wreck::Ship => true,
            _ => left > 0,
        };
        let particle_type = if i < dots {
            ParticleType::Dot
        } else {
            ParticleType::Line
        };
        let particle = Particle { time_to_live: left, particle_type };
        proof {
            lemma_filter_step(all, stays, i as int);
            assert(all[i as int] == particle);
            assert(all.take(i + 1) =~= all.take(i as int).push(particle));
        }
        if keep {
            state.particles.push(particle);
            assert(state@.particles =~= pre.particles + all.take(i + 1).filter(stays));
        }
        taken.push(keep);
        i += 1;
    }
    assert(all.take(count as int) =~= all);
    taken
}

} // verus!
