//! Waves of rocks.

use vstd::prelude::*;
use rand_xoshiro::Xoshiro256PlusPlus;
use crate::random::{draw_seed, drawn_seed};
use crate::rock::{fresh_rocks, Rock, RockSize};
use crate::state::{Session, State};

verus! {

/// The rocks of the smallest wave.
pub const BASE_WAVE: usize = 20;

/// The points that add one rock to a wave.
pub const POINTS_PER_ROCK: usize = 1500;

/// How many rocks a wave holds that starts at the score `score`.
pub open spec fn wave_size(score: nat) -> nat {
    BASE_WAVE as nat + score / POINTS_PER_ROCK as nat
}

/// Computes [`wave_size`].
pub fn wave_rocks(score: usize) -> (count: usize)
    ensures
        count == wave_size(score as nat),
{
    BASE_WAVE + score / POINTS_PER_ROCK
}

impl Session {
    /// The session after a wave of the rocks `rocks` began at its present
    /// time.
    pub open spec fn wave_begun(self, rocks: Seq<Rock>) -> Session {
        Session { rocks, stage_start: self.now, ..self }
    }

    /// Whether the wave is over: no rock and no saucer is left.
    pub open spec fn wave_over(self) -> bool {
        self.aliens.len() == 0 && self.rocks.len() == 0
    }
}

/// The rocks of a wave of the sizes `sizes` when their seeds are drawn from
/// `random`, one for each rock in order, and the stream as the draws leave
/// it.
pub open spec fn wave_drawn(sizes: Seq<RockSize>, random: Xoshiro256PlusPlus) -> (
    Seq<Rock>,
    Xoshiro256PlusPlus,
)
    decreases sizes.len(),
{
    if sizes.len() == 0 {
        (Seq::empty(), random)
    } else {
        let before = wave_drawn(sizes.drop_last(), random);
        let draw = drawn_seed(before.1);
        (before.0.push(Rock { size: sizes.last(), seed: draw.0, removed: false }), draw.1)
    }
}

/// Starts a wave: the session's rocks are replaced by fresh rocks of the
/// sizes `sizes`, in order, and the wave's clock starts at the session's
/// time. The seeds of the rocks are the next draws from the session's random
/// stream, one for each rock. The caller picks the sizes, as many as
/// [`wave_size`] asks for at the session's score.
pub fn reset_rocks(state: &mut State, sizes: &Vec<RockSize>)
    requires
        sizes@.len() == wave_size(old(state)@.score),
    ensures
        fresh_rocks(final(state)@.rocks, sizes@),
        final(state)@ == old(state)@.wave_begun(wave_drawn(sizes@, old(state).random).0),
        final(state).random == wave_drawn(sizes@, old(state).random).1,
{
    if !state.rocks.is_empty() {
        state.rocks.clear();
    }
    let bound: usize = sizes.len();
    let mut i: usize = 0;
    while i < bound
        invariant
            i <= bound,
            bound == sizes@.len(),
            fresh_rocks(state@.rocks, sizes@.take(i as int)),
            state@.rocks == wave_drawn(sizes@.take(i as int), old(state).random).0,
            state.random == wave_drawn(sizes@.take(i as int), old(state).random).1,
            state@ == (Session { rocks: state@.rocks, ..old(state)@ }),
        decreases bound - i,
    {
        proof {
            assert(sizes@.take(i + 1).drop_last() =~= sizes@.take(i as int));
        }
        let seed: u64 = draw_seed(&mut state.random);
        state.rocks.push(Rock::new(sizes[i], seed));
        i += 1;
    }
    assert(sizes@.take(bound as int) =~= sizes@);
    state.stage_start = state.now;
}

} // verus!
