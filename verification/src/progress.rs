//! The pace of a game: the heartbeat and the coming of the saucers.

use vstd::prelude::*;
use crate::alien::{Alien, AlienSize, Edge};
use crate::clock::{elapsed, rounded_seconds, span, whole_seconds};
use rand_xoshiro::Xoshiro256PlusPlus;
use crate::random::{draw_coin, drawn_coin};
use crate::state::{Session, State};

verus! {

/// The score step at which a big saucer enters.
pub const BIG_ALIEN_EVERY: usize = 5000;

/// The score step at which a small saucer enters.
pub const SMALL_ALIEN_EVERY: usize = 8000;

/// The frames between two heartbeats at the start of a wave.
pub const SLOWEST_BEAT: usize = 144;

/// The seconds of a wave after which the heartbeat doubles its pace.
pub const BEAT_STEP: u64 = 15;

/// The sound of a heartbeat.
#[derive(Clone, Copy, Debug, PartialEq, Eq, Structural)]
pub enum Beat {
    Low,
    High,
}

/// Whether a score that went from `previous` to `current` passed a multiple
/// of `step`, as far as the whole quotients show it: a score that comes to
/// rest on the far side of a multiple has passed it, and no score passes more
/// than one multiple at a time.
pub open spec fn crosses(previous: nat, current: nat, step: nat) -> bool {
    previous / step != current / step
}

/// Computes [`crosses`].
pub fn crossed(previous: usize, current: usize, step: usize) -> (passed: bool)
    requires
        step > 0,
    ensures
        passed == crosses(previous as nat, current as nat, step as nat),
{
    previous / step != current / step
}

/// The frames between two heartbeats when the wave has lasted `wave_time`:
/// the pace doubles with every quarter of a minute, three times at most.
pub open spec fn beat_period(wave_time: u64) -> nat {
    let steps = rounded_seconds(wave_time) / BEAT_STEP as nat;
    if steps == 0 {
        144
    } else if steps == 1 {
        72
    } else if steps == 2 {
        36
    } else {
        18
    }
}

/// Computes [`beat_period`].
pub fn heartbeat_period(wave_time: u64) -> (frames: usize)
    ensures
        frames == beat_period(wave_time),
        frames > 0,
{
    let steps: u64 = whole_seconds(wave_time) / BEAT_STEP;
    let intensity: u64 = if steps < 3 {
        steps
    } else {
        3
    };
    let mut frames: usize = SLOWEST_BEAT;
    let mut i: u64 = 0;
    while i < intensity
        invariant
            i <= intensity <= 3,
            frames == if i == 0 {
                144usize
            } else if i == 1 {
                72usize
            } else if i == 2 {
                36usize
            } else {
                18usize
            },
        decreases intensity - i,
    {
        frames = frames / 2;
        i += 1;
    }
    frames
}

/// What the pace of the game asks of the caller in a frame.
#[derive(Clone, Copy, Debug, PartialEq, Eq, Structural)]
pub struct Progress {
    /// The heartbeat to sound, if one is due.
    pub heartbeat: Option<Beat>,
    /// No rock and no saucer was left: a wave is due.
    pub wave_due: bool,
    /// A big saucer entered, at this side of the arena.
    pub big_alien: Option<Edge>,
    /// A small saucer entered, at this side of the arena.
    pub small_alien: Option<Edge>,
}

impl Progress {
    /// How many saucers entered.
    pub open spec fn arrivals(self) -> nat {
        let big: nat = if self.big_alien is Some {
            1
        } else {
            0
        };
        let small: nat = if self.small_alien is Some {
            1
        } else {
            0
        };
        big + small
    }
}

impl Session {
    /// The heartbeat count after this frame: a beat falls on every frame
    /// whose number is a multiple of the period.
    pub open spec fn next_bloop(self) -> nat {
        if self.frame % beat_period(span(self.now, self.stage_start)) == 0 {
            self.bloop + 1
        } else {
            self.bloop
        }
    }

    /// The heartbeat that sounds in this frame: a beat that fell while the
    /// ship is in play, low on odd counts and high on even ones.
    pub open spec fn beat(self) -> Option<Beat> {
        if self.ship.status.alive() && self.next_bloop() != self.last_bloop {
            Some(
                if self.next_bloop() % 2 == 1 {
                    Beat::Low
                } else {
                    Beat::High
                },
            )
        } else {
            None
        }
    }

    /// Whether a big saucer enters in this frame.
    pub open spec fn big_alien_due(self) -> bool {
        crosses(self.last_score, self.score, BIG_ALIEN_EVERY as nat)
    }

    /// Whether a small saucer enters in this frame.
    pub open spec fn small_alien_due(self) -> bool {
        crosses(self.last_score, self.score, SMALL_ALIEN_EVERY as nat)
    }

    /// The saucers that enter in this frame, the big one first.
    pub open spec fn arrivals(self) -> Seq<Alien> {
        let big = if self.big_alien_due() {
            seq![Alien::fresh(AlienSize::Big)]
        } else {
            Seq::empty()
        };
        let small = if self.small_alien_due() {
            seq![Alien::fresh(AlienSize::Small)]
        } else {
            Seq::empty()
        };
        big + small
    }

    /// The sides at which the saucers of this frame enter when the coins are
    /// tossed on `random`, the big saucer's first, and the stream as the
    /// tosses leave it. A saucer that does not enter takes no toss.
    pub open spec fn sides_drawn(self, random: Xoshiro256PlusPlus) -> (
        Option<Edge>,
        Option<Edge>,
        Xoshiro256PlusPlus,
    ) {
        let big = if self.big_alien_due() {
            (Some(Edge::side(drawn_coin(random).0)), drawn_coin(random).1)
        } else {
            (None, random)
        };
        let small = if self.small_alien_due() {
            (Some(Edge::side(drawn_coin(big.1).0)), drawn_coin(big.1).1)
        } else {
            (None, big.1)
        };
        (big.0, small.0, small.1)
    }

    /// The session after the pace of the game was worked: the heartbeat
    /// counted, the arriving saucers added, the score remembered.
    pub open spec fn progressed(self) -> Session {
        Session {
            bloop: self.next_bloop(),
            last_bloop: self.next_bloop(),
            aliens: self.aliens + self.arrivals(),
            last_score: self.score,
            ..self
        }
    }
}

/// Works the pace of the game for one frame. The heartbeat is counted and
/// sounds while the ship is in play. A wave is reported due when no rock and
/// no saucer is left. A saucer enters for each of the two score steps that
/// the score has passed since the previous frame, each step judged by
/// itself; the side at which it enters is the next toss of a coin on the
/// session's random stream, the big saucer's first. Where no saucer enters
/// the stream is left alone.
pub fn progression(state: &mut State) -> (progress: Progress)
    requires
        old(state).bloop < usize::MAX,
    ensures
        final(state)@ == old(state)@.progressed(),
        progress.heartbeat == old(state)@.beat(),
        progress.wave_due == old(state)@.wave_over(),
        (progress.big_alien is Some) == old(state)@.big_alien_due(),
        (progress.small_alien is Some) == old(state)@.small_alien_due(),
        progress.arrivals() == 0 ==> final(state).random == old(state).random,
        progress.big_alien == old(state)@.sides_drawn(old(state).random).0,
        progress.small_alien == old(state)@.sides_drawn(old(state).random).1,
        final(state).random == old(state)@.sides_drawn(old(state).random).2,
{
    let period: usize = heartbeat_period(elapsed(state.now, state.stage_start));
    if state.frame % period == 0 {
        state.bloop += 1;
    }
    let heartbeat: Option<Beat> = if state.ship.status.is_alive() && state.bloop
        != state.last_bloop {
        if state.bloop % 2 == 1 {
            Some(Beat::Low)
        } else {
            Some(Beat::High)
        }
    } else {
        None
    };
    state.last_bloop = state.bloop;
    let wave_due: bool = state.aliens.len() == 0 && state.rocks.len() == 0;
    let mut big_alien: Option<Edge> = None;
    if crossed(state.last_score, state.score, BIG_ALIEN_EVERY) {
        big_alien = Some(draw_edge(state));
        state.aliens.push(Alien::new(AlienSize::Big));
    }
    let mut small_alien: Option<Edge> = None;
    if crossed(state.last_score, state.score, SMALL_ALIEN_EVERY) {
        small_alien = Some(draw_edge(state));
        state.aliens.push(Alien::new(AlienSize::Small));
    }
    state.last_score = state.score;
    assert(state@.aliens =~= old(state)@.aliens + old(state)@.arrivals());
    Progress { heartbeat, wave_due, big_alien, small_alien }
}

/// Picks the side at which a saucer enters by the next toss of a coin on the
/// session's random stream.
fn draw_edge(state: &mut State) -> (edge: Edge)
    ensures
        final(state)@ == old(state)@,
        edge == Edge::side(drawn_coin(old(state).random).0),
        final(state).random == drawn_coin(old(state).random).1,
{
    Edge::of_coin(draw_coin(&mut state.random))
}

} // verus!
