//! The session: everything the rules keep from one frame to the next.

use vstd::prelude::*;
use rand_xoshiro::Xoshiro256PlusPlus;
use crate::alien::Alien;
use crate::particle::Particle;
use crate::clock::REVIVE_DELAY;
use crate::projectile::{Projectile, ProjectileState};
use crate::random::{gameplay_stream, gameplay_stream_of};
use crate::rock::{Rock, TOP_AWARD};
use crate::ship::{DeathTime, Ship, ShipStatus};

verus! {

/// Lives at the start of a game.
pub const STARTING_LIVES: usize = 3;

/// One game session.
///
/// The entity lists run parallel to the caller's own lists of positions and
/// velocities: entry `i` of `rocks` is the rock whose body the caller keeps
/// at index `i`, and so on for particles, shots and saucers.
pub struct State {
    /// The simulated time.
    pub now: u64,
    /// When the current wave of rocks began.
    pub stage_start: u64,
    /// The time that the current frame covers.
    pub delta: u64,
    pub ship: Ship,
    /// Whether the thruster plume is to be drawn.
    pub render_thruster_plume: bool,
    pub rocks: Vec<Rock>,
    pub particles: Vec<Particle>,
    pub projectiles: Vec<Projectile>,
    pub aliens: Vec<Alien>,
    /// The stream of gameplay randomness.
    pub random: Xoshiro256PlusPlus,
    /// Lives left beyond the one in play.
    pub lifes: usize,
    pub score: usize,
    /// The score at the end of the previous frame.
    pub last_score: usize,
    /// How many heartbeats have sounded or fallen silent.
    pub bloop: usize,
    /// The heartbeat count at the end of the previous frame.
    pub last_bloop: usize,
    /// How many frames have been played.
    pub frame: usize,
}

/// The mathematical content of a [`State`]: all of it but the random stream,
/// with sequences for the lists and unbounded counters. Of the stream the
/// contracts speak by the field itself: a function that draws nothing says
/// that it leaves the stream as it was.
pub struct Session {
    pub now: u64,
    pub stage_start: u64,
    pub delta: u64,
    pub ship: Ship,
    pub render_thruster_plume: bool,
    pub rocks: Seq<Rock>,
    pub particles: Seq<Particle>,
    pub projectiles: Seq<Projectile>,
    pub aliens: Seq<Alien>,
    pub lifes: nat,
    pub score: nat,
    pub last_score: nat,
    pub bloop: nat,
    pub last_bloop: nat,
    pub frame: nat,
}

impl View for State {
    type V = Session;

    open spec fn view(&self) -> Session {
        Session {
            now: self.now,
            stage_start: self.stage_start,
            delta: self.delta,
            ship: self.ship,
            render_thruster_plume: self.render_thruster_plume,
            rocks: self.rocks@,
            particles: self.particles@,
            projectiles: self.projectiles@,
            aliens: self.aliens@,
            lifes: self.lifes as nat,
            score: self.score as nat,
            last_score: self.last_score as nat,
            bloop: self.bloop as nat,
            last_bloop: self.last_bloop as nat,
            frame: self.frame as nat,
        }
    }
}

impl Session {
    /// The session before its first frame: a ship in play, three lives in
    /// reserve, nothing else.
    pub open spec fn start() -> Session {
        Session {
            now: 0,
            stage_start: 0,
            delta: 0,
            ship: Ship { status: ShipStatus::Alive },
            render_thruster_plume: false,
            rocks: Seq::empty(),
            particles: Seq::empty(),
            projectiles: Seq::empty(),
            aliens: Seq::empty(),
            lifes: STARTING_LIVES as nat,
            score: 0,
            last_score: 0,
            bloop: 0,
            last_bloop: 0,
            frame: 0,
        }
    }

    /// The session with its ship destroyed at the session's time.
    pub open spec fn ship_destroyed(self) -> Session {
        Session { ship: Ship { status: ShipStatus::Dead(DeathTime::at(self.now)) }, ..self }
    }

    /// The session with rock `rock` marked as removed.
    pub open spec fn rock_removed(self, rock: int) -> Session {
        Session {
            rocks: self.rocks.update(rock, Rock { removed: true, ..self.rocks[rock] }),
            ..self
        }
    }

    /// The session with saucer `alien` marked as removed.
    pub open spec fn alien_removed(self, alien: int) -> Session {
        Session {
            aliens: self.aliens.update(alien, Alien { removed: true, ..self.aliens[alien] }),
            ..self
        }
    }

    /// The session with shot `shot` in the state `state`.
    pub open spec fn shot_set(self, shot: int, state: ProjectileState) -> Session {
        Session {
            projectiles: self.projectiles.update(
                shot,
                Projectile { state, ..self.projectiles[shot] },
            ),
            ..self
        }
    }

    /// The session with `points` more on the score.
    pub open spec fn awarded(self, points: nat) -> Session {
        Session { score: self.score + points, ..self }
    }

    /// The most that the collisions of one frame can add to the score: every
    /// rock may be scored once by each saucer and once by each shot.
    pub open spec fn award_bound(self) -> nat {
        TOP_AWARD as nat * (self.rocks.len() * (self.aliens.len() + self.projectiles.len()))
    }

    /// Whether one more frame fits the machine's integers: the clock can
    /// take the revive delay, the score the frame's awards, and the two
    /// frame counters one step.
    pub open spec fn within_limits(self) -> bool {
        &&& self.now + REVIVE_DELAY <= u64::MAX
        &&& self.score + self.award_bound() <= usize::MAX
        &&& self.frame < usize::MAX
        &&& self.bloop < usize::MAX
    }
}

impl State {
    /// A session before its first frame, its gameplay randomness seeded
    /// with `seed`.
    pub fn new(seed: u64) -> (state: Self)
        ensures
            state@ == Session::start(),
            state.random == gameplay_stream_of(seed),
    {
        Self::with_stream(gameplay_stream(seed))
    }

    /// A session before its first frame that draws its gameplay randomness
    /// from `random`.
    pub fn with_stream(random: Xoshiro256PlusPlus) -> (state: Self)
        ensures
            state@ == Session::start(),
            state.random == random,
    {
        Self {
            now: 0,
            stage_start: 0,
            delta: 0,
            ship: Ship::default(),
            render_thruster_plume: false,
            rocks: Vec::new(),
            particles: Vec::new(),
            projectiles: Vec::new(),
            aliens: Vec::new(),
            random,
            lifes: STARTING_LIVES,
            score: 0,
            last_score: 0,
            bloop: 0,
            last_bloop: 0,
            frame: 0,
        }
    }

    /// Computes [`Session::within_limits`].
    pub fn within_limits(&self) -> (fits: bool)
        ensures
            fits == self@.within_limits(),
    {
        if self.now > u64::MAX - REVIVE_DELAY || self.frame == usize::MAX || self.bloop
            == usize::MAX {
            return false;
        }
        let rocks: usize = self.rocks.len();
        let aliens: usize = self.aliens.len();
        let shots: usize = self.projectiles.len();
        if rocks == 0 {
            assert(self@.award_bound() == 0) by (nonlinear_arith)
                requires
                    self@.rocks.len() == 0,
                    self@.award_bound() == TOP_AWARD as nat * (self@.rocks.len() * (
                    self@.aliens.len() + self@.projectiles.len())),
            ;
            return true;
        }
        let fits: bool = match aliens.checked_add(shots) {
            None => false,
            Some(others) => match rocks.checked_mul(others) {
                None => false,
                Some(pairs) => match pairs.checked_mul(TOP_AWARD) {
                    None => false,
                    Some(awards) => match self.score.checked_add(awards) {
                        None => false,
                        Some(_) => true,
                    },
                },
            },
        };
        proof {
            lemma_award_bound(rocks as nat, aliens as nat, shots as nat);
        }
        fits
    }
}

/// The award bound grows with each of its factors.
proof fn lemma_award_bound(rocks: nat, aliens: nat, shots: nat)
    requires
        rocks >= 1,
    ensures
        rocks * (aliens + shots) >= aliens + shots,
        TOP_AWARD as nat * (rocks * (aliens + shots)) >= rocks * (aliens + shots),
        TOP_AWARD as nat * (rocks * (aliens + shots)) == (rocks * (aliens + shots)) * TOP_AWARD as nat,
{
    assert(rocks * (aliens + shots) >= aliens + shots) by (nonlinear_arith)
        requires
            rocks >= 1,
    ;
    let pairs = rocks * (aliens + shots);
    assert(100 * pairs >= pairs && 100 * pairs == pairs * 100) by (nonlinear_arith);
}

} // verus!
