//! One frame of a session, from the tick of the clock to the report.
//!
//! A frame runs in this order. The caller advances the clock with
//! [`begin_frame`], passes the player's input to [`ship_control`], moves what
//! it has to move and finds the [`Contacts`]. [`update`] then plays the three
//! rounds of collisions, ages the debris, sweeps the session, works the
//! ship's return and the pace of the game, and reports. The frame ends with
//! [`finish_frame`](crate::finish::finish_frame), which acts the report out
//! on the session with what the caller supplies: every wreck scatters its
//! burst, every saucer that can fires, and a wave starts where one is due.

use vstd::prelude::*;
use crate::clock::{plume_lit, plume_shows, ALIEN_SHOT_LIFETIME, REVIVE_DELAY, SHIP_SHOT_LIFETIME};
use crate::collision::lemma_collided;
use rand_xoshiro::Xoshiro256PlusPlus;
use crate::alien::Edge;
use crate::contact::Contacts;
use crate::laws::{law_nothing_destroyed_stays, law_score_by_hits};
use crate::flight::{projectile_phase, shot_round};
use crate::particle::particle_phase;
use crate::progress::{crosses, progression, Progress, BIG_ALIEN_EVERY, SMALL_ALIEN_EVERY};
use crate::projectile::{Projectile, ProjectileState};
use crate::revival::{death_and_respawn, Revival};
use crate::rock::{fresh_rocks, Rock};
use crate::saucer::{alien_phase, alien_round, AlienOrder};
use crate::ship::{DeathTime, ShipStatus};
use crate::state::{Session, State, STARTING_LIVES};
use crate::strike::{awards, broken_sizes, children_drawn, rock_phase, rock_round, RockHit};
use crate::sweep::{
    alien_stays, cleanup, marks_of, particle_stays, rock_stays, shot_stays, Sweep,
};

verus! {

/// What the ship does in a frame.
#[derive(Clone, Copy, Debug, PartialEq, Eq, Structural)]
pub struct ShipOrders {
    /// The ship is in play: it turns as the player asks, drifts and moves.
    pub steer: bool,
    /// The ship accelerates along its heading.
    pub thrust: bool,
    /// The thruster shows its plume and sounds.
    pub plume: bool,
    /// The ship fired: a shot has joined the session's list.
    pub fire: bool,
}

impl Session {
    /// The session after the clock moved on by `delta`.
    pub open spec fn ticked(self, delta: u64) -> Session {
        Session { now: (self.now + delta) as u64, delta, ..self }
    }

    /// The session after the player's input was taken. A ship out of play
    /// takes none. A ship in play shows its plume while it thrusts, in every
    /// other tenth of a second, and fires a shot when asked to.
    pub open spec fn steered(self, thrust: bool, fire: bool) -> Session {
        if self.ship.status.alive() {
            Session {
                render_thruster_plume: thrust && plume_lit(self.now),
                projectiles: if fire {
                    self.projectiles.push(Projectile::launched(self.now, SHIP_SHOT_LIFETIME))
                } else {
                    self.projectiles
                },
                ..self
            }
        } else {
            self
        }
    }

    /// What the ship does on the player's input.
    pub open spec fn ship_orders(self, thrust: bool, fire: bool) -> ShipOrders {
        let alive = self.ship.status.alive();
        ShipOrders {
            steer: alive,
            thrust: alive && thrust,
            plume: alive && thrust && plume_lit(self.now),
            fire: alive && fire,
        }
    }

    /// The session after a saucer fired.
    pub open spec fn alien_fired(self) -> Session {
        Session {
            projectiles: self.projectiles.push(Projectile::launched(self.now, ALIEN_SHOT_LIFETIME)),
            ..self
        }
    }

    /// The pieces into which the rocks of this frame break when the seeds are
    /// drawn from `random`, and the stream as the draws leave it.
    pub open spec fn frame_pieces(self, contacts: Contacts, random: Xoshiro256PlusPlus) -> (
        Seq<Rock>,
        Xoshiro256PlusPlus,
    ) {
        children_drawn(self.rocks, rock_round(self, contacts).hits, random)
    }

    /// The sides at which the saucers of this frame enter when the frame
    /// draws from `random`, the big saucer's first, and the stream as the
    /// frame leaves it: the seeds of the pieces are drawn first, then the
    /// coins are tossed.
    pub open spec fn frame_sides(self, contacts: Contacts, random: Xoshiro256PlusPlus) -> (
        Option<Edge>,
        Option<Edge>,
        Xoshiro256PlusPlus,
    ) {
        let pieces = self.frame_pieces(contacts, random);
        self.collided(contacts).particles_aged().swept(pieces.0).revived().sides_drawn(pieces.1)
    }

    /// The session at the end of a frame in which the rocks broke into
    /// `children`: after the three rounds of collisions, the aging of the
    /// debris, the sweep, the ship's return and the pace of the game, with
    /// the frame counted.
    pub open spec fn frame_end(self, contacts: Contacts, children: Seq<Rock>) -> Session {
        let settled = self.collided(contacts).particles_aged().swept(
            children,
        ).revived().progressed();
        Session { frame: settled.frame + 1, ..settled }
    }
}

impl Session {
    /// Whether the clock can move on by `delta` and still take the revive
    /// delay.
    pub open spec fn can_tick(self, delta: u64) -> bool {
        self.now + delta + REVIVE_DELAY <= u64::MAX
    }
}

impl State {
    /// Computes [`Session::can_tick`].
    pub fn can_tick(&self, delta: u64) -> (fits: bool)
        ensures
            fits == self@.can_tick(delta),
    {
        match self.now.checked_add(delta) {
            None => false,
            Some(now) => now <= u64::MAX - REVIVE_DELAY,
        }
    }
}

/// Starts a frame that covers the time `delta`.
pub fn begin_frame(state: &mut State, delta: u64)
    requires
        old(state)@.can_tick(delta),
    ensures
        final(state)@ == old(state)@.ticked(delta),
        final(state).random == old(state).random,
        final(state).now + REVIVE_DELAY <= u64::MAX,
{
    state.delta = delta;
    state.now = state.now + delta;
}

/// Takes the player's input for the frame: whether the thrust key is held and
/// whether the fire key was pressed in this frame. The orders say what the
/// ship does; a shot that it fires is the last of the session's list.
pub fn ship_control(state: &mut State, thrust: bool, fire: bool) -> (orders: ShipOrders)
    ensures
        final(state)@ == old(state)@.steered(thrust, fire),
        final(state).random == old(state).random,
        orders == old(state)@.ship_orders(thrust, fire),
{
    if !state.ship.status.is_alive() {
        return ShipOrders { steer: false, thrust: false, plume: false, fire: false };
    }
    state.render_thruster_plume = thrust && plume_shows(state.now);
    if fire {
        state.projectiles.push(
            Projectile {
                state: ProjectileState::Alive { time_to_live: SHIP_SHOT_LIFETIME },
                spawn: state.now,
            },
        );
    }
    ShipOrders { steer: true, thrust, plume: state.render_thruster_plume, fire }
}

/// Adds the shot of a saucer to the session, as the last of its list.
pub fn alien_fire(state: &mut State)
    ensures
        final(state)@ == old(state)@.alien_fired(),
        final(state).random == old(state).random,
{
    state.projectiles.push(
        Projectile {
            state: ProjectileState::Alive { time_to_live: ALIEN_SHOT_LIFETIME },
            spawn: state.now,
        },
    );
}

/// What happened in a frame, for the caller to act out.
pub struct FrameReport {
    /// The destructions of rocks, in the order in which they fell. Each
    /// leaves a burst of debris and sounds.
    pub hits: Vec<RockHit>,
    /// The pieces of the rocks that broke, in the order of the hits, two for
    /// each hit on a rock that is not of the smallest size. They have joined
    /// the session's rocks.
    pub children: Vec<Rock>,
    /// What each saucer does, in the order of the session's list at the start
    /// of the update.
    pub alien_orders: Vec<AlienOrder>,
    /// What stayed in the session when it was swept.
    pub sweep: Sweep,
    /// What became of a destroyed ship.
    pub revival: Revival,
    /// What the pace of the game asks for.
    pub progress: Progress,
}

impl FrameReport {
    /// Whether the report tells of the frame that began on `pre` with the
    /// contacts `contacts`.
    pub open spec fn describes(self, pre: Session, contacts: Contacts) -> bool {
        let struck = rock_round(pre, contacts);
        let sortie = alien_round(shot_round(struck.session, contacts), contacts);
        let aged = sortie.session.particles_aged();
        let swept = aged.swept(self.children@);
        let revived = swept.revived();
        &&& self.hits@ == struck.hits
        &&& fresh_rocks(self.children@, broken_sizes(pre.rocks, struck.hits))
        &&& self.alien_orders@ == sortie.orders
        &&& marks_of(self.sweep.rocks@, sortie.session.rocks + self.children@, rock_stays())
        &&& marks_of(self.sweep.particles@, aged.particles, particle_stays())
        &&& marks_of(self.sweep.projectiles@, sortie.session.projectiles, shot_stays())
        &&& marks_of(self.sweep.aliens@, sortie.session.aliens, alien_stays())
        &&& self.revival == swept.revival()
        &&& self.progress.heartbeat == revived.beat()
        &&& self.progress.wave_due == revived.wave_over()
        &&& (self.progress.big_alien is Some) == revived.big_alien_due()
        &&& (self.progress.small_alien is Some) == revived.small_alien_due()
    }

    /// Whether the caller has to start a wave: the game began anew, or no
    /// rock and no saucer was left.
    pub open spec fn wave_called(self) -> bool {
        self.revival.game_reset || self.progress.wave_due
    }

    /// Computes [`FrameReport::wave_called`].
    pub fn wave_due(&self) -> (due: bool)
        ensures
            due == self.wave_called(),
    {
        self.revival.game_reset || self.progress.wave_due
    }
}

/// What holds of the sessions before and after any update and of its report,
/// whatever it was that touched. The clock stands still and the frame is
/// counted. The score grows by what the hits award, or the game began anew
/// with no score and three lives. A life is lost only when the ship returns.
/// A ship in play is still in play or was destroyed at the session's time; a
/// ship out of play returns if and only if its delay has passed, and is left
/// alone otherwise. A saucer of either kind enters if and only if the whole
/// quotient of the score by the saucer's step has changed since the frame
/// before, and no saucer comes into the session in any other way. Nothing
/// that was destroyed stays.
pub open spec fn follows_update(pre: Session, post: Session, report: FrameReport) -> bool {
    &&& post.now == pre.now
    &&& post.delta == pre.delta
    &&& post.frame == pre.frame + 1
    &&& post.last_score == post.score
    &&& report.alien_orders@.len() == pre.aliens.len()
    &&& report.revival.game_reset ==> post.score == 0 && post.lifes == STARTING_LIVES
    &&& !report.revival.game_reset ==> post.score == pre.score + awards(pre.rocks, report.hits@)
    &&& report.revival.game_reset ==> report.revival.respawned
    &&& !report.revival.respawned ==> post.lifes == pre.lifes
    &&& report.revival.respawned && !report.revival.game_reset ==> post.lifes == pre.lifes - 1
    &&& report.revival.respawned == (!pre.ship.status.alive() && post.ship.status.alive())
    &&& pre.ship.status.alive() ==> report.revival.ship_destroyed == !post.ship.status.alive()
    &&& pre.ship.status.alive() && !post.ship.status.alive() ==> post.ship.status
        == ShipStatus::Dead(DeathTime::at(pre.now))
    &&& pre.ship.status matches ShipStatus::Dead(record) ==> report.revival.respawned == (pre.now
        > record.death_timer)
    &&& !pre.ship.status.alive() && !report.revival.respawned ==> post.ship == pre.ship
    &&& (report.progress.big_alien is Some) == crosses(
        pre.last_score,
        post.score,
        BIG_ALIEN_EVERY as nat,
    )
    &&& (report.progress.small_alien is Some) == crosses(
        pre.last_score,
        post.score,
        SMALL_ALIEN_EVERY as nat,
    )
    &&& report.progress.arrivals() <= post.aliens.len() <= pre.aliens.len()
        + report.progress.arrivals()
    &&& forall|i: int| 0 <= i < post.rocks.len() ==> !(#[trigger] post.rocks[i]).removed
    &&& forall|i: int| 0 <= i < post.aliens.len() ==> !(#[trigger] post.aliens[i]).removed
    &&& forall|i: int| 0 <= i < post.projectiles.len() ==> (#[trigger] post.projectiles[i]).live()
    &&& forall|i: int| 0 <= i < post.particles.len() ==> (#[trigger] post.particles[i]).live()
}

/// Plays one frame on the session. The rocks meet the ship, the saucers and
/// the shots; the shots meet the ship and the saucers; the saucers meet the
/// ship and work their timers. The debris ages. The pieces of the broken
/// rocks join the session and what was destroyed or has run out of time
/// leaves it. A ship destroyed long enough ago
/// comes back, at the cost of a life or of the game. The heartbeat is
/// counted, a wave is called for when nothing is left of the last, saucers
/// enter as the score passes their steps, and the frame is counted. The
/// random stream is drawn from for the seeds of the pieces, hit by hit, and
/// then for the sides of the saucers, and is left alone in a frame that has
/// neither.
pub fn update(state: &mut State, contacts: &Contacts) -> (report: FrameReport)
    requires
        contacts.fits(old(state)@),
        old(state)@.within_limits(),
    ensures
        report.describes(old(state)@, *contacts),
        final(state)@ == old(state)@.frame_end(*contacts, report.children@),
        follows_update(old(state)@, final(state)@, report),
        report.children@.len() == 0 && report.progress.arrivals() == 0 ==> final(state).random
            == old(state).random,
        report.children@ == old(state)@.frame_pieces(*contacts, old(state).random).0,
        report.progress.big_alien == old(state)@.frame_sides(*contacts, old(state).random).0,
        report.progress.small_alien == old(state)@.frame_sides(*contacts, old(state).random).1,
        final(state).random == old(state)@.frame_sides(*contacts, old(state).random).2,
{
    let ghost pre = state@;
    proof {
        assert(state.rocks.len() == pre.rocks.len());
        lemma_collided(pre, *contacts);
    }
    let wreckage = rock_phase(state, contacts);
    projectile_phase(state, contacts);
    let alien_orders = alien_phase(state, contacts);
    particle_phase(state);
    let sweep = cleanup(state, &wreckage.children);
    let revival = death_and_respawn(state);
    let progress = progression(state);
    state.frame = state.frame + 1;
    proof {
        law_score_by_hits(pre, *contacts, wreckage.children@);
        law_nothing_destroyed_stays(pre, *contacts, wreckage.children@);
        pre.collided(*contacts).aliens.lemma_filter_len(alien_stays());
    }
    FrameReport {
        hits: wreckage.hits,
        children: wreckage.children,
        alien_orders,
        sweep,
        revival,
        progress,
    }
}

} // verus!
