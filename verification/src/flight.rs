//! Shots in flight: the second round of a frame's collisions.
//!
//! Each shot that still flies is tried against the ship. One that misses it
//! ages by the frame's time and is spent when its lifetime runs out. Either
//! way the shot is then tried against every saucer, unless it is still within
//! the grace window after its launch.

use vstd::prelude::*;
use crate::clock::{elapsed, GRACE_WINDOW, REVIVE_DELAY};
use crate::contact::Contacts;
use crate::projectile::ProjectileState;
use crate::ship::{DeathTime, ShipStatus};
use crate::state::{Session, State};

verus! {

impl Session {
    /// The session after shot `shot` was tried against saucer `alien`: an
    /// armed shot that touches a saucer still in play is spent and removes
    /// the saucer.
    pub open spec fn shot_meets_alien(self, shot: int, alien: int, armed: bool, near: bool)
        -> Session {
        if !self.aliens[alien].removed && armed && near {
            self.shot_set(shot, ProjectileState::Dead).alien_removed(alien)
        } else {
            self
        }
    }

    /// The session after shot `shot` was tried against the first `count`
    /// saucers, in order.
    pub open spec fn shot_meets_aliens(self, shot: int, armed: bool, near: Seq<bool>, count: nat)
        -> Session
        decreases count,
    {
        if count == 0 {
            self
        } else {
            self.shot_meets_aliens(shot, armed, near, (count - 1) as nat).shot_meets_alien(
                shot,
                count - 1,
                armed,
                near[count - 1],
            )
        }
    }

    /// The session after shot `shot` met the ship or aged: a shot within
    /// reach of a ship in play is spent and destroys it; any other shot
    /// loses the frame's time from its lifetime.
    pub open spec fn shot_passes_ship(self, shot: int, near: bool) -> Session {
        if self.ship.status.alive() && near {
            self.shot_set(shot, ProjectileState::Dead).ship_destroyed()
        } else {
            self.shot_set(shot, self.projectiles[shot].state.aged(self.delta))
        }
    }

    /// The session after shot `shot` had its turn. A shot that was spent
    /// before its turn does nothing.
    pub open spec fn shot_flies(self, shot: int, contacts: Contacts) -> Session {
        match self.projectiles[shot].state {
            ProjectileState::Dead => self,
            ProjectileState::Alive { .. } => self.shot_passes_ship(
                shot,
                contacts.projectile_ship@[shot],
            ).shot_meets_aliens(
                shot,
                self.projectiles[shot].armed(self.now),
                contacts.projectile_alien@[shot]@,
                self.aliens.len(),
            ),
        }
    }

    /// The session after the first `count` shots had their turn, in order.
    pub open spec fn shots_fly(self, contacts: Contacts, count: nat) -> Session
        decreases count,
    {
        if count == 0 {
            self
        } else {
            self.shots_fly(contacts, (count - 1) as nat).shot_flies(count - 1, contacts)
        }
    }
}

/// The whole round of the shots on `session`.
pub open spec fn shot_round(session: Session, contacts: Contacts) -> Session {
    session.shots_fly(contacts, session.projectiles.len())
}

/// Whether `state` is at the point `session` of a round that began on `pre`.
spec fn follows(state: State, session: Session, pre: Session) -> bool {
    &&& state@ == session
    &&& session.now == pre.now
    &&& session.delta == pre.delta
    &&& session.aliens.len() == pre.aliens.len()
    &&& session.projectiles.len() == pre.projectiles.len()
}

/// Tries shot `shot` against every saucer.
fn shot_meets_aliens(
    state: &mut State,
    shot: usize,
    armed: bool,
    near: &Vec<bool>,
    Ghost(session): Ghost<Session>,
    Ghost(pre): Ghost<Session>,
)
    requires
        follows(*old(state), session, pre),
        shot < pre.projectiles.len(),
        near@.len() == pre.aliens.len(),
    ensures
        follows(
            *final(state),
            session.shot_meets_aliens(shot as int, armed, near@, pre.aliens.len()),
            pre,
        ),
        final(state).random == old(state).random,
{
    let count: usize = state.aliens.len();
    let mut j: usize = 0;
    while j < count
        invariant
            j <= count,
            count == pre.aliens.len(),
            shot < pre.projectiles.len(),
            near@.len() == pre.aliens.len(),
            follows(*state, session.shot_meets_aliens(shot as int, armed, near@, j as nat), pre),
            state.random == old(state).random,
        decreases count - j,
    {
        let ghost before = session.shot_meets_aliens(shot as int, armed, near@, j as nat);
        if !state.aliens[j].removed && armed && near[j] {
            state.projectiles[shot].state = ProjectileState::Dead;
            state.aliens[j].removed = true;
            proof {
                let after = before.shot_meets_alien(shot as int, j as int, armed, near@[j as int]);
                assert(state@.aliens =~= after.aliens);
                assert(state@.projectiles =~= after.projectiles);
            }
        }
        j += 1;
    }
}

/// Plays the round of the shots: every shot that still flies meets the ship
/// or ages, and then meets the saucers, as `contacts` finds them.
pub fn projectile_phase(state: &mut State, contacts: &Contacts)
    requires
        contacts.fits(old(state)@),
        old(state).now + REVIVE_DELAY <= u64::MAX,
    ensures
        final(state)@ == shot_round(old(state)@, *contacts),
        final(state).random == old(state).random,
        final(state)@.collided_from(old(state)@),
        final(state)@.score == old(state)@.score,
        final(state)@.rocks == old(state)@.rocks,
{
    let ghost pre = state@;
    proof {
        pre.lemma_shots_fly(*contacts, pre.projectiles.len());
    }
    let count: usize = state.projectiles.len();
    let mut k: usize = 0;
    while k < count
        invariant
            k <= count,
            count == pre.projectiles.len(),
            contacts.fits(pre),
            pre.now + REVIVE_DELAY <= u64::MAX,
            follows(*state, pre.shots_fly(*contacts, k as nat), pre),
            state.random == old(state).random,
        decreases count - k,
    {
        let ghost before = pre.shots_fly(*contacts, k as nat);
        let shot = state.projectiles[k];
        match shot.state {
            ProjectileState::Dead => {},
            ProjectileState::Alive { time_to_live } => {
                if state.ship.status.is_alive() && contacts.projectile_ship[k] {
                    state.projectiles[k].state = ProjectileState::Dead;
                    state.ship.status = ShipStatus::Dead(DeathTime::new(state.now));
                } else {
                    state.projectiles[k].state = ProjectileState::from(
                        elapsed(time_to_live, state.delta),
                    );
                }
                let ghost passed = before.shot_passes_ship(
                    k as int,
                    contacts.projectile_ship@[k as int],
                );
                assert(state@.projectiles =~= passed.projectiles);
                let armed: bool = elapsed(state.now, shot.spawn) >= GRACE_WINDOW;
                shot_meets_aliens(
                    state,
                    k,
                    armed,
                    &contacts.projectile_alien[k],
                    Ghost(passed),
                    Ghost(pre),
                );
            },
        }
        k += 1;
    }
}

} // verus!
