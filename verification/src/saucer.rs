//! Saucers on the move: the third round of a frame's collisions.
//!
//! Each saucer in turn is tried against the ship. One that survives picks a
//! new heading when it has kept the old one long enough, moves, and fires
//! when it has reloaded. The round works the timers and says what each saucer
//! does; moving, aiming and firing are the caller's.

use vstd::prelude::*;
use crate::alien::Alien;
use crate::clock::{elapsed, span, REVIVE_DELAY};
use crate::contact::Contacts;
use crate::ship::{DeathTime, ShipStatus};
use crate::state::{Session, State};

verus! {

/// What a saucer does in a frame.
#[derive(Clone, Copy, Debug, PartialEq, Eq, Structural)]
pub enum AlienOrder {
    /// The saucer was destroyed in this frame and leaves a burst of debris.
    Destroyed,
    /// The saucer moves on, after picking a new heading if `turn` is set, and
    /// then fires at the ship if `shoot` is set.
    Act { turn: bool, shoot: bool },
}

/// A session in the middle of the round, with the orders so far.
pub struct Sortie {
    pub session: Session,
    pub orders: Seq<AlienOrder>,
}

impl Session {
    /// The session after saucer `alien` was tried against the ship: a saucer
    /// and a ship, both in play, that touch destroy each other.
    pub open spec fn alien_meets_ship(self, alien: int, near: bool) -> Session {
        if !self.aliens[alien].removed && self.ship.status.alive() && near {
            self.alien_removed(alien).ship_destroyed()
        } else {
            self
        }
    }

    /// What saucer `alien` does: a removed saucer is reported destroyed, any
    /// other turns and shoots as its timers have run out.
    pub open spec fn alien_order(self, alien: int) -> AlienOrder {
        let saucer = self.aliens[alien];
        if saucer.removed {
            AlienOrder::Destroyed
        } else {
            AlienOrder::Act {
                turn: span(self.now, saucer.last_direction) > saucer.size.heading_span(),
                shoot: span(self.now, saucer.last_shot) > saucer.size.reload_span(),
            }
        }
    }

    /// The session after saucer `alien` has taken `order`: a timer that ran
    /// out starts again at the session's time.
    pub open spec fn alien_obeys(self, alien: int, order: AlienOrder) -> Session {
        match order {
            AlienOrder::Destroyed => self,
            AlienOrder::Act { turn, shoot } => {
                let saucer = self.aliens[alien];
                Session {
                    aliens: self.aliens.update(
                        alien,
                        Alien {
                            last_direction: if turn {
                                self.now
                            } else {
                                saucer.last_direction
                            },
                            last_shot: if shoot {
                                self.now
                            } else {
                                saucer.last_shot
                            },
                            ..saucer
                        },
                    ),
                    ..self
                }
            },
        }
    }
}

impl Sortie {
    /// The round after saucer `alien` had its turn.
    pub open spec fn alien_acts(self, alien: int, near: bool) -> Sortie {
        let met = self.session.alien_meets_ship(alien, near);
        let order = met.alien_order(alien);
        Sortie { session: met.alien_obeys(alien, order), orders: self.orders.push(order) }
    }

    /// The round after the first `count` saucers had their turn, in order.
    pub open spec fn run(self, near: Seq<bool>, count: nat) -> Sortie
        decreases count,
    {
        if count == 0 {
            self
        } else {
            self.run(near, (count - 1) as nat).alien_acts(count - 1, near[count - 1])
        }
    }
}

/// The whole round of the saucers on `session`.
pub open spec fn alien_round(session: Session, contacts: Contacts) -> Sortie {
    Sortie { session, orders: Seq::empty() }.run(contacts.alien_ship@, session.aliens.len())
}

/// Plays the round of the saucers: every saucer meets the ship as `contacts`
/// finds it, and the survivors' timers are worked. The orders come back one
/// for each saucer, in the order of the session's list.
pub fn alien_phase(state: &mut State, contacts: &Contacts) -> (orders: Vec<AlienOrder>)
    requires
        contacts.fits(old(state)@),
        old(state).now + REVIVE_DELAY <= u64::MAX,
    ensures
        final(state)@ == alien_round(old(state)@, *contacts).session,
        orders@ == alien_round(old(state)@, *contacts).orders,
        orders@.len() == old(state)@.aliens.len(),
        final(state).random == old(state).random,
        final(state)@.collided_from(old(state)@),
        final(state)@.score == old(state)@.score,
        final(state)@.rocks == old(state)@.rocks,
{
    let ghost pre = state@;
    let ghost start = Sortie { session: pre, orders: Seq::empty() };
    proof {
        start.lemma_run(contacts.alien_ship@, pre.aliens.len());
    }
    let mut orders: Vec<AlienOrder> = Vec::new();
    let count: usize = state.aliens.len();
    let now: u64 = state.now;
    let mut j: usize = 0;
    while j < count
        invariant
            j <= count,
            count == pre.aliens.len(),
            contacts.alien_ship@.len() == pre.aliens.len(),
            now == pre.now,
            pre.now + REVIVE_DELAY <= u64::MAX,
            start == (Sortie { session: pre, orders: Seq::empty() }),
            state@ == start.run(contacts.alien_ship@, j as nat).session,
            orders@ == start.run(contacts.alien_ship@, j as nat).orders,
            state.now == pre.now,
            state.aliens.len() == pre.aliens.len(),
            state.random == old(state).random,
        decreases count - j,
    {
        let ghost before = start.run(contacts.alien_ship@, j as nat);
        if !state.aliens[j].removed && state.ship.status.is_alive() && contacts.alien_ship[j] {
            state.aliens[j].removed = true;
            state.ship.status = ShipStatus::Dead(DeathTime::new(now));
        }
        let ghost met = before.session.alien_meets_ship(j as int, contacts.alien_ship@[j as int]);
        assert(state@.aliens =~= met.aliens);
        let saucer = state.aliens[j];
        let order = if saucer.removed {
            AlienOrder::Destroyed
        } else {
            let turn: bool = elapsed(now, saucer.last_direction)
                > saucer.size.direction_change_time();
            let shoot: bool = elapsed(now, saucer.last_shot) > saucer.size.shoot_time();
            if turn {
                state.aliens[j].last_direction = now;
            }
            if shoot {
                state.aliens[j].last_shot = now;
            }
            AlienOrder::Act { turn, shoot }
        };
        assert(state@.aliens =~= met.alien_obeys(j as int, order).aliens);
        orders.push(order);
        j += 1;
    }
    orders
}

} // verus!
