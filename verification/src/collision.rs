//! What the three rounds of a frame's collisions have in common.

use vstd::prelude::*;
use crate::contact::Contacts;
use crate::flight::shot_round;
use crate::saucer::{alien_round, Sortie};
use crate::state::Session;
use crate::strike::{rock_round, Round};

verus! {

impl Session {
    /// Whether collisions alone can turn `earlier` into this session: they
    /// leave the clock, the lives, the counters and the debris alone, add and
    /// drop nothing, never lower the score, and do to the ship nothing but
    /// destroy it at the session's time if it was in play.
    pub open spec fn collided_from(self, earlier: Session) -> bool {
        &&& self.now == earlier.now
        &&& self.delta == earlier.delta
        &&& self.stage_start == earlier.stage_start
        &&& self.render_thruster_plume == earlier.render_thruster_plume
        &&& self.lifes == earlier.lifes
        &&& self.last_score == earlier.last_score
        &&& self.bloop == earlier.bloop
        &&& self.last_bloop == earlier.last_bloop
        &&& self.frame == earlier.frame
        &&& self.particles == earlier.particles
        &&& self.rocks.len() == earlier.rocks.len()
        &&& self.aliens.len() == earlier.aliens.len()
        &&& self.projectiles.len() == earlier.projectiles.len()
        &&& self.score >= earlier.score
        &&& self.ship.status == earlier.ship.status.struck(earlier.now) || self.ship
            == earlier.ship
    }

    /// The session after the three rounds of collisions: the rocks', the
    /// shots', the saucers'.
    pub open spec fn collided(self, contacts: Contacts) -> Session {
        alien_round(shot_round(rock_round(self, contacts).session, contacts), contacts).session
    }
}

impl Round {
    /// Rock `rock` against the saucers is collisions alone.
    pub proof fn lemma_meet_aliens(self, rock: int, near: Seq<bool>, count: nat)
        requires
            0 <= rock < self.session.rocks.len(),
            count <= self.session.aliens.len(),
        ensures
            self.meet_aliens(rock, near, count).session.collided_from(self.session),
        decreases count,
    {
        if count > 0 {
            self.lemma_meet_aliens(rock, near, (count - 1) as nat);
        }
    }

    /// Rock `rock` against the shots is collisions alone.
    pub proof fn lemma_meet_shots(self, rock: int, near: Seq<bool>, count: nat)
        requires
            0 <= rock < self.session.rocks.len(),
            count <= self.session.projectiles.len(),
        ensures
            self.meet_shots(rock, near, count).session.collided_from(self.session),
        decreases count,
    {
        if count > 0 {
            self.lemma_meet_shots(rock, near, (count - 1) as nat);
        }
    }

    /// The round of the rocks is collisions alone.
    pub proof fn lemma_run(self, contacts: Contacts, count: nat)
        requires
            count <= self.session.rocks.len(),
        ensures
            self.run(contacts, count).session.collided_from(self.session),
        decreases count,
    {
        if count > 0 {
            self.lemma_run(contacts, (count - 1) as nat);
            let before = self.run(contacts, (count - 1) as nat);
            let rock = count - 1;
            let shipped = before.meet_ship(rock, contacts.rock_ship@[rock]);
            shipped.lemma_meet_aliens(
                rock,
                contacts.rock_alien@[rock]@,
                before.session.aliens.len(),
            );
            let raided = shipped.meet_aliens(
                rock,
                contacts.rock_alien@[rock]@,
                before.session.aliens.len(),
            );
            raided.lemma_meet_shots(
                rock,
                contacts.rock_projectile@[rock]@,
                before.session.projectiles.len(),
            );
        }
    }
}

impl Session {
    /// Shot `shot` against the saucers is collisions alone, and leaves the
    /// score and the ship as they were.
    pub proof fn lemma_shot_meets_aliens(self, shot: int, armed: bool, near: Seq<bool>, count: nat)
        requires
            0 <= shot < self.projectiles.len(),
            count <= self.aliens.len(),
        ensures
            self.shot_meets_aliens(shot, armed, near, count).collided_from(self),
            self.shot_meets_aliens(shot, armed, near, count).score == self.score,
            self.shot_meets_aliens(shot, armed, near, count).ship == self.ship,
            self.shot_meets_aliens(shot, armed, near, count).rocks == self.rocks,
        decreases count,
    {
        if count > 0 {
            self.lemma_shot_meets_aliens(shot, armed, near, (count - 1) as nat);
        }
    }

    /// The round of the shots is collisions alone, and leaves the score and
    /// the rocks as they were.
    pub proof fn lemma_shots_fly(self, contacts: Contacts, count: nat)
        requires
            count <= self.projectiles.len(),
        ensures
            self.shots_fly(contacts, count).collided_from(self),
            self.shots_fly(contacts, count).score == self.score,
            self.shots_fly(contacts, count).rocks == self.rocks,
        decreases count,
    {
        if count > 0 {
            self.lemma_shots_fly(contacts, (count - 1) as nat);
            let before = self.shots_fly(contacts, (count - 1) as nat);
            let shot = count - 1;
            before.shot_passes_ship(shot, contacts.projectile_ship@[shot]).lemma_shot_meets_aliens(
                shot,
                before.projectiles[shot].armed(before.now),
                contacts.projectile_alien@[shot]@,
                before.aliens.len(),
            );
        }
    }
}

impl Sortie {
    /// The round of the saucers is collisions alone, leaves the score and the
    /// rocks as they were, and gives one order for each saucer that had its
    /// turn.
    pub proof fn lemma_run(self, near: Seq<bool>, count: nat)
        requires
            count <= self.session.aliens.len(),
        ensures
            self.run(near, count).session.collided_from(self.session),
            self.run(near, count).session.score == self.session.score,
            self.run(near, count).session.rocks == self.session.rocks,
            self.run(near, count).orders.len() == self.orders.len() + count,
        decreases count,
    {
        if count > 0 {
            self.lemma_run(near, (count - 1) as nat);
        }
    }
}

/// The three rounds of a frame are collisions alone, and only the rocks'
/// round moves the score or marks a rock.
pub proof fn lemma_collided(session: Session, contacts: Contacts)
    ensures
        rock_round(session, contacts).session.collided_from(session),
        shot_round(rock_round(session, contacts).session, contacts).collided_from(session),
        session.collided(contacts).collided_from(session),
        session.collided(contacts).score == rock_round(session, contacts).session.score,
        session.collided(contacts).rocks == rock_round(session, contacts).session.rocks,
        alien_round(shot_round(rock_round(session, contacts).session, contacts), contacts).orders.len()
            == session.aliens.len(),
{
    let start = Round { session, hits: Seq::empty() };
    start.lemma_run(contacts, session.rocks.len());
    let struck = rock_round(session, contacts).session;
    struck.lemma_shots_fly(contacts, struck.projectiles.len());
    let flown = shot_round(struck, contacts);
    let sortie = Sortie { session: flown, orders: Seq::empty() };
    sortie.lemma_run(contacts.alien_ship@, flown.aliens.len());
}

} // verus!
