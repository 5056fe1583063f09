//! What holds of every frame.

use vstd::prelude::*;
use crate::alien::{Alien, AlienSize};
use crate::clock::{rounded_seconds, REVIVE_DELAY};
use crate::collision::lemma_collided;
use crate::contact::Contacts;
use crate::debris::Wreck;
use crate::frame::FrameReport;
use crate::progress::beat_period;
use crate::projectile::{Projectile, ProjectileState};
use crate::rock::{fresh_rocks, piece_sizes, Rock, RockSize};
use rand_xoshiro::Xoshiro256PlusPlus;
use crate::finish::{law_finish_keeps, Supplies};
use crate::flight::shot_round;
use crate::saucer::{alien_round, Sortie};
use crate::ship::{DeathTime, ShipStatus};
use crate::state::Session;
use crate::strike::{award_of, awards, broken_sizes, rock_round, Collider, RockHit, Round};
use crate::sweep::lemma_swept_clean;
use crate::wave::wave_size;

verus! {

impl Round {
    /// Whether every hit so far names a rock of the session that is marked
    /// removed.
    pub open spec fn hits_marked(self) -> bool {
        forall|k: int|
            0 <= k < self.hits.len() ==> (#[trigger] self.hits[k]).rock < self.session.rocks.len()
                && self.session.rocks[self.hits[k].rock as int].removed
    }

    /// A strike marks its rock and unmarks none.
    proof fn lemma_strike_marks(self, rock: int, collider: Collider)
        requires
            self.hits_marked(),
            0 <= rock < self.session.rocks.len() <= usize::MAX,
        ensures
            self.strike(rock, collider).hits_marked(),
            self.strike(rock, collider).session.rocks.len() == self.session.rocks.len(),
    {
        let after = self.strike(rock, collider);
        assert forall|k: int| 0 <= k < after.hits.len() implies (#[trigger] after.hits[k]).rock
            < after.session.rocks.len() && after.session.rocks[after.hits[k].rock as int].removed by {
            if k < self.hits.len() {
                assert(after.hits[k] == self.hits[k]);
            }
        }
    }

    /// The saucers leave every hit rock marked.
    proof fn lemma_meet_aliens_marks(self, rock: int, near: Seq<bool>, count: nat)
        requires
            self.hits_marked(),
            0 <= rock < self.session.rocks.len() <= usize::MAX,
            count <= self.session.aliens.len(),
        ensures
            self.meet_aliens(rock, near, count).hits_marked(),
        decreases count,
    {
        if count > 0 {
            self.lemma_meet_aliens_marks(rock, near, (count - 1) as nat);
            self.lemma_meet_aliens(rock, near, (count - 1) as nat);
            let before = self.meet_aliens(rock, near, (count - 1) as nat);
            let alien = count - 1;
            if !before.session.aliens[alien].removed && near[alien] {
                let scored = Round {
                    session: before.session.alien_removed(alien).awarded(
                        before.session.rocks[rock].size.score(),
                    ),
                    ..before
                };
                scored.lemma_strike_marks(rock, Collider::Alien(alien as usize));
            }
        }
    }

    /// The shots leave every hit rock marked.
    proof fn lemma_meet_shots_marks(self, rock: int, near: Seq<bool>, count: nat)
        requires
            self.hits_marked(),
            0 <= rock < self.session.rocks.len() <= usize::MAX,
            count <= self.session.projectiles.len(),
        ensures
            self.meet_shots(rock, near, count).hits_marked(),
        decreases count,
    {
        if count > 0 {
            self.lemma_meet_shots_marks(rock, near, (count - 1) as nat);
            self.lemma_meet_shots(rock, near, (count - 1) as nat);
            let before = self.meet_shots(rock, near, (count - 1) as nat);
            let shot = count - 1;
            if before.session.projectiles[shot].live() && near[shot] {
                let scored = Round {
                    session: before.session.shot_set(
                        shot,
                        ProjectileState::Dead,
                    ).awarded(before.session.rocks[rock].size.score()),
                    ..before
                };
                scored.lemma_strike_marks(rock, Collider::Projectile(shot as usize));
            }
        }
    }

    /// The round of the rocks leaves every hit rock marked.
    proof fn lemma_run_marks(self, contacts: Contacts, count: nat)
        requires
            self.hits_marked(),
            count <= self.session.rocks.len() <= usize::MAX,
        ensures
            self.run(contacts, count).hits_marked(),
        decreases count,
    {
        if count > 0 {
            self.lemma_run_marks(contacts, (count - 1) as nat);
            self.lemma_run(contacts, (count - 1) as nat);
            let before = self.run(contacts, (count - 1) as nat);
            let rock = count - 1;
            let near = contacts.rock_ship@[rock];
            if before.session.ship.status.alive() && near {
                let wrecked = Round { session: before.session.ship_destroyed(), ..before };
                wrecked.lemma_strike_marks(rock, Collider::Ship);
            }
            let shipped = before.meet_ship(rock, near);
            shipped.lemma_meet_aliens_marks(
                rock,
                contacts.rock_alien@[rock]@,
                before.session.aliens.len(),
            );
            shipped.lemma_meet_aliens(
                rock,
                contacts.rock_alien@[rock]@,
                before.session.aliens.len(),
            );
            let raided = shipped.meet_aliens(
                rock,
                contacts.rock_alien@[rock]@,
                before.session.aliens.len(),
            );
            raided.lemma_meet_shots_marks(
                rock,
                contacts.rock_projectile@[rock]@,
                before.session.projectiles.len(),
            );
        }
    }
}

/// One more hit awards its points on top of those of the hits before it.
proof fn lemma_awards_push(rocks: Seq<Rock>, hits: Seq<RockHit>, hit: RockHit)
    ensures
        awards(rocks, hits.push(hit)) == awards(rocks, hits) + award_of(rocks, hit),
{
    assert(hits.push(hit).drop_last() =~= hits);
}

impl Round {
    /// Whether the round has the rocks `rocks` but for their marks, and has
    /// added to the score `base` what its hits award.
    pub open spec fn keeps_score(self, rocks: Seq<Rock>, base: nat) -> bool {
        &&& self.session.rocks.len() == rocks.len()
        &&& forall|k: int|
            0 <= k < rocks.len() ==> (#[trigger] self.session.rocks[k]).size == rocks[k].size
        &&& self.session.score == base + awards(rocks, self.hits)
    }

    /// The saucers score what their hits award.
    proof fn lemma_meet_aliens_scores(
        self,
        rock: int,
        near: Seq<bool>,
        count: nat,
        rocks: Seq<Rock>,
        base: nat,
    )
        requires
            self.keeps_score(rocks, base),
            0 <= rock < rocks.len() <= usize::MAX,
            count <= self.session.aliens.len(),
        ensures
            self.meet_aliens(rock, near, count).keeps_score(rocks, base),
        decreases count,
    {
        if count > 0 {
            self.lemma_meet_aliens_scores(rock, near, (count - 1) as nat, rocks, base);
            self.lemma_meet_aliens(rock, near, (count - 1) as nat);
            let before = self.meet_aliens(rock, near, (count - 1) as nat);
            let alien = count - 1;
            if !before.session.aliens[alien].removed && near[alien] {
                lemma_awards_push(
                    rocks,
                    before.hits,
                    RockHit { rock: rock as usize, collider: Collider::Alien(alien as usize) },
                );
            }
        }
    }

    /// The shots score what their hits award.
    proof fn lemma_meet_shots_scores(
        self,
        rock: int,
        near: Seq<bool>,
        count: nat,
        rocks: Seq<Rock>,
        base: nat,
    )
        requires
            self.keeps_score(rocks, base),
            0 <= rock < rocks.len() <= usize::MAX,
            count <= self.session.projectiles.len(),
        ensures
            self.meet_shots(rock, near, count).keeps_score(rocks, base),
        decreases count,
    {
        if count > 0 {
            self.lemma_meet_shots_scores(rock, near, (count - 1) as nat, rocks, base);
            self.lemma_meet_shots(rock, near, (count - 1) as nat);
            let before = self.meet_shots(rock, near, (count - 1) as nat);
            let shot = count - 1;
            if before.session.projectiles[shot].live() && near[shot] {
                lemma_awards_push(
                    rocks,
                    before.hits,
                    RockHit { rock: rock as usize, collider: Collider::Projectile(shot as usize) },
                );
            }
        }
    }

    /// The round of the rocks scores what its hits award.
    proof fn lemma_run_scores(self, contacts: Contacts, count: nat, rocks: Seq<Rock>, base: nat)
        requires
            self.keeps_score(rocks, base),
            count <= rocks.len() <= usize::MAX,
        ensures
            self.run(contacts, count).keeps_score(rocks, base),
        decreases count,
    {
        if count > 0 {
            self.lemma_run_scores(contacts, (count - 1) as nat, rocks, base);
            self.lemma_run(contacts, (count - 1) as nat);
            let before = self.run(contacts, (count - 1) as nat);
            let rock = count - 1;
            let near = contacts.rock_ship@[rock];
            if before.session.ship.status.alive() && near {
                lemma_awards_push(
                    rocks,
                    before.hits,
                    RockHit { rock: rock as usize, collider: Collider::Ship },
                );
            }
            let shipped = before.meet_ship(rock, near);
            shipped.lemma_meet_aliens_scores(
                rock,
                contacts.rock_alien@[rock]@,
                before.session.aliens.len(),
                rocks,
                base,
            );
            shipped.lemma_meet_aliens(
                rock,
                contacts.rock_alien@[rock]@,
                before.session.aliens.len(),
            );
            let raided = shipped.meet_aliens(
                rock,
                contacts.rock_alien@[rock]@,
                before.session.aliens.len(),
            );
            raided.lemma_meet_shots_scores(
                rock,
                contacts.rock_projectile@[rock]@,
                before.session.projectiles.len(),
                rocks,
                base,
            );
        }
    }
}

/// Hits that award the same points each award those points as often as there
/// are hits.
pub proof fn law_even_awards(rocks: Seq<Rock>, hits: Seq<RockHit>, points: nat)
    requires
        forall|k: int| 0 <= k < hits.len() ==> award_of(rocks, #[trigger] hits[k]) == points,
    ensures
        awards(rocks, hits) == points * hits.len(),
    decreases hits.len(),
{
    if hits.len() > 0 {
        let before = hits.drop_last();
        assert forall|k: int| 0 <= k < before.len() implies award_of(rocks, #[trigger] before[k])
            == points by {
            assert(before[k] == hits[k]);
        }
        law_even_awards(rocks, before, points);
        assert(points * before.len() + points == points * hits.len()) by (nonlinear_arith)
            requires
                before.len() + 1 == hits.len(),
        ;
    }
}

/// The points of the first `count` of the rocks `rocks` together.
pub open spec fn points_of(rocks: Seq<Rock>, count: nat) -> nat
    decreases count,
{
    if count == 0 {
        0
    } else {
        points_of(rocks, (count - 1) as nat) + rocks[count - 1].size.score()
    }
}

/// Rocks of one size are worth the points of that size as often as there are
/// rocks.
pub proof fn law_even_points(rocks: Seq<Rock>, count: nat, size: RockSize)
    requires
        count <= rocks.len(),
        forall|i: int| 0 <= i < count ==> (#[trigger] rocks[i]).size == size,
    ensures
        points_of(rocks, count) == count * size.score(),
    decreases count,
{
    if count > 0 {
        law_even_points(rocks, (count - 1) as nat, size);
        assert((count - 1) * size.score() + size.score() == count * size.score())
            by (nonlinear_arith);
    }
}

impl Round {
    /// A rock that no saucer touches meets the saucers without a trace.
    pub proof fn lemma_no_alien_near(self, rock: int, near: Seq<bool>, count: nat)
        requires
            forall|j: int| 0 <= j < count ==> !near[j],
        ensures
            self.meet_aliens(rock, near, count) == self,
        decreases count,
    {
        if count > 0 {
            self.lemma_no_alien_near(rock, near, (count - 1) as nat);
        }
    }

    /// A rock that no shot touches meets the shots without a trace.
    pub proof fn lemma_no_shot_near(self, rock: int, near: Seq<bool>, count: nat)
        requires
            forall|k: int| 0 <= k < count ==> !near[k],
        ensures
            self.meet_shots(rock, near, count) == self,
        decreases count,
    {
        if count > 0 {
            self.lemma_no_shot_near(rock, near, (count - 1) as nat);
        }
    }

    /// A rock that one shot touches and no other meets that shot alone.
    pub proof fn lemma_one_shot_near(self, rock: int, near: Seq<bool>, count: nat, shot: int)
        requires
            0 <= shot < count,
            forall|k: int| 0 <= k < count ==> (near[k] <==> k == shot),
        ensures
            self.meet_shots(rock, near, count) == self.meet_shot(rock, shot, true),
        decreases count,
    {
        if count - 1 == shot {
            self.lemma_no_shot_near(rock, near, shot as nat);
        } else {
            self.lemma_one_shot_near(rock, near, (count - 1) as nat, shot);
        }
    }
}

/// Whether by `contacts` each of the first `count` of `rocks` rocks is
/// touched by the shot of its own index and by nothing else, and no other
/// rock is touched by anything.
pub open spec fn a_shot_each(contacts: Contacts, rocks: nat, aliens: nat, shots: nat, count: nat)
    -> bool {
    &&& count <= rocks
    &&& count <= shots
    &&& forall|i: int| 0 <= i < rocks ==> !contacts.rock_ship@[i]
    &&& forall|i: int, j: int|
        0 <= i < rocks && 0 <= j < aliens ==> !(#[trigger] contacts.rock_alien@[i]@[j])
    &&& forall|i: int, k: int|
        0 <= i < rocks && 0 <= k < shots ==> (#[trigger] contacts.rock_projectile@[i]@[k] <==> i
            == k && i < count)
}

/// The round of the rocks on `pre` in which the first `count` rocks were each
/// hit by the shot of its own index, and nothing else happened.
pub open spec fn shot_one_by_one(pre: Session, count: nat) -> Round {
    Round {
        session: Session {
            rocks: Seq::new(
                pre.rocks.len(),
                |i: int|
                    if i < count {
                        Rock { removed: true, ..pre.rocks[i] }
                    } else {
                        pre.rocks[i]
                    },
            ),
            projectiles: Seq::new(
                pre.projectiles.len(),
                |k: int|
                    if k < count {
                        Projectile { state: ProjectileState::Dead, ..pre.projectiles[k] }
                    } else {
                        pre.projectiles[k]
                    },
            ),
            score: pre.score + points_of(pre.rocks, count),
            ..pre
        },
        hits: Seq::new(
            count,
            |i: int| RockHit { rock: i as usize, collider: Collider::Projectile(i as usize) },
        ),
    }
}

/// The lesser of two counts.
spec fn lesser(one: nat, other: nat) -> nat {
    if one < other {
        one
    } else {
        other
    }
}

/// The first rocks of a round that gives each rock a shot of its own are shot
/// one by one.
proof fn lemma_a_shot_each(pre: Session, contacts: Contacts, count: nat, done: nat)
    requires
        done <= pre.rocks.len() <= usize::MAX,
        a_shot_each(contacts, pre.rocks.len(), pre.aliens.len(), pre.projectiles.len(), count),
        forall|k: int| 0 <= k < count ==> (#[trigger] pre.projectiles[k]).live(),
    ensures
        (Round { session: pre, hits: Seq::empty() }).run(contacts, done) == shot_one_by_one(
            pre,
            lesser(done, count),
        ),
    decreases done,
{
    let start = Round { session: pre, hits: Seq::empty() };
    if done == 0 {
        let none = shot_one_by_one(pre, 0);
        assert(none.session.rocks =~= pre.rocks);
        assert(none.session.projectiles =~= pre.projectiles);
        assert(none.hits =~= Seq::<RockHit>::empty());
    } else {
        let rock = done - 1;
        lemma_a_shot_each(pre, contacts, count, rock as nat);
        let before = start.run(contacts, rock as nat);
        let aliens_near = contacts.rock_alien@[rock]@;
        let shots_near = contacts.rock_projectile@[rock]@;
        assert(before.meet_ship(rock, contacts.rock_ship@[rock]) == before);
        before.lemma_no_alien_near(rock, aliens_near, pre.aliens.len());
        if rock < count {
            assert(before == shot_one_by_one(pre, rock as nat));
            before.lemma_one_shot_near(rock, shots_near, pre.projectiles.len(), rock);
            let after = before.meet_shot(rock, rock, true);
            let expected = shot_one_by_one(pre, done);
            assert(before.session.projectiles[rock] == pre.projectiles[rock]);
            assert(after.session.rocks =~= expected.session.rocks);
            assert(after.session.projectiles =~= expected.session.projectiles);
            assert(after.hits =~= expected.hits);
            assert(after.session == expected.session);
        } else {
            before.lemma_no_shot_near(rock, shots_near, pre.projectiles.len());
        }
    }
}

/// When each of the first `count` rocks is touched by a live shot of its own
/// and by nothing else, and no other rock by anything, the round of the rocks
/// hits just these rocks, each once and in order, spends their shots, and
/// adds the points of these rocks to the score.
pub proof fn law_a_shot_each(pre: Session, contacts: Contacts, count: nat)
    requires
        pre.rocks.len() <= usize::MAX,
        a_shot_each(contacts, pre.rocks.len(), pre.aliens.len(), pre.projectiles.len(), count),
        forall|k: int| 0 <= k < count ==> (#[trigger] pre.projectiles[k]).live(),
    ensures
        rock_round(pre, contacts) == shot_one_by_one(pre, count),
        rock_round(pre, contacts).hits.len() == count,
        rock_round(pre, contacts).session.score == pre.score + points_of(pre.rocks, count),
        awards(pre.rocks, rock_round(pre, contacts).hits) == points_of(pre.rocks, count),
{
    lemma_a_shot_each(pre, contacts, count, pre.rocks.len());
    law_rock_round_scores(pre, contacts);
}

/// The round of the rocks adds to the score what its hits award: each hit of
/// a saucer or a shot on a rock awards the rock's points, a hit of the ship
/// awards nothing.
pub proof fn law_rock_round_scores(pre: Session, contacts: Contacts)
    requires
        pre.rocks.len() <= usize::MAX,
    ensures
        rock_round(pre, contacts).session.score == pre.score + awards(
            pre.rocks,
            rock_round(pre, contacts).hits,
        ),
{
    let start = Round { session: pre, hits: Seq::empty() };
    start.lemma_run_scores(contacts, pre.rocks.len(), pre.rocks, pre.score);
}

/// The score grows in a frame by what the frame's hits award, and by
/// nothing else: each hit of a saucer or a shot on a rock awards the rock's
/// points, a hit of the ship awards nothing. Where the game begins anew the
/// score is zero instead.
pub proof fn law_score_by_hits(pre: Session, contacts: Contacts, children: Seq<Rock>)
    requires
        pre.rocks.len() <= usize::MAX,
    ensures
        ({
            let post = pre.frame_end(contacts, children);
            let hits = rock_round(pre, contacts).hits;
            let game_reset = pre.collided(contacts).particles_aged().swept(children).revival().game_reset;
            post.score == if game_reset {
                0
            } else {
                pre.score + awards(pre.rocks, hits)
            }
        }),
{
    law_rock_round_scores(pre, contacts);
    lemma_collided(pre, contacts);
}

impl Round {
    /// Whether no hit so far was the ship's.
    pub open spec fn ship_hit_nothing(self) -> bool {
        forall|k: int| 0 <= k < self.hits.len() ==> (#[trigger] self.hits[k]).collider != Collider::Ship
    }

    /// The saucers add no hit of the ship.
    proof fn lemma_meet_aliens_spares(self, rock: int, near: Seq<bool>, count: nat)
        requires
            self.ship_hit_nothing(),
        ensures
            self.meet_aliens(rock, near, count).ship_hit_nothing(),
        decreases count,
    {
        if count > 0 {
            self.lemma_meet_aliens_spares(rock, near, (count - 1) as nat);
        }
    }

    /// The shots add no hit of the ship.
    proof fn lemma_meet_shots_spares(self, rock: int, near: Seq<bool>, count: nat)
        requires
            self.ship_hit_nothing(),
        ensures
            self.meet_shots(rock, near, count).ship_hit_nothing(),
        decreases count,
    {
        if count > 0 {
            self.lemma_meet_shots_spares(rock, near, (count - 1) as nat);
        }
    }

    /// While the ship is out of play the round of the rocks adds no hit of
    /// the ship.
    proof fn lemma_run_spares(self, contacts: Contacts, count: nat)
        requires
            self.ship_hit_nothing(),
            !self.session.ship.status.alive(),
            count <= self.session.rocks.len(),
        ensures
            self.run(contacts, count).ship_hit_nothing(),
        decreases count,
    {
        if count > 0 {
            self.lemma_run_spares(contacts, (count - 1) as nat);
            self.lemma_run(contacts, (count - 1) as nat);
            let before = self.run(contacts, (count - 1) as nat);
            let rock = count - 1;
            let shipped = before.meet_ship(rock, contacts.rock_ship@[rock]);
            shipped.lemma_meet_aliens_spares(
                rock,
                contacts.rock_alien@[rock]@,
                before.session.aliens.len(),
            );
            let raided = shipped.meet_aliens(
                rock,
                contacts.rock_alien@[rock]@,
                before.session.aliens.len(),
            );
            raided.lemma_meet_shots_spares(
                rock,
                contacts.rock_projectile@[rock]@,
                before.session.projectiles.len(),
            );
        }
    }
}

impl Sortie {
    /// While the ship is out of play the round of the saucers marks no
    /// saucer.
    proof fn lemma_run_passes(self, near: Seq<bool>, count: nat)
        requires
            !self.session.ship.status.alive(),
            count <= self.session.aliens.len(),
        ensures
            self.run(near, count).session.ship == self.session.ship,
            forall|j: int|
                0 <= j < self.session.aliens.len() ==> (#[trigger] self.run(
                    near,
                    count,
                ).session.aliens[j]).removed == self.session.aliens[j].removed,
        decreases count,
    {
        if count > 0 {
            self.lemma_run_passes(near, (count - 1) as nat);
            self.lemma_run(near, (count - 1) as nat);
        }
    }
}

/// A saucer passes a ship out of play: whatever the contacts say, the round
/// of the saucers removes no saucer and leaves the ship as it was.
pub proof fn law_saucers_pass_ship_out_of_play(session: Session, contacts: Contacts)
    requires
        !session.ship.status.alive(),
    ensures
        alien_round(session, contacts).session.ship == session.ship,
        forall|j: int|
            0 <= j < session.aliens.len() ==> (#[trigger] alien_round(
                session,
                contacts,
            ).session.aliens[j]).removed == session.aliens[j].removed,
{
    let start = Sortie { session, orders: Seq::empty() };
    start.lemma_run_passes(contacts.alien_ship@, session.aliens.len());
}

/// A ship out of play collides with nothing: whatever the contacts say, no
/// rock is hit by it, and the three rounds of collisions leave it as it was.
pub proof fn law_ship_out_of_play(pre: Session, contacts: Contacts)
    requires
        !pre.ship.status.alive(),
    ensures
        rock_round(pre, contacts).ship_hit_nothing(),
        pre.collided(contacts).ship == pre.ship,
{
    let start = Round { session: pre, hits: Seq::empty() };
    start.lemma_run_spares(contacts, pre.rocks.len());
    lemma_collided(pre, contacts);
}

/// A rock that was hit is gone at the end of the frame: every hit names a
/// rock of the session, and the sweep did not keep that rock.
pub proof fn law_hit_rocks_leave(pre: Session, contacts: Contacts, report: FrameReport, k: int)
    requires
        pre.rocks.len() <= usize::MAX,
        report.describes(pre, contacts),
        0 <= k < report.hits@.len(),
    ensures
        report.hits@[k].rock < pre.rocks.len(),
        !report.sweep.rocks@[report.hits@[k].rock as int],
{
    let start = Round { session: pre, hits: Seq::empty() };
    start.lemma_run_marks(contacts, pre.rocks.len());
    lemma_collided(pre, contacts);
    let met = pre.collided(contacts);
    let rock = report.hits@[k].rock as int;
    assert(rock_round(pre, contacts).hits[k].rock < met.rocks.len());
    assert(met.rocks[rock].removed);
    assert((met.rocks + report.children@)[rock] == met.rocks[rock]);
}

/// Nothing that was destroyed is left at the end of a frame: no rock and no
/// saucer of the session is marked removed, and every shot and every
/// particle still flies.
pub proof fn law_nothing_destroyed_stays(pre: Session, contacts: Contacts, children: Seq<Rock>)
    ensures
        forall|i: int|
            0 <= i < pre.frame_end(contacts, children).rocks.len() ==> !(
            #[trigger] pre.frame_end(contacts, children).rocks[i]).removed,
        forall|i: int|
            0 <= i < pre.frame_end(contacts, children).aliens.len() ==> !(
            #[trigger] pre.frame_end(contacts, children).aliens[i]).removed,
        forall|i: int|
            0 <= i < pre.frame_end(contacts, children).projectiles.len() ==> (
            #[trigger] pre.frame_end(contacts, children).projectiles[i]).live(),
        forall|i: int|
            0 <= i < pre.frame_end(contacts, children).particles.len() ==> (
            #[trigger] pre.frame_end(contacts, children).particles[i]).live(),
{
    let met = pre.collided(contacts).particles_aged();
    lemma_swept_clean(met, children);
    let swept = met.swept(children);
    let revived = swept.revived();
    let post = pre.frame_end(contacts, children);
    assert(post.aliens == revived.aliens + revived.arrivals());
    assert(revived.aliens == swept.aliens);
    assert forall|i: int| 0 <= i < post.aliens.len() implies !(#[trigger] post.aliens[i]).removed by {
        if i < swept.aliens.len() {
            assert(post.aliens[i] == swept.aliens[i]);
        }
    }
}

/// The pieces that hits leave are the pieces of one more hit after the
/// pieces of the hits before it.
proof fn lemma_broken_prefix(rocks: Seq<Rock>, hits: Seq<RockHit>, k: int)
    requires
        0 <= k < hits.len(),
    ensures
        broken_sizes(rocks, hits.take(k + 1)) == broken_sizes(rocks, hits.take(k)) + piece_sizes(
            rocks[hits[k].rock as int].size,
        ),
        broken_sizes(rocks, hits.take(k + 1)).len() <= broken_sizes(rocks, hits).len(),
        forall|i: int|
            0 <= i < broken_sizes(rocks, hits.take(k + 1)).len() ==> broken_sizes(
                rocks,
                hits.take(k + 1),
            )[i] == broken_sizes(rocks, hits)[i],
    decreases hits.len() - k,
{
    assert(hits.take(k + 1).drop_last() =~= hits.take(k));
    if k + 1 == hits.len() {
        assert(hits.take(k + 1) =~= hits);
    } else {
        lemma_broken_prefix(rocks, hits, k + 1);
        assert(hits.take(k + 2).drop_last() =~= hits.take(k + 1));
    }
}

/// Every hit breaks its rock by the one rule: the pieces of hit `k` stand
/// among the frame's pieces after those of the hits before it, and they are
/// two medium rocks for a big rock, two small rocks for a medium one, and
/// none for a small one.
pub proof fn law_fragmentation(rocks: Seq<Rock>, hits: Seq<RockHit>, children: Seq<Rock>, k: int)
    requires
        fresh_rocks(children, broken_sizes(rocks, hits)),
        0 <= k < hits.len(),
    ensures
        ({
            let from = broken_sizes(rocks, hits.take(k)).len() as int;
            match rocks[hits[k].rock as int].size {
                RockSize::Big => from + 2 <= children.len() && children[from].size
                    == RockSize::Medium && children[from + 1].size == RockSize::Medium
                    && !children[from].removed && !children[from + 1].removed
                    && broken_sizes(rocks, hits.take(k + 1)).len() == from + 2,
                RockSize::Medium => from + 2 <= children.len() && children[from].size
                    == RockSize::Small && children[from + 1].size == RockSize::Small
                    && !children[from].removed && !children[from + 1].removed
                    && broken_sizes(rocks, hits.take(k + 1)).len() == from + 2,
                RockSize::Small => broken_sizes(rocks, hits.take(k + 1)).len() == from,
            }
        }),
{
    lemma_broken_prefix(rocks, hits, k);
    let from = broken_sizes(rocks, hits.take(k)).len() as int;
    let upto = broken_sizes(rocks, hits.take(k + 1));
    let all = broken_sizes(rocks, hits);
    if upto.len() > from {
        assert(upto[from] == all[from]);
        assert(upto[from + 1] == all[from + 1]);
        assert(children[from].size == all[from]);
        assert(children[from + 1].size == all[from + 1]);
    }
}

/// The score never falls in a frame, but where the game begins anew: then the
/// score is back at zero and the lives are back at three.
pub proof fn law_score(pre: Session, contacts: Contacts, children: Seq<Rock>)
    ensures
        ({
            let post = pre.frame_end(contacts, children);
            let game_reset = pre.collided(contacts).particles_aged().swept(children).revival().game_reset;
            &&& !game_reset ==> post.score >= pre.score
            &&& game_reset ==> post.score == 0 && post.lifes == 3
        }),
{
    lemma_collided(pre, contacts);
}

/// Whether one call of the crate that does not begin the game anew can turn
/// `earlier` into `later`: a tick of the clock, the player's input, a
/// saucer's shot, a burst of debris, the start of a wave, the end of a frame,
/// a round of collisions, the aging of the debris, a sweep, the ship's return at the
/// cost of a life, the working of the game's pace, or a whole frame's update
/// in which there was a life to return with.
pub open spec fn moves_on(earlier: Session, later: Session) -> bool {
    ||| exists|delta: u64| later == #[trigger] earlier.ticked(delta)
    ||| exists|thrust: bool, fire: bool| later == #[trigger] earlier.steered(thrust, fire)
    ||| later == earlier.alien_fired()
    ||| exists|wreck: Wreck, lifetimes: Seq<u64>|
        later == #[trigger] earlier.scattered(wreck, lifetimes)
    ||| exists|rocks: Seq<Rock>| later == #[trigger] earlier.wave_begun(rocks)
    ||| later.collided_from(earlier)
    ||| later == earlier.particles_aged()
    ||| exists|children: Seq<Rock>| later == #[trigger] earlier.swept(children)
    ||| exists|report: FrameReport, supplies: Supplies, random: Xoshiro256PlusPlus|
        later == #[trigger] earlier.acted_out(report, supplies, random)
    ||| later == earlier.level_reset() && !earlier.out_of_lives()
    ||| later == earlier.revived() && !earlier.revival().game_reset
    ||| later == earlier.progressed()
    ||| exists|contacts: Contacts, children: Seq<Rock>|
        later == #[trigger] earlier.frame_end(contacts, children) && !earlier.collided(
            contacts,
        ).particles_aged().swept(children).revival().game_reset
}

/// Through any run of calls none of which begins the game anew, the score
/// never falls.
pub proof fn law_score_over_time(history: Seq<Session>, i: int, j: int)
    requires
        forall|k: int|
            0 <= k < history.len() - 1 ==> moves_on(#[trigger] history[k], history[k + 1]),
        0 <= i <= j < history.len(),
    ensures
        history[i].score <= history[j].score,
    decreases j - i,
{
    if i < j {
        law_score_over_time(history, i, j - 1);
        let earlier = history[j - 1];
        let later = history[j];
        assert(moves_on(earlier, later));
        if exists|report: FrameReport, supplies: Supplies, random: Xoshiro256PlusPlus|
            later == #[trigger] earlier.acted_out(report, supplies, random) {
            let (report, supplies, random) = choose|
                report: FrameReport,
                supplies: Supplies,
                random: Xoshiro256PlusPlus,
            |
                later == #[trigger] earlier.acted_out(report, supplies, random);
            law_finish_keeps(earlier, report, supplies, random);
        }
        if exists|contacts: Contacts, children: Seq<Rock>|
            later == #[trigger] earlier.frame_end(contacts, children) && !earlier.collided(
                contacts,
            ).particles_aged().swept(children).revival().game_reset {
            let (contacts, children) = choose|contacts: Contacts, children: Seq<Rock>|
                later == #[trigger] earlier.frame_end(contacts, children) && !earlier.collided(
                    contacts,
                ).particles_aged().swept(children).revival().game_reset;
            law_score(earlier, contacts, children);
        }
    }
}

impl Round {
    /// One rock's turn is collisions alone.
    proof fn lemma_meet_all(self, rock: int, contacts: Contacts)
        requires
            0 <= rock < self.session.rocks.len(),
        ensures
            self.meet_all(rock, contacts).session.collided_from(self.session),
            self.session.ship.status.alive() && contacts.rock_ship@[rock] ==> !self.meet_all(
                rock,
                contacts,
            ).session.ship.status.alive(),
    {
        let shipped = self.meet_ship(rock, contacts.rock_ship@[rock]);
        shipped.lemma_meet_aliens(rock, contacts.rock_alien@[rock]@, self.session.aliens.len());
        let raided = shipped.meet_aliens(
            rock,
            contacts.rock_alien@[rock]@,
            self.session.aliens.len(),
        );
        raided.lemma_meet_shots(
            rock,
            contacts.rock_projectile@[rock]@,
            self.session.projectiles.len(),
        );
    }

    /// The ship does not outlast the turn of a rock that touches it.
    proof fn lemma_run_strikes(self, contacts: Contacts, count: nat, rock: int)
        requires
            0 <= rock < count <= self.session.rocks.len(),
            contacts.rock_ship@[rock],
        ensures
            !self.run(contacts, count).session.ship.status.alive(),
        decreases count,
    {
        let before = self.run(contacts, (count - 1) as nat);
        self.lemma_run(contacts, (count - 1) as nat);
        before.lemma_meet_all(count - 1, contacts);
        if count - 1 > rock {
            self.lemma_run_strikes(contacts, (count - 1) as nat, rock);
        }
    }
}

/// The rounds of the shots and of the saucers leave a ship out of play as it
/// is.
proof fn lemma_dead_stays_dead(struck: Session, contacts: Contacts)
    ensures
        shot_round(struck, contacts).collided_from(struck),
        alien_round(shot_round(struck, contacts), contacts).session.collided_from(
            shot_round(struck, contacts),
        ),
        !struck.ship.status.alive() ==> alien_round(
            shot_round(struck, contacts),
            contacts,
        ).session.ship == struck.ship,
        !shot_round(struck, contacts).ship.status.alive() ==> alien_round(
            shot_round(struck, contacts),
            contacts,
        ).session.ship == shot_round(struck, contacts).ship,
{
    struck.lemma_shots_fly(contacts, struck.projectiles.len());
    let flown = shot_round(struck, contacts);
    let sortie = Sortie { session: flown, orders: Seq::empty() };
    sortie.lemma_run(contacts.alien_ship@, flown.aliens.len());
}

/// A rock that touches the ship destroys it: a ship in play that any rock
/// touches is out of play at the end of the frame, destroyed at the frame's
/// time and due back once the revive delay has passed.
pub proof fn law_ship_struck(pre: Session, contacts: Contacts, children: Seq<Rock>, rock: int)
    requires
        pre.ship.status.alive(),
        pre.now + REVIVE_DELAY <= u64::MAX,
        0 <= rock < pre.rocks.len(),
        contacts.rock_ship@[rock],
    ensures
        pre.frame_end(contacts, children).ship.status == ShipStatus::Dead(DeathTime::at(pre.now)),
{
    let start = Round { session: pre, hits: Seq::empty() };
    start.lemma_run_strikes(contacts, pre.rocks.len(), rock);
    lemma_collided(pre, contacts);
    lemma_dead_stays_dead(rock_round(pre, contacts).session, contacts);
}

impl Round {
    /// A rock's meeting with the saucers leaves the shots alone, and leaves
    /// alone a saucer that the rock does not touch.
    proof fn lemma_meet_aliens_leaves(self, rock: int, near: Seq<bool>, count: nat, alien: int)
        requires
            0 <= rock < self.session.rocks.len(),
            count <= self.session.aliens.len(),
            0 <= alien < self.session.aliens.len(),
            alien < count ==> !near[alien],
        ensures
            self.meet_aliens(rock, near, count).session.projectiles == self.session.projectiles,
            self.meet_aliens(rock, near, count).session.aliens[alien] == self.session.aliens[alien],
        decreases count,
    {
        if count > 0 {
            self.lemma_meet_aliens_leaves(rock, near, (count - 1) as nat, alien);
            self.lemma_meet_aliens(rock, near, (count - 1) as nat);
        }
    }

    /// A rock's meeting with the shots leaves the saucers alone, and leaves
    /// alone a shot that the rock does not touch.
    proof fn lemma_meet_shots_leaves(self, rock: int, near: Seq<bool>, count: nat, shot: int)
        requires
            0 <= rock < self.session.rocks.len(),
            count <= self.session.projectiles.len(),
            0 <= shot < self.session.projectiles.len(),
            shot < count ==> !near[shot],
        ensures
            self.meet_shots(rock, near, count).session.aliens == self.session.aliens,
            self.meet_shots(rock, near, count).session.projectiles[shot]
                == self.session.projectiles[shot],
        decreases count,
    {
        if count > 0 {
            self.lemma_meet_shots_leaves(rock, near, (count - 1) as nat, shot);
            self.lemma_meet_shots(rock, near, (count - 1) as nat);
        }
    }

    /// A rock's meeting with the saucers leaves the shots alone.
    proof fn lemma_meet_aliens_keeps_shots(self, rock: int, near: Seq<bool>, count: nat)
        requires
            0 <= rock < self.session.rocks.len(),
            count <= self.session.aliens.len(),
        ensures
            self.meet_aliens(rock, near, count).session.projectiles == self.session.projectiles,
        decreases count,
    {
        if count > 0 {
            self.lemma_meet_aliens_keeps_shots(rock, near, (count - 1) as nat);
            self.lemma_meet_aliens(rock, near, (count - 1) as nat);
        }
    }

    /// A rock's meeting with the shots leaves the saucers alone.
    proof fn lemma_meet_shots_keeps_aliens(self, rock: int, near: Seq<bool>, count: nat)
        requires
            0 <= rock < self.session.rocks.len(),
            count <= self.session.projectiles.len(),
        ensures
            self.meet_shots(rock, near, count).session.aliens == self.session.aliens,
        decreases count,
    {
        if count > 0 {
            self.lemma_meet_shots_keeps_aliens(rock, near, (count - 1) as nat);
            self.lemma_meet_shots(rock, near, (count - 1) as nat);
        }
    }

    /// The round of the rocks leaves alone a shot that no rock touches.
    proof fn lemma_run_leaves_shot(self, contacts: Contacts, count: nat, shot: int)
        requires
            count <= self.session.rocks.len(),
            0 <= shot < self.session.projectiles.len(),
            forall|i: int| 0 <= i < count ==> !(#[trigger] contacts.rock_projectile@[i])@[shot],
        ensures
            self.run(contacts, count).session.projectiles[shot] == self.session.projectiles[shot],
        decreases count,
    {
        if count > 0 {
            self.lemma_run_leaves_shot(contacts, (count - 1) as nat, shot);
            self.lemma_run(contacts, (count - 1) as nat);
            let before = self.run(contacts, (count - 1) as nat);
            let rock = count - 1;
            let shipped = before.meet_ship(rock, contacts.rock_ship@[rock]);
            let aliens = before.session.aliens.len();
            let shots = before.session.projectiles.len();
            assert(!contacts.rock_projectile@[rock]@[shot]);
            shipped.lemma_meet_aliens_keeps_shots(rock, contacts.rock_alien@[rock]@, aliens);
            shipped.lemma_meet_aliens(rock, contacts.rock_alien@[rock]@, aliens);
            let raided = shipped.meet_aliens(rock, contacts.rock_alien@[rock]@, aliens);
            raided.lemma_meet_shots_leaves(rock, contacts.rock_projectile@[rock]@, shots, shot);
        }
    }

    /// The round of the rocks leaves alone a saucer that no rock touches.
    proof fn lemma_run_leaves_alien(self, contacts: Contacts, count: nat, alien: int)
        requires
            count <= self.session.rocks.len(),
            0 <= alien < self.session.aliens.len(),
            forall|i: int| 0 <= i < count ==> !(#[trigger] contacts.rock_alien@[i])@[alien],
        ensures
            self.run(contacts, count).session.aliens[alien] == self.session.aliens[alien],
        decreases count,
    {
        if count > 0 {
            self.lemma_run_leaves_alien(contacts, (count - 1) as nat, alien);
            self.lemma_run(contacts, (count - 1) as nat);
            let before = self.run(contacts, (count - 1) as nat);
            let rock = count - 1;
            let shipped = before.meet_ship(rock, contacts.rock_ship@[rock]);
            let aliens = before.session.aliens.len();
            let shots = before.session.projectiles.len();
            assert(!contacts.rock_alien@[rock]@[alien]);
            shipped.lemma_meet_aliens_leaves(rock, contacts.rock_alien@[rock]@, aliens, alien);
            shipped.lemma_meet_aliens(rock, contacts.rock_alien@[rock]@, aliens);
            let raided = shipped.meet_aliens(rock, contacts.rock_alien@[rock]@, aliens);
            raided.lemma_meet_shots_keeps_aliens(rock, contacts.rock_projectile@[rock]@, shots);
        }
    }
}

impl Session {
    /// A shot's meeting with the saucers leaves the other shots alone.
    proof fn lemma_shot_meets_aliens_leaves(
        self,
        shot: int,
        armed: bool,
        near: Seq<bool>,
        count: nat,
        other: int,
    )
        requires
            0 <= shot < self.projectiles.len(),
            0 <= other < self.projectiles.len(),
            other != shot,
            count <= self.aliens.len(),
        ensures
            self.shot_meets_aliens(shot, armed, near, count).projectiles[other]
                == self.projectiles[other],
        decreases count,
    {
        if count > 0 {
            self.lemma_shot_meets_aliens_leaves(shot, armed, near, (count - 1) as nat, other);
            self.lemma_shot_meets_aliens(shot, armed, near, (count - 1) as nat);
        }
    }
}

impl Session {
    /// One shot's turn is collisions alone. It leaves the other shots alone,
    /// and a ship in play that the shot reaches does not outlast it.
    proof fn lemma_shot_flies(self, shot: int, contacts: Contacts, other: int)
        requires
            0 <= shot < self.projectiles.len(),
            0 <= other < self.projectiles.len(),
            other != shot,
        ensures
            self.shot_flies(shot, contacts).collided_from(self),
            self.shot_flies(shot, contacts).projectiles[other] == self.projectiles[other],
            self.projectiles[shot].state is Alive && contacts.projectile_ship@[shot]
                ==> !self.shot_flies(shot, contacts).ship.status.alive(),
    {
        let passed = self.shot_passes_ship(shot, contacts.projectile_ship@[shot]);
        let armed = self.projectiles[shot].armed(self.now);
        let near = contacts.projectile_alien@[shot]@;
        passed.lemma_shot_meets_aliens(shot, armed, near, self.aliens.len());
        passed.lemma_shot_meets_aliens_leaves(shot, armed, near, self.aliens.len(), other);
    }

    /// One shot's turn leaves alone a saucer that the shot does not touch.
    proof fn lemma_shot_flies_leaves_alien(self, shot: int, contacts: Contacts, alien: int)
        requires
            0 <= shot < self.projectiles.len(),
            0 <= alien < self.aliens.len(),
            !contacts.projectile_alien@[shot]@[alien],
        ensures
            self.shot_flies(shot, contacts).aliens[alien] == self.aliens[alien],
    {
        let passed = self.shot_passes_ship(shot, contacts.projectile_ship@[shot]);
        let armed = self.projectiles[shot].armed(self.now);
        let near = contacts.projectile_alien@[shot]@;
        passed.lemma_shot_meets_aliens_alien(shot, armed, near, self.aliens.len(), alien);
    }

    /// A shot's meeting with the saucers leaves alone a saucer that the shot
    /// does not touch.
    proof fn lemma_shot_meets_aliens_alien(
        self,
        shot: int,
        armed: bool,
        near: Seq<bool>,
        count: nat,
        alien: int,
    )
        requires
            0 <= shot < self.projectiles.len(),
            count <= self.aliens.len(),
            0 <= alien < self.aliens.len(),
            alien < count ==> !near[alien],
        ensures
            self.shot_meets_aliens(shot, armed, near, count).aliens[alien] == self.aliens[alien],
        decreases count,
    {
        if count > 0 {
            self.lemma_shot_meets_aliens_alien(shot, armed, near, (count - 1) as nat, alien);
            self.lemma_shot_meets_aliens(shot, armed, near, (count - 1) as nat);
        }
    }

    /// The round of the shots leaves a shot alone until its turn.
    proof fn lemma_shots_fly_before(self, contacts: Contacts, count: nat, shot: int)
        requires
            count <= shot < self.projectiles.len(),
        ensures
            self.shots_fly(contacts, count).projectiles[shot] == self.projectiles[shot],
        decreases count,
    {
        if count > 0 {
            self.lemma_shots_fly_before(contacts, (count - 1) as nat, shot);
            self.lemma_shots_fly(contacts, (count - 1) as nat);
            self.shots_fly(contacts, (count - 1) as nat).lemma_shot_flies(count - 1, contacts, shot);
        }
    }

    /// A ship does not outlast the turn of a flying shot that reaches it.
    proof fn lemma_shots_fly_strikes(self, contacts: Contacts, count: nat, shot: int)
        requires
            0 <= shot < count <= self.projectiles.len(),
            self.projectiles[shot].state is Alive,
            contacts.projectile_ship@[shot],
        ensures
            !self.shots_fly(contacts, count).ship.status.alive(),
        decreases count,
    {
        let before = self.shots_fly(contacts, (count - 1) as nat);
        self.lemma_shots_fly(contacts, (count - 1) as nat);
        if count - 1 > shot {
            self.lemma_shots_fly_strikes(contacts, (count - 1) as nat, shot);
            before.lemma_shot_flies(count - 1, contacts, shot);
        } else {
            self.lemma_shots_fly_before(contacts, (count - 1) as nat, shot);
            if self.projectiles.len() > 1 {
                let other = if shot == 0 {
                    1int
                } else {
                    0int
                };
                before.lemma_shot_flies(shot, contacts, other);
            } else {
                let passed = before.shot_passes_ship(shot, contacts.projectile_ship@[shot]);
                passed.lemma_shot_meets_aliens(
                    shot,
                    before.projectiles[shot].armed(before.now),
                    contacts.projectile_alien@[shot]@,
                    before.aliens.len(),
                );
            }
        }
    }

    /// The round of the shots leaves alone a saucer that no shot touches.
    proof fn lemma_shots_fly_leaves_alien(self, contacts: Contacts, count: nat, alien: int)
        requires
            count <= self.projectiles.len(),
            0 <= alien < self.aliens.len(),
            forall|k: int| 0 <= k < count ==> !(#[trigger] contacts.projectile_alien@[k])@[alien],
        ensures
            self.shots_fly(contacts, count).aliens[alien] == self.aliens[alien],
        decreases count,
    {
        if count > 0 {
            self.lemma_shots_fly_leaves_alien(contacts, (count - 1) as nat, alien);
            self.lemma_shots_fly(contacts, (count - 1) as nat);
            assert(!contacts.projectile_alien@[count - 1]@[alien]);
            self.shots_fly(contacts, (count - 1) as nat).lemma_shot_flies_leaves_alien(
                count - 1,
                contacts,
                alien,
            );
        }
    }
}

impl Sortie {
    /// The round of the saucers leaves a saucer alone until its turn.
    proof fn lemma_run_before(self, near: Seq<bool>, count: nat, alien: int)
        requires
            count <= alien < self.session.aliens.len(),
        ensures
            self.run(near, count).session.aliens[alien] == self.session.aliens[alien],
        decreases count,
    {
        if count > 0 {
            self.lemma_run_before(near, (count - 1) as nat, alien);
            self.lemma_run(near, (count - 1) as nat);
        }
    }

    /// A ship does not outlast the turn of a saucer in play that touches it.
    proof fn lemma_run_strikes(self, near: Seq<bool>, count: nat, alien: int)
        requires
            0 <= alien < count <= self.session.aliens.len(),
            !self.session.aliens[alien].removed,
            near[alien],
        ensures
            !self.run(near, count).session.ship.status.alive(),
        decreases count,
    {
        self.lemma_run(near, (count - 1) as nat);
        if count - 1 > alien {
            self.lemma_run_strikes(near, (count - 1) as nat, alien);
        } else {
            self.lemma_run_before(near, (count - 1) as nat, alien);
        }
    }
}

/// A shot that reaches the ship destroys it: a ship in play within reach of a
/// live shot that no rock touches in the frame is out of play at the end of
/// the frame, destroyed at the frame's time and due back once the revive
/// delay has passed.
pub proof fn law_ship_shot(pre: Session, contacts: Contacts, children: Seq<Rock>, shot: int)
    requires
        pre.ship.status.alive(),
        pre.now + REVIVE_DELAY <= u64::MAX,
        0 <= shot < pre.projectiles.len(),
        pre.projectiles[shot].live(),
        contacts.projectile_ship@[shot],
        forall|i: int|
            0 <= i < pre.rocks.len() ==> !(#[trigger] contacts.rock_projectile@[i])@[shot],
    ensures
        pre.frame_end(contacts, children).ship.status == ShipStatus::Dead(DeathTime::at(pre.now)),
{
    let start = Round { session: pre, hits: Seq::empty() };
    start.lemma_run_leaves_shot(contacts, pre.rocks.len(), shot);
    lemma_collided(pre, contacts);
    let struck = rock_round(pre, contacts).session;
    struck.lemma_shots_fly_strikes(contacts, struck.projectiles.len(), shot);
    lemma_dead_stays_dead(struck, contacts);
}

/// A saucer that touches the ship destroys it: a ship in play that a saucer
/// in play touches, where no rock and no shot touches that saucer in the
/// frame, is out of play at the end of the frame, destroyed at the frame's
/// time and due back once the revive delay has passed.
pub proof fn law_ship_rammed(pre: Session, contacts: Contacts, children: Seq<Rock>, alien: int)
    requires
        pre.ship.status.alive(),
        pre.now + REVIVE_DELAY <= u64::MAX,
        0 <= alien < pre.aliens.len(),
        !pre.aliens[alien].removed,
        contacts.alien_ship@[alien],
        forall|i: int| 0 <= i < pre.rocks.len() ==> !(#[trigger] contacts.rock_alien@[i])@[alien],
        forall|k: int|
            0 <= k < pre.projectiles.len() ==> !(#[trigger] contacts.projectile_alien@[k])@[alien],
    ensures
        pre.frame_end(contacts, children).ship.status == ShipStatus::Dead(DeathTime::at(pre.now)),
{
    let start = Round { session: pre, hits: Seq::empty() };
    start.lemma_run_leaves_alien(contacts, pre.rocks.len(), alien);
    lemma_collided(pre, contacts);
    let struck = rock_round(pre, contacts).session;
    struck.lemma_shots_fly_leaves_alien(contacts, struck.projectiles.len(), alien);
    lemma_dead_stays_dead(struck, contacts);
    let flown = shot_round(struck, contacts);
    let sortie = Sortie { session: flown, orders: Seq::empty() };
    sortie.lemma_run_strikes(contacts.alien_ship@, flown.aliens.len(), alien);
}

/// A ship in play that is destroyed in a frame is out of play from the
/// frame's time on, due back once the revive delay has passed, and the frame
/// reports its destruction. It does not come back in the frame in which it
/// was destroyed.
pub proof fn law_ship_destroyed(pre: Session, contacts: Contacts, children: Seq<Rock>)
    requires
        pre.ship.status.alive(),
        pre.now + REVIVE_DELAY <= u64::MAX,
    ensures
        ({
            let post = pre.frame_end(contacts, children);
            let revival = pre.collided(contacts).particles_aged().swept(children).revival();
            &&& !revival.respawned
            &&& !revival.game_reset
            &&& post.lifes == pre.lifes
            &&& post.ship.status.alive() || post.ship.status == ShipStatus::Dead(
                DeathTime { death_time: pre.now, death_timer: (pre.now + REVIVE_DELAY) as u64 },
            )
            &&& revival.ship_destroyed == !post.ship.status.alive()
        }),
{
    lemma_collided(pre, contacts);
}

/// A ship out of play comes back in the first frame whose time lies past
/// the moment for which its return was set, and in no frame before it: until
/// then nothing changes its record. When it comes back it costs a life, or
/// the game where no life is left.
pub proof fn law_ship_returns(
    pre: Session,
    contacts: Contacts,
    children: Seq<Rock>,
    record: DeathTime,
)
    requires
        pre.ship.status == ShipStatus::Dead(record),
    ensures
        ({
            let post = pre.frame_end(contacts, children);
            let revival = pre.collided(contacts).particles_aged().swept(children).revival();
            &&& post.ship.status.alive() <==> pre.now > record.death_timer
            &&& !post.ship.status.alive() ==> post.ship == pre.ship && post.lifes == pre.lifes
            &&& revival.respawned == post.ship.status.alive()
            &&& revival.game_reset == (post.ship.status.alive() && pre.lifes == 0)
            &&& post.ship.status.alive() && pre.lifes > 0 ==> post.lifes == pre.lifes - 1
        }),
{
    lemma_collided(pre, contacts);
}

/// The heartbeat never slows while a wave lasts: the longer the wave, the
/// fewer frames lie between two beats, from 144 at its start down to 18 and
/// no fewer.
pub proof fn law_heartbeat_quickens(sooner: u64, later: u64)
    requires
        sooner <= later,
    ensures
        18 <= beat_period(later) <= beat_period(sooner) <= 144,
{
    assert(rounded_seconds(sooner) <= rounded_seconds(later));
}

/// A wave never shrinks as the score grows, and has twenty rocks at least.
pub proof fn law_wave_grows(lower: nat, higher: nat)
    requires
        lower <= higher,
    ensures
        20 <= wave_size(lower) <= wave_size(higher),
{
}

/// The two kinds of saucer enter by themselves: each of the two score steps
/// is judged by its own quotients, so that a score which passes both in one
/// frame brings both saucers, the big one first.
pub proof fn law_arrivals(session: Session)
    ensures
        session.arrivals() == if session.big_alien_due() && session.small_alien_due() {
            seq![Alien::fresh(AlienSize::Big), Alien::fresh(AlienSize::Small)]
        } else if session.big_alien_due() {
            seq![Alien::fresh(AlienSize::Big)]
        } else if session.small_alien_due() {
            seq![Alien::fresh(AlienSize::Small)]
        } else {
            Seq::empty()
        },
{
    assert(session.arrivals() =~= if session.big_alien_due() && session.small_alien_due() {
        seq![Alien::fresh(AlienSize::Big), Alien::fresh(AlienSize::Small)]
    } else if session.big_alien_due() {
        seq![Alien::fresh(AlienSize::Big)]
    } else if session.small_alien_due() {
        seq![Alien::fresh(AlienSize::Small)]
    } else {
        Seq::empty()
    });
}

} // verus!
