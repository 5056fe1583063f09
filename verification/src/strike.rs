//! Rocks against everything else: the first round of a frame's collisions.
//!
//! Each rock in turn is tried against the ship, then against every saucer,
//! then against every shot. Whatever touches a rock destroys it, as often as
//! it is touched: a rock that two shots reach in one frame is hit twice and
//! breaks twice.

use vstd::prelude::*;
use crate::contact::Contacts;
use crate::clock::REVIVE_DELAY;
use crate::collision::lemma_collided;
use crate::laws::law_rock_round_scores;
use rand_xoshiro::Xoshiro256PlusPlus;
use crate::rock::{
    fresh_rocks, hit_rock, piece_sizes, pieces_drawn, Rock, RockSize, TOP_AWARD,
};
use crate::projectile::ProjectileState;
use crate::ship::{DeathTime, ShipStatus};
use crate::state::{Session, State};

verus! {

/// What hit a rock. A saucer or a shot is named by its index in the
/// session's list at the start of the frame.
#[derive(Clone, Copy, Debug, PartialEq, Eq, Structural)]
pub enum Collider {
    Ship,
    Alien(usize),
    Projectile(usize),
}

/// One destruction of a rock. The rock is named by its index in the
/// session's list at the start of the frame.
#[derive(Clone, Copy, Debug, PartialEq, Eq, Structural)]
pub struct RockHit {
    pub rock: usize,
    pub collider: Collider,
}

/// What the round leaves behind.
pub struct Wreckage {
    /// The hits, in the order in which they fell.
    pub hits: Vec<RockHit>,
    /// The pieces of the rocks that broke, in the order of the hits, two for
    /// each hit on a rock that is not of the smallest size. They join the
    /// session's rocks when the frame is swept.
    pub children: Vec<Rock>,
}

/// A session in the middle of the round, with the hits so far.
pub struct Round {
    pub session: Session,
    pub hits: Seq<RockHit>,
}

impl Round {
    /// The round after `collider` has destroyed rock `rock`.
    pub open spec fn strike(self, rock: int, collider: Collider) -> Round {
        Round {
            session: self.session.rock_removed(rock),
            hits: self.hits.push(RockHit { rock: rock as usize, collider }),
        }
    }

    /// The round after rock `rock` was tried against the ship: a ship in play
    /// that the rock touches is destroyed, and so is the rock.
    pub open spec fn meet_ship(self, rock: int, near: bool) -> Round {
        if self.session.ship.status.alive() && near {
            Round { session: self.session.ship_destroyed(), ..self }.strike(rock, Collider::Ship)
        } else {
            self
        }
    }

    /// The round after rock `rock` was tried against saucer `alien`: a saucer
    /// still in play that the rock touches is removed, the rock's points are
    /// awarded, and the rock is destroyed.
    pub open spec fn meet_alien(self, rock: int, alien: int, near: bool) -> Round {
        if !self.session.aliens[alien].removed && near {
            Round {
                session: self.session.alien_removed(alien).awarded(
                    self.session.rocks[rock].size.score(),
                ),
                ..self
            }.strike(rock, Collider::Alien(alien as usize))
        } else {
            self
        }
    }

    /// The round after rock `rock` was tried against the first `count`
    /// saucers, in order.
    pub open spec fn meet_aliens(self, rock: int, near: Seq<bool>, count: nat) -> Round
        decreases count,
    {
        if count == 0 {
            self
        } else {
            self.meet_aliens(rock, near, (count - 1) as nat).meet_alien(
                rock,
                count - 1,
                near[count - 1],
            )
        }
    }

    /// The round after rock `rock` was tried against shot `shot`: a live shot
    /// that touches the rock is spent, the rock's points are awarded, and the
    /// rock is destroyed.
    pub open spec fn meet_shot(self, rock: int, shot: int, near: bool) -> Round {
        if self.session.projectiles[shot].live() && near {
            Round {
                session: self.session.shot_set(shot, ProjectileState::Dead).awarded(
                    self.session.rocks[rock].size.score(),
                ),
                ..self
            }.strike(rock, Collider::Projectile(shot as usize))
        } else {
            self
        }
    }

    /// The round after rock `rock` was tried against the first `count` shots,
    /// in order.
    pub open spec fn meet_shots(self, rock: int, near: Seq<bool>, count: nat) -> Round
        decreases count,
    {
        if count == 0 {
            self
        } else {
            self.meet_shots(rock, near, (count - 1) as nat).meet_shot(
                rock,
                count - 1,
                near[count - 1],
            )
        }
    }

    /// The round after rock `rock` was tried against the ship, every saucer
    /// and every shot.
    pub open spec fn meet_all(self, rock: int, contacts: Contacts) -> Round {
        self.meet_ship(rock, contacts.rock_ship@[rock]).meet_aliens(
            rock,
            contacts.rock_alien@[rock]@,
            self.session.aliens.len(),
        ).meet_shots(rock, contacts.rock_projectile@[rock]@, self.session.projectiles.len())
    }

    /// The round after the first `count` rocks had their turn, in order.
    pub open spec fn run(self, contacts: Contacts, count: nat) -> Round
        decreases count,
    {
        if count == 0 {
            self
        } else {
            self.run(contacts, (count - 1) as nat).meet_all(count - 1, contacts)
        }
    }
}

/// The whole round on `session`.
pub open spec fn rock_round(session: Session, contacts: Contacts) -> Round {
    Round { session, hits: Seq::empty() }.run(contacts, session.rocks.len())
}

/// The sizes of the pieces that the hits `hits` on the rocks `rocks` leave,
/// in the order of the hits.
pub open spec fn broken_sizes(rocks: Seq<Rock>, hits: Seq<RockHit>) -> Seq<RockSize>
    decreases hits.len(),
{
    if hits.len() == 0 {
        Seq::empty()
    } else {
        broken_sizes(rocks, hits.drop_last()) + piece_sizes(rocks[hits.last().rock as int].size)
    }
}

/// The points that the hit `hit` on the rocks `rocks` awards: those of the
/// rock, unless it was the ship that hit it.
pub open spec fn award_of(rocks: Seq<Rock>, hit: RockHit) -> nat {
    match hit.collider {
        Collider::Ship => 0,
        Collider::Alien(_) => rocks[hit.rock as int].size.score(),
        Collider::Projectile(_) => rocks[hit.rock as int].size.score(),
    }
}

/// The points that the hits `hits` on the rocks `rocks` award together.
pub open spec fn awards(rocks: Seq<Rock>, hits: Seq<RockHit>) -> nat
    decreases hits.len(),
{
    if hits.len() == 0 {
        0
    } else {
        awards(rocks, hits.drop_last()) + award_of(rocks, hits.last())
    }
}

/// The pieces that the hits `hits` on the rocks `rocks` leave when the seeds
/// are drawn from `random` hit by hit, and the stream as the draws leave it.
pub open spec fn children_drawn(rocks: Seq<Rock>, hits: Seq<RockHit>, random: Xoshiro256PlusPlus)
    -> (Seq<Rock>, Xoshiro256PlusPlus)
    decreases hits.len(),
{
    if hits.len() == 0 {
        (Seq::empty(), random)
    } else {
        let before = children_drawn(rocks, hits.drop_last(), random);
        let broken = pieces_drawn(rocks[hits.last().rock as int].size, before.1);
        (before.0 + broken.0, broken.1)
    }
}

/// Whether `state` and `wreckage` are at the point `round` of a round that
/// began on `pre` with the random stream `stream`.
spec fn tracks(
    state: State,
    wreckage: Wreckage,
    round: Round,
    pre: Session,
    stream: Xoshiro256PlusPlus,
) -> bool {
    &&& wreckage.children@ == children_drawn(pre.rocks, round.hits, stream).0
    &&& state.random == children_drawn(pre.rocks, round.hits, stream).1
    &&& state@ == round.session
    &&& wreckage.hits@ == round.hits
    &&& round.session.now == pre.now
    &&& round.session.rocks.len() == pre.rocks.len()
    &&& round.session.aliens.len() == pre.aliens.len()
    &&& round.session.projectiles.len() == pre.projectiles.len()
    &&& forall|k: int|
        0 <= k < pre.rocks.len() ==> (#[trigger] round.session.rocks[k]).size == pre.rocks[k].size
    &&& fresh_rocks(wreckage.children@, broken_sizes(pre.rocks, round.hits))
}

/// Whether the round has made no fewer pieces since `earlier`, and has left
/// the random stream alone unless it made some.
spec fn spared(earlier: State, before: Wreckage, state: State, wreckage: Wreckage) -> bool {
    &&& wreckage.children@.len() >= before.children@.len()
    &&& wreckage.children@.len() == before.children@.len() ==> state.random == earlier.random
}

/// Destroys rock `rock` of `state` for `collider`.
fn record_hit(
    state: &mut State,
    rock: usize,
    collider: Collider,
    wreckage: &mut Wreckage,
    Ghost(round): Ghost<Round>,
    Ghost(pre): Ghost<Session>,
    Ghost(stream): Ghost<Xoshiro256PlusPlus>,
)
    requires
        tracks(*old(state), *old(wreckage), round, pre, stream),
        rock < pre.rocks.len(),
    ensures
        tracks(*final(state), *final(wreckage), round.strike(rock as int, collider), pre, stream),
        spared(*old(state), *old(wreckage), *final(state), *final(wreckage)),
{
    let broken = hit_rock(&mut state.rocks[rock], &mut state.random);
    wreckage.hits.push(RockHit { rock, collider });
    proof {
        let hits = round.hits.push(RockHit { rock, collider });
        assert(hits.drop_last() =~= round.hits);
        assert(state@.rocks =~= round.session.rock_removed(rock as int).rocks);
    }
    match broken {
        Some(mut rocks) => {
            wreckage.children.append(&mut rocks);
        },
        None => {},
    }
}

/// Tries rock `rock` against the ship.
fn meet_ship(
    state: &mut State,
    rock: usize,
    near: bool,
    wreckage: &mut Wreckage,
    Ghost(round): Ghost<Round>,
    Ghost(pre): Ghost<Session>,
    Ghost(stream): Ghost<Xoshiro256PlusPlus>,
)
    requires
        tracks(*old(state), *old(wreckage), round, pre, stream),
        rock < pre.rocks.len(),
        pre.now + REVIVE_DELAY <= u64::MAX,
    ensures
        tracks(*final(state), *final(wreckage), round.meet_ship(rock as int, near), pre, stream),
        spared(*old(state), *old(wreckage), *final(state), *final(wreckage)),
        final(state).score == old(state).score,
{
    if state.ship.status.is_alive() && near {
        state.ship.status = ShipStatus::Dead(DeathTime::new(state.now));
        record_hit(
            state,
            rock,
            Collider::Ship,
            wreckage,
            Ghost(Round { session: round.session.ship_destroyed(), ..round }),
            Ghost(pre),
            Ghost(stream),
        );
    }
}

/// Tries rock `rock` against every saucer.
fn meet_aliens(
    state: &mut State,
    rock: usize,
    near: &Vec<bool>,
    wreckage: &mut Wreckage,
    Ghost(round): Ghost<Round>,
    Ghost(pre): Ghost<Session>,
    Ghost(stream): Ghost<Xoshiro256PlusPlus>,
)
    requires
        tracks(*old(state), *old(wreckage), round, pre, stream),
        rock < pre.rocks.len(),
        near@.len() == pre.aliens.len(),
        old(state).score + TOP_AWARD * pre.aliens.len() <= usize::MAX,
    ensures
        tracks(
            *final(state),
            *final(wreckage),
            round.meet_aliens(rock as int, near@, pre.aliens.len()),
            pre,
            stream,
        ),
        final(state).score <= old(state).score + TOP_AWARD * pre.aliens.len(),
        spared(*old(state), *old(wreckage), *final(state), *final(wreckage)),
{
    let count: usize = state.aliens.len();
    let mut j: usize = 0;
    while j < count
        invariant
            j <= count,
            count == pre.aliens.len(),
            rock < pre.rocks.len(),
            near@.len() == pre.aliens.len(),
            tracks(*state, *wreckage, round.meet_aliens(rock as int, near@, j as nat), pre, stream),
            spared(*old(state), *old(wreckage), *state, *wreckage),
            state.score <= old(state).score + TOP_AWARD * j,
            old(state).score + TOP_AWARD * pre.aliens.len() <= usize::MAX,
        decreases count - j,
    {
        let ghost before = round.meet_aliens(rock as int, near@, j as nat);
        if !state.aliens[j].removed && near[j] {
            state.aliens[j].removed = true;
            let points: usize = state.rocks[rock].size.get_score();
            state.score = state.score + points;
            let ghost scored = Round {
                session: before.session.alien_removed(j as int).awarded(
                    before.session.rocks[rock as int].size.score(),
                ),
                ..before
            };
            assert(state@.aliens =~= scored.session.aliens);
            record_hit(state, rock, Collider::Alien(j), wreckage, Ghost(scored), Ghost(pre), Ghost(stream));
        }
        j += 1;
    }
}

/// Tries rock `rock` against every shot.
fn meet_shots(
    state: &mut State,
    rock: usize,
    near: &Vec<bool>,
    wreckage: &mut Wreckage,
    Ghost(round): Ghost<Round>,
    Ghost(pre): Ghost<Session>,
    Ghost(stream): Ghost<Xoshiro256PlusPlus>,
)
    requires
        tracks(*old(state), *old(wreckage), round, pre, stream),
        rock < pre.rocks.len(),
        near@.len() == pre.projectiles.len(),
        old(state).score + TOP_AWARD * pre.projectiles.len() <= usize::MAX,
    ensures
        tracks(
            *final(state),
            *final(wreckage),
            round.meet_shots(rock as int, near@, pre.projectiles.len()),
            pre,
            stream,
        ),
        final(state).score <= old(state).score + TOP_AWARD * pre.projectiles.len(),
        spared(*old(state), *old(wreckage), *final(state), *final(wreckage)),
{
    let count: usize = state.projectiles.len();
    let mut j: usize = 0;
    while j < count
        invariant
            j <= count,
            count == pre.projectiles.len(),
            rock < pre.rocks.len(),
            near@.len() == pre.projectiles.len(),
            tracks(*state, *wreckage, round.meet_shots(rock as int, near@, j as nat), pre, stream),
            spared(*old(state), *old(wreckage), *state, *wreckage),
            state.score <= old(state).score + TOP_AWARD * j,
            old(state).score + TOP_AWARD * pre.projectiles.len() <= usize::MAX,
        decreases count - j,
    {
        let ghost before = round.meet_shots(rock as int, near@, j as nat);
        if state.projectiles[j].is_alive() && near[j] {
            state.projectiles[j].state = ProjectileState::Dead;
            let points: usize = state.rocks[rock].size.get_score();
            state.score = state.score + points;
            let ghost scored = Round {
                session: before.session.shot_set(j as int, ProjectileState::Dead).awarded(
                    before.session.rocks[rock as int].size.score(),
                ),
                ..before
            };
            assert(state@.projectiles =~= scored.session.projectiles);
            record_hit(state, rock, Collider::Projectile(j), wreckage, Ghost(scored), Ghost(pre), Ghost(stream));
        }
        j += 1;
    }
}

/// One rock's share of the award bound.
proof fn lemma_rock_share(left: nat, others: nat)
    requires
        left >= 1,
    ensures
        TOP_AWARD as nat * (left * others) == TOP_AWARD as nat * ((left - 1) as nat * others)
            + TOP_AWARD as nat * others,
{
    assert(100 * (left * others) == 100 * ((left - 1) * others) + 100 * others)
        by (nonlinear_arith);
}

/// Plays the round of the rocks: every rock meets the ship, the saucers and
/// the shots as `contacts` finds them, and the session keeps the outcome.
/// The pieces of the broken rocks come back in the wreckage, with seeds drawn
/// from the session's random stream; where no rock breaks the stream is left
/// alone.
pub fn rock_phase(state: &mut State, contacts: &Contacts) -> (wreckage: Wreckage)
    requires
        contacts.fits(old(state)@),
        old(state).now + REVIVE_DELAY <= u64::MAX,
        old(state)@.score + old(state)@.award_bound() <= usize::MAX,
    ensures
        final(state)@ == rock_round(old(state)@, *contacts).session,
        wreckage.hits@ == rock_round(old(state)@, *contacts).hits,
        fresh_rocks(wreckage.children@, broken_sizes(old(state)@.rocks, wreckage.hits@)),
        final(state)@.collided_from(old(state)@),
        final(state)@.score == old(state)@.score + awards(old(state)@.rocks, wreckage.hits@),
        wreckage.children@.len() == 0 ==> final(state).random == old(state).random,
        wreckage.children@ == children_drawn(
            old(state)@.rocks,
            wreckage.hits@,
            old(state).random,
        ).0,
        final(state).random == children_drawn(
            old(state)@.rocks,
            wreckage.hits@,
            old(state).random,
        ).1,
{
    let ghost pre = state@;
    let ghost stream = state.random;
    proof {
        assert(state.rocks.len() == pre.rocks.len());
        lemma_collided(pre, *contacts);
        law_rock_round_scores(pre, *contacts);
    }
    let ghost start = Round { session: pre, hits: Seq::empty() };
    let ghost others = pre.aliens.len() + pre.projectiles.len();
    let mut wreckage = Wreckage { hits: Vec::new(), children: Vec::new() };
    let count: usize = state.rocks.len();
    let mut i: usize = 0;
    while i < count
        invariant
            i <= count,
            count == pre.rocks.len(),
            contacts.fits(pre),
            pre.now + REVIVE_DELAY <= u64::MAX,
            others == pre.aliens.len() + pre.projectiles.len(),
            start == (Round { session: pre, hits: Seq::empty() }),
            stream == old(state).random,
            tracks(*state, wreckage, start.run(*contacts, i as nat), pre, stream),
            wreckage.children@.len() == 0 ==> state.random == old(state).random,
            state.score + TOP_AWARD as nat * ((count - i) as nat * others) <= usize::MAX,
        decreases count - i,
    {
        let ghost before = start.run(*contacts, i as nat);
        proof {
            lemma_rock_share((count - i) as nat, others);
            assert(TOP_AWARD as nat * others == TOP_AWARD * pre.aliens.len() + TOP_AWARD
                * pre.projectiles.len()) by (nonlinear_arith)
                requires
                    others == pre.aliens.len() + pre.projectiles.len(),
            ;
        }
        meet_ship(state, i, contacts.rock_ship[i], &mut wreckage, Ghost(before), Ghost(pre), Ghost(stream));
        let ghost shipped = before.meet_ship(i as int, contacts.rock_ship@[i as int]);
        meet_aliens(state, i, &contacts.rock_alien[i], &mut wreckage, Ghost(shipped), Ghost(pre), Ghost(stream));
        let ghost raided = shipped.meet_aliens(
            i as int,
            contacts.rock_alien@[i as int]@,
            pre.aliens.len(),
        );
        meet_shots(
            state,
            i,
            &contacts.rock_projectile[i],
            &mut wreckage,
            Ghost(raided),
            Ghost(pre),
            Ghost(stream),
        );
        i += 1;
    }
    wreckage
}

} // verus!
