//! The end of a frame's collisions: what was destroyed or has run out of time
//! leaves the session.

use vstd::prelude::*;
use crate::alien::Alien;
use crate::particle::Particle;
use crate::projectile::Projectile;
use crate::rock::Rock;
use crate::state::{Session, State};

verus! {

/// The rocks that stay: those not marked removed.
pub open spec fn rock_stays() -> spec_fn(Rock) -> bool {
    |rock: Rock| !rock.removed
}

/// The shots that stay: those that still fly.
pub open spec fn shot_stays() -> spec_fn(Projectile) -> bool {
    |shot: Projectile| shot.live()
}

/// The particles that stay: those that still fly.
pub open spec fn particle_stays() -> spec_fn(Particle) -> bool {
    |particle: Particle| particle.live()
}

/// The saucers that stay: those not marked removed.
pub open spec fn alien_stays() -> spec_fn(Alien) -> bool {
    |alien: Alien| !alien.removed
}

/// Which entities a sweep kept. The caller drops from its own lists what the
/// session dropped.
pub struct Sweep {
    /// For each rock, whether it stayed. The rocks are those of the session
    /// followed by the pieces that were swept in with them.
    pub rocks: Vec<bool>,
    /// For each particle, whether it stayed.
    pub particles: Vec<bool>,
    /// For each shot, whether it stayed.
    pub projectiles: Vec<bool>,
    /// For each saucer, whether it stayed.
    pub aliens: Vec<bool>,
}

impl Session {
    /// The session after the pieces `children` have joined its rocks and
    /// every rock and saucer marked removed, every spent shot and every
    /// particle whose time has run out has left. Those that stay keep their
    /// order.
    pub open spec fn swept(self, children: Seq<Rock>) -> Session {
        Session {
            rocks: (self.rocks + children).filter(rock_stays()),
            particles: self.particles.filter(particle_stays()),
            projectiles: self.projectiles.filter(shot_stays()),
            aliens: self.aliens.filter(alien_stays()),
            ..self
        }
    }
}

/// Whether `marks` says of each entry of `list` whether `stays` holds of it.
pub open spec fn marks_of<T>(marks: Seq<bool>, list: Seq<T>, stays: spec_fn(T) -> bool) -> bool {
    &&& marks.len() == list.len()
    &&& forall|i: int| 0 <= i < list.len() ==> marks[i] == stays(#[trigger] list[i])
}

/// One more entry under the filter.
pub(crate) proof fn lemma_filter_step<T>(list: Seq<T>, stays: spec_fn(T) -> bool, i: int)
    requires
        0 <= i < list.len(),
    ensures
        list.take(i + 1).filter(stays) == if stays(list[i]) {
            list.take(i).filter(stays).push(list[i])
        } else {
            list.take(i).filter(stays)
        },
{
    reveal(Seq::filter);
    assert(list.take(i + 1).drop_last() =~= list.take(i));
}

/// Drops from `list` the entries that `marks` does not keep.
pub(crate) fn retain_marked<T: Copy>(
    list: &mut Vec<T>,
    marks: &Vec<bool>,
    Ghost(stays): Ghost<spec_fn(T) -> bool>,
)
    requires
        marks_of(marks@, old(list)@, stays),
    ensures
        final(list)@ == old(list)@.filter(stays),
{
    let ghost all = list@;
    let mut kept: Vec<T> = Vec::new();
    let count: usize = list.len();
    let mut i: usize = 0;
    proof {
        reveal(Seq::filter);
        assert(all.take(0).filter(stays) =~= Seq::<T>::empty());
    }
    while i < count
        invariant
            i <= count,
            count == all.len(),
            list@ == all,
            marks_of(marks@, all, stays),
            kept@ == all.take(i as int).filter(stays),
        decreases count - i,
    {
        proof {
            lemma_filter_step(all, stays, i as int);
        }
        if marks[i] {
            kept.push(list[i]);
        }
        i += 1;
    }
    assert(all.take(count as int) =~= all);
    *list = kept;
}

/// Says of each rock whether it stays.
fn mark_rocks(rocks: &Vec<Rock>) -> (marks: Vec<bool>)
    ensures
        marks_of(marks@, rocks@, rock_stays()),
{
    let mut marks: Vec<bool> = Vec::new();
    let mut i: usize = 0;
    while i < rocks.len()
        invariant
            i <= rocks.len(),
            marks_of(marks@, rocks@.take(i as int), rock_stays()),
        decreases rocks.len() - i,
    {
        marks.push(!rocks[i].removed);
        i += 1;
    }
    assert(rocks@.take(i as int) =~= rocks@);
    marks
}

/// Says of each particle whether it stays.
fn mark_particles(particles: &Vec<Particle>) -> (marks: Vec<bool>)
    ensures
        marks_of(marks@, particles@, particle_stays()),
{
    let mut marks: Vec<bool> = Vec::new();
    let mut i: usize = 0;
    while i < particles.len()
        invariant
            i <= particles.len(),
            marks_of(marks@, particles@.take(i as int), particle_stays()),
        decreases particles.len() - i,
    {
        marks.push(particles[i].time_to_live > 0);
        i += 1;
    }
    assert(particles@.take(i as int) =~= particles@);
    marks
}

/// Says of each shot whether it stays.
fn mark_shots(shots: &Vec<Projectile>) -> (marks: Vec<bool>)
    ensures
        marks_of(marks@, shots@, shot_stays()),
{
    let mut marks: Vec<bool> = Vec::new();
    let mut i: usize = 0;
    while i < shots.len()
        invariant
            i <= shots.len(),
            marks_of(marks@, shots@.take(i as int), shot_stays()),
        decreases shots.len() - i,
    {
        marks.push(shots[i].is_alive());
        i += 1;
    }
    assert(shots@.take(i as int) =~= shots@);
    marks
}

/// Says of each saucer whether it stays.
fn mark_aliens(aliens: &Vec<Alien>) -> (marks: Vec<bool>)
    ensures
        marks_of(marks@, aliens@, alien_stays()),
{
    let mut marks: Vec<bool> = Vec::new();
    let mut i: usize = 0;
    while i < aliens.len()
        invariant
            i <= aliens.len(),
            marks_of(marks@, aliens@.take(i as int), alien_stays()),
        decreases aliens.len() - i,
    {
        marks.push(!aliens[i].removed);
        i += 1;
    }
    assert(aliens@.take(i as int) =~= aliens@);
    marks
}

/// Sweeps the session: the pieces `children` join the rocks, then every rock
/// and saucer marked removed, every spent shot and every particle whose time
/// has run out leaves. The marks that come back say, entry by entry, what
/// stayed.
pub fn cleanup(state: &mut State, children: &Vec<Rock>) -> (sweep: Sweep)
    ensures
        final(state)@ == old(state)@.swept(children@),
        final(state).random == old(state).random,
        marks_of(sweep.rocks@, old(state)@.rocks + children@, rock_stays()),
        marks_of(sweep.particles@, old(state)@.particles, particle_stays()),
        marks_of(sweep.projectiles@, old(state)@.projectiles, shot_stays()),
        marks_of(sweep.aliens@, old(state)@.aliens, alien_stays()),
{
    let mut i: usize = 0;
    while i < children.len()
        invariant
            i <= children.len(),
            state@ == (Session {
                rocks: old(state)@.rocks + children@.take(i as int),
                ..old(state)@
            }),
            state.random == old(state).random,
        decreases children.len() - i,
    {
        state.rocks.push(children[i]);
        assert(children@.take(i + 1) =~= children@.take(i as int).push(children@[i as int]));
        assert(state@.rocks =~= old(state)@.rocks + children@.take(i + 1));
        i += 1;
    }
    assert(children@.take(i as int) =~= children@);
    let rocks = mark_rocks(&state.rocks);
    let particles = mark_particles(&state.particles);
    let projectiles = mark_shots(&state.projectiles);
    let aliens = mark_aliens(&state.aliens);
    retain_marked(&mut state.rocks, &rocks, Ghost(rock_stays()));
    retain_marked(&mut state.particles, &particles, Ghost(particle_stays()));
    retain_marked(&mut state.projectiles, &projectiles, Ghost(shot_stays()));
    retain_marked(&mut state.aliens, &aliens, Ghost(alien_stays()));
    Sweep { rocks, particles, projectiles, aliens }
}

/// Nothing that was marked removed, was spent or has run out of time is left
/// after a sweep.
pub proof fn lemma_swept_clean(session: Session, children: Seq<Rock>)
    ensures
        forall|i: int|
            0 <= i < session.swept(children).rocks.len() ==> !(
            #[trigger] session.swept(children).rocks[i]).removed,
        forall|i: int|
            0 <= i < session.swept(children).projectiles.len() ==> (
            #[trigger] session.swept(children).projectiles[i]).live(),
        forall|i: int|
            0 <= i < session.swept(children).aliens.len() ==> !(
            #[trigger] session.swept(children).aliens[i]).removed,
        forall|i: int|
            0 <= i < session.swept(children).particles.len() ==> (
            #[trigger] session.swept(children).particles[i]).live(),
{
    let swept = session.swept(children);
    assert forall|i: int| 0 <= i < swept.rocks.len() implies !(#[trigger] swept.rocks[i]).removed by {
        (session.rocks + children).lemma_filter_pred(rock_stays(), i);
    }
    assert forall|i: int| 0 <= i < swept.projectiles.len() implies (
    #[trigger] swept.projectiles[i]).live() by {
        session.projectiles.lemma_filter_pred(shot_stays(), i);
    }
    assert forall|i: int| 0 <= i < swept.aliens.len() implies !(
    #[trigger] swept.aliens[i]).removed by {
        session.aliens.lemma_filter_pred(alien_stays(), i);
    }
    assert forall|i: int| 0 <= i < swept.particles.len() implies (
    #[trigger] swept.particles[i]).live() by {
        session.particles.lemma_filter_pred(particle_stays(), i);
    }
}

} // verus!
