//! The end of a frame: the report of the update acted out on the session.
//!
//! The update of a frame reports wrecks, orders to fire and the call for a
//! wave. What these add to the session depends on draws and findings that
//! are the caller's: how long each particle of a burst lasts, whether a
//! saucer that is to fire has anything to aim at, and how large the rocks of
//! the wave are. The caller hands them over as the frame's supplies, and the
//! session takes them in a fixed order: the bursts of the rocks that were
//! hit, in the order of the hits; the bursts of the saucers that were
//! destroyed, in the order of the saucers; the burst of the ship; the shots
//! of the saucers, in the order of the saucers; and the wave.

use vstd::prelude::*;
use rand_xoshiro::Xoshiro256PlusPlus;
use crate::debris::{burst, burst_of, scatter, Wreck};
use crate::frame::{alien_fire, FrameReport};
use crate::rock::RockSize;
use crate::saucer::AlienOrder;
use crate::state::{Session, State};
use crate::sweep::marks_of;
use crate::wave::{reset_rocks, wave_drawn, wave_rocks, wave_size};

verus! {

/// The wrecks of the saucers that the orders `orders` report destroyed, in
/// the order of the saucers.
pub open spec fn saucer_wrecks(orders: Seq<AlienOrder>) -> Seq<Wreck>
    decreases orders.len(),
{
    if orders.len() == 0 {
        Seq::empty()
    } else if orders.last() is Destroyed {
        saucer_wrecks(orders.drop_last()).push(Wreck::Alien)
    } else {
        saucer_wrecks(orders.drop_last())
    }
}

/// Whether a saucer with the order `order` fires when `aim` says whether it
/// has anything to aim at: it fires when it is ordered to and can.
pub open spec fn fires(order: AlienOrder, aim: bool) -> bool {
    order matches AlienOrder::Act { shoot, .. } && shoot && aim
}

impl FrameReport {
    /// The wrecks of the frame in the order in which their bursts are
    /// scattered: one for each hit on a rock, then one for each saucer that
    /// was destroyed, then the ship's if it was destroyed in this frame.
    pub open spec fn wrecks(self) -> Seq<Wreck> {
        Seq::new(self.hits@.len(), |i: int| Wreck::Rock) + saucer_wrecks(self.alien_orders@)
            + if self.revival.ship_destroyed {
            seq![Wreck::Ship]
        } else {
            Seq::empty()
        }
    }

    /// Computes [`FrameReport::wrecks`].
    pub fn wreck_list(&self) -> (wrecks: Vec<Wreck>)
        ensures
            wrecks@ == self.wrecks(),
    {
        let mut wrecks: Vec<Wreck> = Vec::new();
        let hits: usize = self.hits.len();
        let mut i: usize = 0;
        while i < hits
            invariant
                i <= hits,
                hits == self.hits@.len(),
                wrecks@ == Seq::new(i as nat, |k: int| Wreck::Rock),
            decreases hits - i,
        {
            wrecks.push(Wreck::Rock);
            assert(wrecks@ =~= Seq::new((i + 1) as nat, |k: int| Wreck::Rock));
            i += 1;
        }
        let ghost rocks = wrecks@;
        let orders: usize = self.alien_orders.len();
        let mut j: usize = 0;
        assert(self.alien_orders@.take(0) =~= Seq::<AlienOrder>::empty());
        assert(rocks + saucer_wrecks(Seq::<AlienOrder>::empty()) =~= rocks);
        while j < orders
            invariant
                j <= orders,
                orders == self.alien_orders@.len(),
                rocks == Seq::new(self.hits@.len(), |k: int| Wreck::Rock),
                wrecks@ == rocks + saucer_wrecks(self.alien_orders@.take(j as int)),
            decreases orders - j,
        {
            proof {
                assert(self.alien_orders@.take(j + 1).drop_last() =~= self.alien_orders@.take(
                    j as int,
                ));
            }
            match self.alien_orders[j] {
                AlienOrder::Destroyed => {
                    wrecks.push(Wreck::Alien);
                    assert(wrecks@ =~= rocks + saucer_wrecks(self.alien_orders@.take(j + 1)));
                },
                AlienOrder::Act { .. } => {},
            }
            j += 1;
        }
        assert(self.alien_orders@.take(orders as int) =~= self.alien_orders@);
        if self.revival.ship_destroyed {
            wrecks.push(Wreck::Ship);
            assert(wrecks@ =~= self.wrecks());
        } else {
            assert(wrecks@ =~= self.wrecks());
        }
        wrecks
    }
}

/// What the caller supplies to the end of a frame.
pub struct Supplies {
    /// The lifetimes of the particles of each burst, one list for each wreck
    /// of the report in the order of [`FrameReport::wrecks`], and in each
    /// list one lifetime for each particle of the burst, the dots first.
    pub lifetimes: Vec<Vec<u64>>,
    /// For each saucer of the report's orders, whether it has anything to aim
    /// at: a saucer that sits right on the ship has not.
    pub aims: Vec<bool>,
    /// The sizes of the rocks of the wave, where the report calls for one,
    /// and nothing where it does not.
    pub wave: Vec<RockSize>,
}

impl Supplies {
    /// Whether the supplies are those that the end of the frame of `report`
    /// on `session` needs: lifetimes for every particle of every burst, an
    /// aim for every saucer, and rocks for the wave as many as the
    /// session's score asks for.
    pub open spec fn fits(&self, report: FrameReport, session: Session) -> bool {
        &&& self.lifetimes@.len() == report.wrecks().len()
        &&& forall|i: int|
            0 <= i < report.wrecks().len() ==> (#[trigger] self.lifetimes@[i])@.len() == burst_of(
                report.wrecks()[i],
            ).total()
        &&& self.aims@.len() == report.alien_orders@.len()
        &&& self.wave@.len() == if report.wave_called() {
            wave_size(session.score)
        } else {
            0
        }
    }

    /// Computes [`Supplies::fits`] for the session of `state`.
    pub fn fits_report(&self, report: &FrameReport, state: &State) -> (fits: bool)
        ensures
            fits == self.fits(*report, state@),
    {
        let wrecks = report.wreck_list();
        if self.lifetimes.len() != wrecks.len() || self.aims.len() != report.alien_orders.len() {
            return false;
        }
        let due: usize = if report.wave_due() {
            wave_rocks(state.score)
        } else {
            0
        };
        if self.wave.len() != due {
            return false;
        }
        let count: usize = wrecks.len();
        let mut i: usize = 0;
        while i < count
            invariant
                i <= count,
                count == wrecks@.len(),
                wrecks@ == report.wrecks(),
                self.lifetimes@.len() == count,
                forall|k: int|
                    0 <= k < i ==> (#[trigger] self.lifetimes@[k])@.len() == burst_of(
                        report.wrecks()[k],
                    ).total(),
            decreases count - i,
        {
            let particles = burst(wrecks[i]);
            if self.lifetimes[i].len() != particles.dots + particles.lines {
                return false;
            }
            i += 1;
        }
        true
    }
}

/// What the end of a frame took of the supplies.
pub struct Finish {
    /// For each burst, particle by particle, whether the session took the
    /// particle.
    pub taken: Vec<Vec<bool>>,
    /// For each saucer, whether it fired: its shot has joined the session's
    /// list.
    pub fired: Vec<bool>,
}

impl Session {
    /// The session after the first `count` of the wrecks `wrecks` scattered
    /// their bursts with the lifetimes `lifetimes`, in order.
    pub open spec fn bursts_scattered(
        self,
        wrecks: Seq<Wreck>,
        lifetimes: Seq<Vec<u64>>,
        count: nat,
    ) -> Session
        decreases count,
    {
        if count == 0 {
            self
        } else {
            self.bursts_scattered(wrecks, lifetimes, (count - 1) as nat).scattered(
                wrecks[count - 1],
                lifetimes[count - 1]@,
            )
        }
    }

    /// The session after those of the first `count` saucers fired that were
    /// ordered to and had something to aim at, in order.
    pub open spec fn shots_fired(self, orders: Seq<AlienOrder>, aims: Seq<bool>, count: nat)
        -> Session
        decreases count,
    {
        if count == 0 {
            self
        } else {
            let before = self.shots_fired(orders, aims, (count - 1) as nat);
            if fires(orders[count - 1], aims[count - 1]) {
                before.alien_fired()
            } else {
                before
            }
        }
    }

    /// The session after the report of its frame's update was acted out with
    /// the supplies `supplies`: the bursts scattered, the saucers' shots
    /// fired, and the wave started where one is due, with the seeds of its
    /// rocks drawn from `random`.
    pub open spec fn acted_out(
        self,
        report: FrameReport,
        supplies: Supplies,
        random: Xoshiro256PlusPlus,
    ) -> Session {
        let scattered = self.bursts_scattered(
            report.wrecks(),
            supplies.lifetimes@,
            report.wrecks().len(),
        );
        let fired = scattered.shots_fired(
            report.alien_orders@,
            supplies.aims@,
            report.alien_orders@.len(),
        );
        if report.wave_called() {
            fired.wave_begun(wave_drawn(supplies.wave@, random).0)
        } else {
            fired
        }
    }
}

/// Ends the frame whose update gave `report`: acts the report out on the
/// session with the caller's supplies, in the one order that the rules fix.
/// Every wreck scatters its burst, as [`scatter`] does; every saucer that was
/// ordered to fire and has something to aim at fires, as [`alien_fire`] does;
/// and where the report calls for a wave the wave starts, as [`reset_rocks`]
/// starts it. The random stream is drawn from for the seeds of the wave and
/// for nothing else.
pub fn finish_frame(state: &mut State, report: &FrameReport, supplies: &Supplies) -> (finish:
    Finish)
    requires
        supplies.fits(*report, old(state)@),
    ensures
        final(state)@ == old(state)@.acted_out(*report, *supplies, old(state).random),
        final(state).random == if report.wave_called() {
            wave_drawn(supplies.wave@, old(state).random).1
        } else {
            old(state).random
        },
        finish.taken@.len() == report.wrecks().len(),
        forall|i: int|
            0 <= i < report.wrecks().len() ==> marks_of(
                (#[trigger] finish.taken@[i])@,
                report.wrecks()[i].debris(supplies.lifetimes@[i]@, old(state)@.delta),
                report.wrecks()[i].debris_stays(),
            ),
        finish.fired@.len() == report.alien_orders@.len(),
        forall|j: int|
            0 <= j < report.alien_orders@.len() ==> (#[trigger] finish.fired@[j]) == fires(
                report.alien_orders@[j],
                supplies.aims@[j],
            ),
{
    let ghost pre = state@;
    let wrecks = report.wreck_list();
    let mut taken: Vec<Vec<bool>> = Vec::new();
    let bursts: usize = wrecks.len();
    let mut i: usize = 0;
    while i < bursts
        invariant
            i <= bursts,
            bursts == wrecks@.len(),
            wrecks@ == report.wrecks(),
            supplies.fits(*report, pre),
            state@ == pre.bursts_scattered(wrecks@, supplies.lifetimes@, i as nat),
            state.random == old(state).random,
            taken@.len() == i,
            forall|k: int|
                0 <= k < i ==> marks_of(
                    (#[trigger] taken@[k])@,
                    wrecks@[k].debris(supplies.lifetimes@[k]@, pre.delta),
                    wrecks@[k].debris_stays(),
                ),
        decreases bursts - i,
    {
        proof {
            lemma_bursts_keep(pre, wrecks@, supplies.lifetimes@, i as nat);
        }
        let marks = scatter(state, wrecks[i], &supplies.lifetimes[i]);
        taken.push(marks);
        i += 1;
    }
    let ghost scattered = state@;
    let mut fired: Vec<bool> = Vec::new();
    let orders: usize = report.alien_orders.len();
    let mut j: usize = 0;
    while j < orders
        invariant
            j <= orders,
            orders == report.alien_orders@.len(),
            supplies.aims@.len() == orders,
            state@ == scattered.shots_fired(report.alien_orders@, supplies.aims@, j as nat),
            state.random == old(state).random,
            fired@.len() == j,
            forall|k: int|
                0 <= k < j ==> (#[trigger] fired@[k]) == fires(
                    report.alien_orders@[k],
                    supplies.aims@[k],
                ),
        decreases orders - j,
    {
        let fire: bool = match report.alien_orders[j] {
            AlienOrder::Destroyed => false,
            AlienOrder::Act { turn, shoot } => shoot && supplies.aims[j],
        };
        if fire {
            alien_fire(state);
        }
        fired.push(fire);
        j += 1;
    }
    proof {
        lemma_bursts_keep(pre, wrecks@, supplies.lifetimes@, bursts as nat);
        lemma_shots_keep(scattered, report.alien_orders@, supplies.aims@, orders as nat);
    }
    if report.wave_due() {
        reset_rocks(state, &supplies.wave);
    }
    Finish { taken, fired }
}

/// The end of a frame moves neither the score nor the lives nor the clock,
/// and does nothing to the ship or the saucers.
pub proof fn law_finish_keeps(
    pre: Session,
    report: FrameReport,
    supplies: Supplies,
    random: Xoshiro256PlusPlus,
)
    ensures
        pre.acted_out(report, supplies, random).score == pre.score,
        pre.acted_out(report, supplies, random).last_score == pre.last_score,
        pre.acted_out(report, supplies, random).lifes == pre.lifes,
        pre.acted_out(report, supplies, random).now == pre.now,
        pre.acted_out(report, supplies, random).frame == pre.frame,
        pre.acted_out(report, supplies, random).ship == pre.ship,
        pre.acted_out(report, supplies, random).aliens == pre.aliens,
{
    let wrecks = report.wrecks();
    lemma_bursts_keep(pre, wrecks, supplies.lifetimes@, wrecks.len());
    let scattered = pre.bursts_scattered(wrecks, supplies.lifetimes@, wrecks.len());
    lemma_shots_keep(
        scattered,
        report.alien_orders@,
        supplies.aims@,
        report.alien_orders@.len(),
    );
}

/// Bursts leave the session's clock and score as they were.
proof fn lemma_bursts_keep(pre: Session, wrecks: Seq<Wreck>, lifetimes: Seq<Vec<u64>>, count: nat)
    ensures
        pre.bursts_scattered(wrecks, lifetimes, count) == (Session {
            particles: pre.bursts_scattered(wrecks, lifetimes, count).particles,
            ..pre
        }),
    decreases count,
{
    if count > 0 {
        lemma_bursts_keep(pre, wrecks, lifetimes, (count - 1) as nat);
    }
}

/// Saucers' shots leave the session's score as it was.
proof fn lemma_shots_keep(pre: Session, orders: Seq<AlienOrder>, aims: Seq<bool>, count: nat)
    ensures
        pre.shots_fired(orders, aims, count) == (Session {
            projectiles: pre.shots_fired(orders, aims, count).projectiles,
            ..pre
        }),
    decreases count,
{
    if count > 0 {
        lemma_shots_keep(pre, orders, aims, (count - 1) as nat);
    }
}

} // verus!
