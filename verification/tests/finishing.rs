use rand::Rng;
use rand_xoshiro::rand_core::SeedableRng;
use rand_xoshiro::Xoshiro256PlusPlus;
use space_rocks::alien::{Alien, AlienSize};
use space_rocks::contact::Contacts;
use space_rocks::debris::Wreck;
use space_rocks::finish::{finish_frame, Supplies};
use space_rocks::frame::{begin_frame, update, FrameReport};
use space_rocks::particle::{Particle, ParticleType};
use space_rocks::progress::Progress;
use space_rocks::projectile::{Projectile, ProjectileState};
use space_rocks::revival::Revival;
use space_rocks::rock::{Rock, RockSize};
use space_rocks::saucer::AlienOrder;
use space_rocks::ship::{DeathTime, ShipStatus};
use space_rocks::state::State;
use space_rocks::strike::{Collider, RockHit};
use space_rocks::sweep::Sweep;

fn report_of(
    hits: usize,
    alien_orders: Vec<AlienOrder>,
    ship_destroyed: bool,
    wave_due: bool,
) -> FrameReport {
    FrameReport {
        hits: (0..hits).map(|rock| RockHit { rock, collider: Collider::Ship }).collect(),
        children: vec![],
        alien_orders,
        sweep: Sweep { rocks: vec![], particles: vec![], projectiles: vec![], aliens: vec![] },
        revival: Revival { ship_destroyed, respawned: false, game_reset: false },
        progress: Progress { heartbeat: None, wave_due, big_alien: None, small_alien: None },
    }
}

fn act(shoot: bool) -> AlienOrder {
    AlienOrder::Act { turn: false, shoot }
}

fn dot(time_to_live: u64) -> Particle {
    Particle { time_to_live, particle_type: ParticleType::Dot }
}

fn line(time_to_live: u64) -> Particle {
    Particle { time_to_live, particle_type: ParticleType::Line }
}

#[test]
fn the_wrecks_of_a_frame_are_the_rocks_then_the_saucers_then_the_ship() {
    let report =
        report_of(2, vec![act(true), AlienOrder::Destroyed, AlienOrder::Destroyed], true, false);
    assert_eq!(
        report.wreck_list(),
        vec![Wreck::Rock, Wreck::Rock, Wreck::Alien, Wreck::Alien, Wreck::Ship]
    );
    assert_eq!(report_of(0, vec![act(true), act(false)], false, true).wreck_list(), vec![]);
    assert_eq!(report_of(0, vec![], true, false).wreck_list(), vec![Wreck::Ship]);
    assert_eq!(report_of(1, vec![], false, false).wreck_list(), vec![Wreck::Rock]);
}

#[test]
fn supplies_fit_when_every_burst_saucer_and_wave_is_supplied() {
    let mut state = State::new(1);
    state.score = 3_000;
    let report = report_of(1, vec![AlienOrder::Destroyed, act(true)], true, true);
    let right = || Supplies {
        lifetimes: vec![vec![1; 10], vec![1; 19], vec![1; 25]],
        aims: vec![false, true],
        wave: vec![RockSize::Small; 22],
    };
    assert!(right().fits_report(&report, &state));

    let mut wrong = right();
    wrong.lifetimes[0].push(1);
    assert!(!wrong.fits_report(&report, &state));
    let mut wrong = right();
    wrong.lifetimes[1].pop();
    assert!(!wrong.fits_report(&report, &state));
    let mut wrong = right();
    wrong.lifetimes.pop();
    assert!(!wrong.fits_report(&report, &state));
    let mut wrong = right();
    wrong.lifetimes.swap(1, 2);
    assert!(!wrong.fits_report(&report, &state));
    let mut wrong = right();
    wrong.aims.push(true);
    assert!(!wrong.fits_report(&report, &state));
    let mut wrong = right();
    wrong.wave.pop();
    assert!(!wrong.fits_report(&report, &state));
    state.score = 2_999;
    assert!(!right().fits_report(&report, &state));
}

#[test]
fn supplies_for_no_wave_hold_no_rocks() {
    let state = State::new(1);
    let report = report_of(0, vec![], false, false);
    let none = Supplies { lifetimes: vec![], aims: vec![], wave: vec![] };
    assert!(none.fits_report(&report, &state));
    let some = Supplies { lifetimes: vec![], aims: vec![], wave: vec![RockSize::Big; 20] };
    assert!(!some.fits_report(&report, &state));
}

#[test]
fn the_end_of_a_frame_scatters_fires_and_leaves_the_stream_alone() {
    let twin = Xoshiro256PlusPlus::seed_from_u64(5);
    let mut state = State::new(5);
    state.now = 7_000_000;
    state.delta = 20_000;
    state.score = 440;
    state.rocks = vec![Rock::new(RockSize::Big, 3)];
    state.particles = vec![line(9)];
    state.projectiles =
        vec![Projectile { state: ProjectileState::Alive { time_to_live: 5 }, spawn: 1 }];
    let report = report_of(
        2,
        vec![act(true), AlienOrder::Destroyed, act(true), act(false), act(true)],
        true,
        false,
    );
    let mut rock_burst = vec![600_000; 10];
    rock_burst[4] = 20_000;
    let mut saucer_burst = vec![700_000; 15];
    saucer_burst.extend(vec![3_500_000; 4]);
    saucer_burst[0] = 0;
    let mut ship_burst = vec![800_000; 20];
    ship_burst.extend(vec![3_900_000; 5]);
    ship_burst[24] = 0;
    let supplies = Supplies {
        lifetimes: vec![vec![500_000; 10], rock_burst, saucer_burst, ship_burst],
        aims: vec![true, true, false, true, true],
        wave: vec![],
    };
    assert!(supplies.fits_report(&report, &state));
    let finish = finish_frame(&mut state, &report, &supplies);

    let mut particles = vec![line(9)];
    particles.extend(vec![dot(480_000); 10]);
    particles.extend(vec![dot(580_000); 9]);
    particles.extend(vec![dot(700_000); 14]);
    particles.extend(vec![line(3_500_000); 4]);
    particles.extend(vec![dot(800_000); 20]);
    particles.extend(vec![line(3_900_000); 4]);
    particles.push(line(0));
    assert_eq!(state.particles, particles);

    let mut second = vec![true; 10];
    second[4] = false;
    let mut third = vec![true; 19];
    third[0] = false;
    assert_eq!(finish.taken, vec![vec![true; 10], second, third, vec![true; 25]]);

    assert_eq!(finish.fired, vec![true, false, false, false, true]);
    let fired = Projectile { state: ProjectileState::Alive { time_to_live: 2_000_000 }, spawn: 7_000_000 };
    assert_eq!(
        state.projectiles,
        vec![
            Projectile { state: ProjectileState::Alive { time_to_live: 5 }, spawn: 1 },
            fired,
            fired,
        ]
    );
    assert_eq!(state.rocks, vec![Rock::new(RockSize::Big, 3)]);
    assert_eq!((state.score, state.now, state.stage_start), (440, 7_000_000, 0));
    assert_eq!(state.random, twin);
}

#[test]
fn the_end_of_a_frame_starts_the_wave_that_is_due() {
    let mut twin = Xoshiro256PlusPlus::seed_from_u64(6);
    let mut state = State::new(6);
    state.now = 9_000_000;
    state.score = 1_600;
    state.rocks = vec![Rock { removed: true, ..Rock::default() }];
    let report = report_of(0, vec![], false, true);
    let mut sizes = vec![RockSize::Small; 7];
    sizes.extend(vec![RockSize::Medium; 7]);
    sizes.extend(vec![RockSize::Big; 7]);
    let supplies = Supplies { lifetimes: vec![], aims: vec![], wave: sizes.clone() };
    assert!(supplies.fits_report(&report, &state));
    let finish = finish_frame(&mut state, &report, &supplies);
    assert!(finish.taken.is_empty() && finish.fired.is_empty());
    let wave: Vec<Rock> = sizes.iter().map(|size| Rock::new(*size, twin.gen())).collect();
    assert_eq!(state.rocks, wave);
    assert_eq!(state.stage_start, 9_000_000);
    assert_eq!(state.score, 1_600);
    assert_eq!(state.random, twin);
}

#[test]
fn a_game_that_begins_anew_gets_its_first_wave_at_the_end_of_the_frame() {
    let mut state = State::new(7);
    state.now = 10_000_000;
    state.frame = 1;
    state.lifes = 0;
    state.score = 2_400;
    state.last_score = 2_400;
    state.rocks = vec![Rock::new(RockSize::Big, 1)];
    state.aliens =
        vec![Alien { last_shot: 9_900_000, last_direction: 9_900_000, ..Alien::new(AlienSize::Big) }];
    state.ship.status = ShipStatus::Dead(DeathTime::new(6_000_000));
    begin_frame(&mut state, 1);
    let contacts = Contacts::none(&state);
    assert!(state.within_limits() && contacts.fits_state(&state));
    let report = update(&mut state, &contacts);
    assert!(report.revival.game_reset && report.wave_due());
    assert!(state.rocks.is_empty());
    let supplies =
        Supplies { lifetimes: vec![], aims: vec![true], wave: vec![RockSize::Medium; 20] };
    assert!(supplies.fits_report(&report, &state));
    let finish = finish_frame(&mut state, &report, &supplies);
    assert_eq!(finish.fired, vec![false]);
    assert_eq!(state.rocks.len(), 20);
    assert!(state.rocks.iter().all(|rock| rock.size == RockSize::Medium && !rock.removed));
    assert_eq!((state.lifes, state.score), (3, 0));
    assert_eq!(state.stage_start, 10_000_001);
}

#[test]
fn a_frame_acted_out_after_its_update_holds_what_the_frame_made() {
    let mut state = State::new(8);
    state.frame = 1;
    state.rocks = vec![Rock::new(RockSize::Medium, 1), Rock::new(RockSize::Small, 2)];
    state.aliens = vec![Alien::new(AlienSize::Small)];
    state.projectiles =
        vec![Projectile { state: ProjectileState::Alive { time_to_live: 900_000 }, spawn: 0 }];
    begin_frame(&mut state, 2_000_000);
    let mut contacts = Contacts::none(&state);
    contacts.rock_ship[0] = true;
    contacts.rock_projectile[1][0] = true;
    assert!(state.within_limits() && contacts.fits_state(&state));
    let report = update(&mut state, &contacts);
    assert_eq!(report.wreck_list(), vec![Wreck::Rock, Wreck::Rock, Wreck::Ship]);
    assert_eq!(report.alien_orders, vec![AlienOrder::Act { turn: true, shoot: true }]);
    let supplies = Supplies {
        lifetimes: vec![vec![2_500_000; 10], vec![1_000_000; 10], vec![3_000_000; 25]],
        aims: vec![true],
        wave: vec![],
    };
    assert!(supplies.fits_report(&report, &state));
    let finish = finish_frame(&mut state, &report, &supplies);
    assert_eq!(finish.taken, vec![vec![true; 10], vec![false; 10], vec![true; 25]]);
    assert_eq!(finish.fired, vec![true]);
    assert_eq!(state.particles.len(), 35);
    assert!(state.particles[..10].iter().all(|particle| *particle == dot(500_000)));
    assert_eq!(state.projectiles.len(), 1);
    assert_eq!(state.projectiles[0].spawn, 2_000_000);
    assert_eq!(state.rocks.len(), 2);
    assert_eq!(state.score, 100);
}
