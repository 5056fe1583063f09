use rand::Rng;
use rand_xoshiro::rand_core::SeedableRng;
use rand_xoshiro::{Xoshiro256PlusPlus, Xoshiro256StarStar};
use space_rocks::alien::{Alien, AlienSize, Edge};
use space_rocks::contact::Contacts;
use space_rocks::debris::{Wreck, scatter};
use space_rocks::flight::projectile_phase;
use space_rocks::frame::{alien_fire, begin_frame, ship_control, update};
use space_rocks::particle::particle_phase;
use space_rocks::progress::{SMALL_ALIEN_EVERY, progression};
use space_rocks::projectile::{Projectile, ProjectileState};
use space_rocks::revival::{death_and_respawn, reset_level};
use space_rocks::rock::{Rock, RockSize, hit_rock};
use space_rocks::saucer::alien_phase;
use space_rocks::shape::{CORNER_LIMIT, FEWEST_CORNERS, OutlinePlan, outline_plan};
use space_rocks::ship::{DeathTime, ShipStatus};
use space_rocks::state::State;
use space_rocks::sweep::cleanup;
use space_rocks::wave::reset_rocks;

#[test]
fn the_session_draws_from_the_stream_of_its_seed() {
    let mut state = State::new(2024);
    let mut twin = Xoshiro256PlusPlus::seed_from_u64(2024);
    assert_eq!(state.random, twin);
    let mut rock = Rock { size: RockSize::Big, seed: 0, removed: false };
    let broken = hit_rock(&mut rock, &mut state.random).expect("a big rock breaks");
    let first: u64 = twin.gen();
    let second: u64 = twin.gen();
    assert_eq!(broken[0].seed, first);
    assert_eq!(broken[1].seed, second);
    assert_ne!(first, 2024);
    assert_eq!(state.random, twin);
}

#[test]
fn a_session_draws_from_the_stream_that_it_is_given() {
    let mut stream = Xoshiro256PlusPlus::seed_from_u64(31);
    let skipped: u64 = stream.gen();
    let mut state = State::with_stream(stream.clone());
    assert_eq!(state.random, stream);
    assert_eq!((state.lifes, state.score, state.frame), (3, 0, 0));
    let mut rock = Rock::default();
    let broken = hit_rock(&mut rock, &mut state.random).expect("a big rock breaks");
    let first: u64 = stream.gen();
    assert_eq!(broken[0].seed, first);
    assert_ne!(broken[0].seed, skipped);
}

#[test]
fn sessions_of_different_seeds_draw_differently() {
    let mut one = State::new(1);
    let mut two = State::new(2);
    let mut rock = Rock::default();
    let from_one = hit_rock(&mut rock, &mut one.random).expect("a big rock breaks");
    let from_two = hit_rock(&mut rock, &mut two.random).expect("a big rock breaks");
    assert_ne!(from_one[0].seed, from_two[0].seed);
}

#[test]
fn a_small_rock_draws_nothing() {
    let mut state = State::new(5);
    let twin = Xoshiro256PlusPlus::seed_from_u64(5);
    let mut rock = Rock { size: RockSize::Small, seed: 0, removed: false };
    assert!(hit_rock(&mut rock, &mut state.random).is_none());
    assert_eq!(state.random, twin);
}

#[test]
fn a_wave_draws_one_seed_for_each_rock() {
    let mut state = State::new(77);
    let mut twin = Xoshiro256PlusPlus::seed_from_u64(77);
    let sizes = vec![RockSize::Small; 20];
    reset_rocks(&mut state, &sizes);
    for rock in state.rocks.iter() {
        let seed: u64 = twin.gen();
        assert_eq!(rock.seed, seed);
    }
    assert_eq!(state.random, twin);
}

#[test]
fn a_saucer_enters_at_the_side_that_the_coin_shows() {
    for seed in 0..40u64 {
        let mut state = State::new(seed);
        let mut twin = Xoshiro256PlusPlus::seed_from_u64(seed);
        state.last_score = SMALL_ALIEN_EVERY - 1;
        state.score = SMALL_ALIEN_EVERY;
        let progress = progression(&mut state);
        let heads: bool = twin.gen();
        assert_eq!(progress.big_alien, None);
        assert_eq!(progress.small_alien, Some(if heads { Edge::Left } else { Edge::Right }));
    }
}

#[test]
fn saucers_enter_at_both_sides() {
    let mut left = 0;
    let mut right = 0;
    for seed in 0..64u64 {
        let mut state = State::new(seed);
        state.last_score = 4_999;
        state.score = 5_000;
        match progression(&mut state).big_alien {
            Some(Edge::Left) => left += 1,
            Some(Edge::Right) => right += 1,
            None => panic!("a big saucer was due"),
        }
    }
    assert!(left > 0 && right > 0);
}

#[test]
fn an_outline_has_the_corners_that_its_stream_draws_first() {
    for seed in 0..200u64 {
        let mut twin = Xoshiro256StarStar::seed_from_u64(seed);
        let corners: i32 = twin.gen_range(8..15);
        let plan = outline_plan(seed);
        assert_eq!(plan.corners, corners as usize);
        assert_eq!(plan.random, twin);
    }
}

#[test]
fn an_outline_plan_keeps_its_corners_and_its_stream() {
    let stream = Xoshiro256StarStar::seed_from_u64(9);
    let plan = OutlinePlan::new(11, stream.clone());
    assert_eq!(plan.corners, 11);
    assert_eq!(plan.random, stream);
    assert_eq!(OutlinePlan::new(8, stream.clone()).corners, 8);
    assert_eq!(OutlinePlan::new(14, stream).corners, 14);
}

#[test]
fn an_outline_has_eight_to_fourteen_corners() {
    assert_eq!(FEWEST_CORNERS, 8);
    assert_eq!(CORNER_LIMIT, 15);
    let mut seen = [false; 15];
    for seed in 0..500u64 {
        let corners = outline_plan(seed).corners;
        assert!((8..15).contains(&corners));
        seen[corners] = true;
    }
    assert!(seen[8..15].iter().all(|&found| found));
}

#[test]
fn the_outline_of_a_seed_is_always_the_same() {
    for seed in [0u64, 1, 42, u64::MAX] {
        let mut first = outline_plan(seed);
        let mut second = outline_plan(seed);
        assert_eq!(first.corners, second.corners);
        for _ in 0..(3 * first.corners) {
            let one: u32 = first.random.gen();
            let other: u32 = second.random.gen();
            assert_eq!(one, other);
        }
    }
}

#[test]
fn what_draws_nothing_leaves_the_stream_alone() {
    let twin = Xoshiro256PlusPlus::seed_from_u64(404);
    let mut state = State::new(404);
    state.rocks = vec![Rock::new(RockSize::Big, 1), Rock { removed: true, ..Rock::default() }];
    state.aliens = vec![Alien::new(AlienSize::Big), Alien::new(AlienSize::Small)];
    state.projectiles =
        vec![Projectile { state: ProjectileState::Alive { time_to_live: 900_000 }, spawn: 0 }];

    begin_frame(&mut state, 1_000_000);
    assert_eq!(state.random, twin);
    ship_control(&mut state, true, true);
    assert_eq!(state.random, twin);
    alien_fire(&mut state);
    assert_eq!(state.random, twin);
    scatter(&mut state, Wreck::Ship, &vec![500_000; 25]);
    scatter(&mut state, Wreck::Rock, &vec![500_000; 10]);
    assert_eq!(state.random, twin);

    let mut contacts = Contacts::none(&state);
    contacts.projectile_alien[0][0] = true;
    contacts.projectile_ship[1] = true;
    contacts.alien_ship[1] = true;
    projectile_phase(&mut state, &contacts);
    assert_eq!(state.random, twin);
    alien_phase(&mut state, &contacts);
    assert_eq!(state.random, twin);
    particle_phase(&mut state);
    assert_eq!(state.random, twin);
    cleanup(&mut state, &vec![Rock::new(RockSize::Small, 9)]);
    assert_eq!(state.random, twin);

    state.now = 9_000_000;
    state.ship.status = ShipStatus::Dead(DeathTime::new(1_000_000));
    death_and_respawn(&mut state);
    assert_eq!(state.random, twin);
    state.lifes = 0;
    state.ship.status = ShipStatus::Dead(DeathTime::new(1_000_000));
    assert!(reset_level(&mut state));
    assert_eq!(state.random, twin);
}

#[test]
fn a_frame_without_pieces_or_saucers_leaves_the_stream_alone() {
    let twin = Xoshiro256PlusPlus::seed_from_u64(11);
    let mut state = State::new(11);
    state.frame = 1;
    state.rocks = vec![Rock::new(RockSize::Small, 1), Rock::new(RockSize::Big, 2)];
    state.projectiles =
        vec![Projectile { state: ProjectileState::Alive { time_to_live: 900_000 }, spawn: 0 }];
    begin_frame(&mut state, 16_667);
    let mut contacts = Contacts::none(&state);
    contacts.rock_projectile[0][0] = true;
    assert!(state.within_limits() && contacts.fits_state(&state));
    let report = update(&mut state, &contacts);
    assert_eq!(report.hits.len(), 1);
    assert!(report.children.is_empty());
    assert_eq!(state.score, 100);
    assert_eq!(state.random, twin);
}

#[test]
fn a_frame_that_breaks_a_rock_draws_two_seeds() {
    let mut twin = Xoshiro256PlusPlus::seed_from_u64(12);
    let mut state = State::new(12);
    state.frame = 1;
    state.rocks = vec![Rock::new(RockSize::Big, 2)];
    state.projectiles =
        vec![Projectile { state: ProjectileState::Alive { time_to_live: 900_000 }, spawn: 0 }];
    begin_frame(&mut state, 16_667);
    let mut contacts = Contacts::none(&state);
    contacts.rock_projectile[0][0] = true;
    assert!(state.within_limits() && contacts.fits_state(&state));
    let report = update(&mut state, &contacts);
    let first: u64 = twin.gen();
    let second: u64 = twin.gen();
    assert_eq!(report.children.len(), 2);
    assert_eq!((report.children[0].seed, report.children[1].seed), (first, second));
    assert_eq!(state.random, twin);
}

#[test]
fn two_plans_of_one_seed_are_the_same_plan() {
    for seed in [0u64, 7, 1 << 40, u64::MAX] {
        let first = outline_plan(seed);
        let mut game = State::new(seed);
        let mut rock = Rock::default();
        hit_rock(&mut rock, &mut game.random);
        let second = outline_plan(seed);
        assert_eq!(first.corners, second.corners);
        assert_eq!(first.random, second.random);
    }
}

#[test]
fn plans_of_different_seeds_differ() {
    let plans: Vec<_> = (0..50u64).map(outline_plan).collect();
    assert!(plans.iter().any(|plan| plan.corners != plans[0].corners));
    assert!(plans.iter().skip(1).all(|plan| plan.random != plans[0].random));
}
