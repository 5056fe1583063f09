use space_rocks::alien::{Alien, AlienSize};
use space_rocks::contact::Contacts;
use space_rocks::frame::{alien_fire, begin_frame, ship_control, update, ShipOrders};
use space_rocks::particle::{Particle, ParticleType};
use space_rocks::progress::Beat;
use space_rocks::projectile::{Projectile, ProjectileState};
use space_rocks::revival::Revival;
use space_rocks::rock::{Rock, RockSize};
use space_rocks::saucer::AlienOrder;
use space_rocks::ship::{DeathTime, ShipStatus};
use space_rocks::state::State;
use space_rocks::strike::{Collider, RockHit};

const QUIET: Revival = Revival { ship_destroyed: false, respawned: false, game_reset: false };

fn rock(size: RockSize, seed: u64) -> Rock {
    Rock { size, seed, removed: false }
}

fn shot(time_to_live: u64, spawn: u64) -> Projectile {
    Projectile { state: ProjectileState::Alive { time_to_live }, spawn }
}

fn play(state: &mut State, contacts: &Contacts) -> space_rocks::frame::FrameReport {
    assert!(state.within_limits());
    assert!(contacts.fits_state(state));
    update(state, contacts)
}

#[test]
fn a_new_session_has_three_lives_and_nothing_else() {
    let state = State::new(1);
    assert_eq!((state.now, state.stage_start, state.delta), (0, 0, 0));
    assert_eq!(state.ship.status, ShipStatus::Alive);
    assert!(!state.render_thruster_plume);
    assert!(state.rocks.is_empty() && state.projectiles.is_empty() && state.aliens.is_empty());
    assert!(state.particles.is_empty());
    assert_eq!((state.lifes, state.score, state.last_score), (3, 0, 0));
    assert_eq!((state.bloop, state.last_bloop, state.frame), (0, 0, 0));
    assert!(state.within_limits());
}

#[test]
fn a_session_at_the_end_of_its_integers_is_beyond_the_limits() {
    let mut state = State::new(1);
    state.now = u64::MAX - 3_000_000;
    assert!(state.within_limits());
    state.now = u64::MAX - 2_999_999;
    assert!(!state.within_limits());

    let mut state = State::new(1);
    state.frame = usize::MAX;
    assert!(!state.within_limits());

    let mut state = State::new(1);
    state.bloop = usize::MAX;
    assert!(!state.within_limits());

    let mut state = State::new(1);
    state.score = usize::MAX;
    assert!(state.within_limits());
    state.rocks.push(Rock::default());
    assert!(state.within_limits());
    state.aliens.push(Alien::default());
    assert!(!state.within_limits());
    state.score = usize::MAX - 100;
    assert!(state.within_limits());
    state.projectiles.push(shot(1, 0));
    assert!(!state.within_limits());
    state.score = usize::MAX - 200;
    assert!(state.within_limits());
    state.rocks.push(Rock::default());
    assert!(!state.within_limits());
    state.score = usize::MAX - 400;
    assert!(state.within_limits());
}

#[test]
fn the_clock_can_tick_while_the_revive_delay_fits() {
    let mut state = State::new(1);
    assert!(state.can_tick(0));
    assert!(state.can_tick(u64::MAX - 3_000_000));
    assert!(!state.can_tick(u64::MAX - 2_999_999));
    assert!(!state.can_tick(u64::MAX));
    state.now = u64::MAX - 3_000_000;
    assert!(state.can_tick(0));
    assert!(!state.can_tick(1));
    state.now = u64::MAX;
    assert!(!state.can_tick(0));
    assert!(!state.can_tick(u64::MAX));
}

#[test]
fn the_clock_moves_on_by_the_time_of_the_frame() {
    let mut state = State::new(1);
    begin_frame(&mut state, 16_667);
    assert_eq!((state.now, state.delta), (16_667, 16_667));
    begin_frame(&mut state, 20_000);
    assert_eq!((state.now, state.delta), (36_667, 20_000));
    begin_frame(&mut state, 0);
    assert_eq!((state.now, state.delta), (36_667, 0));
    assert_eq!(state.stage_start, 0);
}

#[test]
fn a_ship_in_play_takes_the_players_input() {
    let mut state = State::new(1);
    state.now = 1_200_000;
    let orders = ship_control(&mut state, true, false);
    assert_eq!(orders, ShipOrders { steer: true, thrust: true, plume: true, fire: false });
    assert!(state.render_thruster_plume);
    assert!(state.projectiles.is_empty());

    state.now = 1_300_000;
    let orders = ship_control(&mut state, true, true);
    assert_eq!(orders, ShipOrders { steer: true, thrust: true, plume: false, fire: true });
    assert!(!state.render_thruster_plume);
    assert_eq!(state.projectiles, vec![shot(1_000_000, 1_300_000)]);

    state.now = 1_400_000;
    state.render_thruster_plume = true;
    let orders = ship_control(&mut state, false, false);
    assert_eq!(orders, ShipOrders { steer: true, thrust: false, plume: false, fire: false });
    assert!(!state.render_thruster_plume);
    assert_eq!(state.projectiles.len(), 1);
}

#[test]
fn a_ship_out_of_play_takes_no_input() {
    let mut state = State::new(1);
    state.now = 1_200_000;
    state.render_thruster_plume = true;
    state.ship.status = ShipStatus::Dead(DeathTime::new(1_000_000));
    let orders = ship_control(&mut state, true, true);
    assert_eq!(orders, ShipOrders { steer: false, thrust: false, plume: false, fire: false });
    assert!(state.projectiles.is_empty());
    assert!(state.render_thruster_plume);
}

#[test]
fn the_shot_of_a_saucer_lives_two_seconds() {
    let mut state = State::new(1);
    state.now = 44;
    state.projectiles.push(shot(5, 1));
    alien_fire(&mut state);
    assert_eq!(state.projectiles, vec![shot(5, 1), shot(2_000_000, 44)]);
}

#[test]
fn a_quiet_frame_ages_the_shots_and_counts_the_frame() {
    let mut state = State::new(1);
    state.rocks = vec![rock(RockSize::Big, 1), rock(RockSize::Small, 2)];
    state.aliens = vec![Alien { last_shot: 1_000_000, last_direction: 1_000_000, ..Alien::default() }];
    state.projectiles = vec![shot(500_000, 900_000)];
    state.particles = vec![
        Particle { time_to_live: 1_016_667, particle_type: ParticleType::Dot },
        Particle { time_to_live: 3_500_000, particle_type: ParticleType::Line },
        Particle { time_to_live: 16_000, particle_type: ParticleType::Dot },
    ];
    state.frame = 5;
    state.bloop = 1;
    state.last_bloop = 1;
    state.score = 60;
    state.last_score = 40;
    begin_frame(&mut state, 1_016_667);
    let contacts = Contacts::none(&state);
    let report = play(&mut state, &contacts);
    assert!(report.hits.is_empty());
    assert!(report.children.is_empty());
    assert_eq!(report.alien_orders, vec![AlienOrder::Act { turn: false, shoot: false }]);
    assert_eq!(report.sweep.rocks, vec![true, true]);
    assert_eq!(report.sweep.aliens, vec![true]);
    assert_eq!(report.sweep.projectiles, vec![false]);
    assert_eq!(report.sweep.particles, vec![false, true, false]);
    assert_eq!(
        state.particles,
        vec![Particle { time_to_live: 2_483_333, particle_type: ParticleType::Line }]
    );
    assert_eq!(report.revival, QUIET);
    assert_eq!(report.progress.heartbeat, None);
    assert!(!report.progress.wave_due);
    assert!(!report.wave_due());
    assert_eq!(report.progress.big_alien, None);
    assert_eq!(report.progress.small_alien, None);
    assert_eq!(state.rocks, vec![rock(RockSize::Big, 1), rock(RockSize::Small, 2)]);
    assert!(state.projectiles.is_empty());
    assert_eq!(state.aliens.len(), 1);
    assert_eq!((state.score, state.last_score), (60, 60));
    assert_eq!(state.frame, 6);
    assert_eq!((state.bloop, state.last_bloop), (1, 1));
    assert_eq!(state.lifes, 3);
}

#[test]
fn a_frame_breaks_the_rock_that_a_shot_touches() {
    let mut state = State::new(1);
    state.now = 3_000_000;
    state.delta = 16_667;
    state.frame = 1;
    state.rocks = vec![rock(RockSize::Small, 1), rock(RockSize::Big, 2), rock(RockSize::Medium, 3)];
    state.projectiles = vec![shot(900_000, 2_900_000), shot(800_000, 2_800_000)];
    let mut contacts = Contacts::none(&state);
    contacts.rock_projectile[1][0] = true;
    let report = play(&mut state, &contacts);
    assert_eq!(report.hits, vec![RockHit { rock: 1, collider: Collider::Projectile(0) }]);
    assert_eq!(report.children.len(), 2);
    assert!(report.children.iter().all(|child| child.size == RockSize::Medium && !child.removed));
    assert_eq!(report.sweep.rocks, vec![true, false, true, true, true]);
    assert_eq!(report.sweep.projectiles, vec![false, true]);
    assert_eq!(
        state.rocks,
        vec![
            rock(RockSize::Small, 1),
            rock(RockSize::Medium, 3),
            report.children[0],
            report.children[1],
        ]
    );
    assert_eq!(state.projectiles, vec![shot(783_333, 2_800_000)]);
    assert_eq!((state.score, state.last_score), (20, 20));
    assert_eq!(state.frame, 2);
}

#[test]
fn a_kill_that_takes_the_score_past_5000_brings_a_big_saucer() {
    let mut state = State::new(1);
    state.now = 3_000_000;
    state.frame = 1;
    state.score = 4_999;
    state.last_score = 4_999;
    state.rocks = vec![rock(RockSize::Small, 1), rock(RockSize::Big, 2)];
    state.projectiles = vec![shot(900_000, 2_900_000)];
    let mut contacts = Contacts::none(&state);
    contacts.rock_projectile[0][0] = true;
    let report = play(&mut state, &contacts);
    assert_eq!(state.score, 5_099);
    assert!(report.progress.big_alien.is_some());
    assert!(report.progress.small_alien.is_none());
    assert_eq!(state.aliens, vec![Alien::new(AlienSize::Big)]);

    state.projectiles = vec![shot(1, 0); 10];
    state.rocks = vec![rock(RockSize::Small, 1); 10];
    let mut contacts = Contacts::none(&state);
    for i in 0..10 {
        contacts.rock_projectile[i][i] = true;
    }
    let report = play(&mut state, &contacts);
    assert_eq!(state.score, 6_099);
    assert!(report.progress.big_alien.is_none());
    assert!(report.progress.small_alien.is_none());
    assert_eq!(state.aliens.len(), 1);
}

#[test]
fn ten_kills_from_5099_bring_no_saucer() {
    let mut state = State::new(1);
    state.now = 3_000_000;
    state.frame = 1;
    state.score = 5_099;
    state.last_score = 5_099;
    state.rocks = vec![rock(RockSize::Small, 1); 10];
    state.rocks.push(rock(RockSize::Big, 2));
    state.projectiles = vec![shot(900_000, 2_000_000); 10];
    let mut contacts = Contacts::none(&state);
    for i in 0..10 {
        contacts.rock_projectile[i][i] = true;
    }
    let report = play(&mut state, &contacts);
    let hits: Vec<RockHit> =
        (0..10).map(|i| RockHit { rock: i, collider: Collider::Projectile(i) }).collect();
    assert_eq!(report.hits, hits);
    assert!(report.children.is_empty());
    assert_eq!((state.score, state.last_score), (6_099, 6_099));
    assert_eq!(report.progress.big_alien, None);
    assert_eq!(report.progress.small_alien, None);
    assert!(state.aliens.is_empty());
    assert_eq!(state.rocks, vec![rock(RockSize::Big, 2)]);
    assert!(state.projectiles.is_empty());
    assert_eq!(state.ship.status, ShipStatus::Alive);
}

#[test]
fn kills_that_take_the_score_past_both_steps_bring_both_saucers() {
    let mut state = State::new(1);
    state.frame = 1;
    state.score = 39_900;
    state.last_score = 39_900;
    state.rocks = vec![rock(RockSize::Small, 1), rock(RockSize::Big, 2)];
    state.projectiles = vec![shot(900_000, 0)];
    let mut contacts = Contacts::none(&state);
    contacts.rock_projectile[0][0] = true;
    let report = play(&mut state, &contacts);
    assert_eq!(state.score, 40_000);
    assert!(report.progress.big_alien.is_some());
    assert!(report.progress.small_alien.is_some());
    assert_eq!(
        state.aliens,
        vec![Alien::new(AlienSize::Big), Alien::new(AlienSize::Small)]
    );
}

#[test]
fn the_score_never_falls_while_lives_are_left() {
    let mut state = State::new(11);
    state.rocks = vec![rock(RockSize::Big, 1); 4];
    let mut last = state.score;
    for frame in 0..400u64 {
        begin_frame(&mut state, 16_667);
        let fire = frame % 7 == 0;
        ship_control(&mut state, true, fire);
        let mut contacts = Contacts::none(&state);
        if !state.rocks.is_empty() && !state.projectiles.is_empty() && frame % 3 == 0 {
            contacts.rock_projectile[0][0] = true;
        }
        if !state.rocks.is_empty() && frame == 100 {
            contacts.rock_ship[0] = true;
        }
        let report = play(&mut state, &contacts);
        assert!(!report.revival.game_reset);
        assert!(state.score >= last);
        last = state.score;
        if report.wave_due() {
            break;
        }
    }
    assert!(last > 0);
    assert_eq!(state.lifes, 2);
}

#[test]
fn a_destroyed_ship_returns_in_the_first_frame_past_its_delay() {
    let mut state = State::new(12);
    state.rocks = vec![rock(RockSize::Small, 1), rock(RockSize::Small, 2)];
    begin_frame(&mut state, 2_000_000);
    let mut contacts = Contacts::none(&state);
    contacts.rock_ship[0] = true;
    let report = play(&mut state, &contacts);
    assert_eq!(report.hits, vec![RockHit { rock: 0, collider: Collider::Ship }]);
    assert_eq!(report.revival, Revival { ship_destroyed: true, ..QUIET });
    assert_eq!(
        state.ship.status,
        ShipStatus::Dead(DeathTime { death_timer: 5_000_000, death_time: 2_000_000 })
    );
    assert_eq!(state.lifes, 3);
    assert_eq!(state.score, 0);
    assert_eq!(state.rocks, vec![rock(RockSize::Small, 2)]);

    for _ in 0..3 {
        begin_frame(&mut state, 1_000_000);
        let mut contacts = Contacts::none(&state);
        contacts.rock_ship[0] = true;
        let report = play(&mut state, &contacts);
        assert!(report.hits.is_empty());
        assert_eq!(report.revival, QUIET);
        assert_eq!(report.progress.heartbeat, None);
        assert_eq!(
            state.ship.status,
            ShipStatus::Dead(DeathTime { death_timer: 5_000_000, death_time: 2_000_000 })
        );
    }
    assert_eq!(state.now, 5_000_000);

    begin_frame(&mut state, 1);
    let contacts = Contacts::none(&state);
    let report = play(&mut state, &contacts);
    assert_eq!(report.revival, Revival { respawned: true, ..QUIET });
    assert_eq!(state.ship.status, ShipStatus::Alive);
    assert_eq!(state.lifes, 2);
    assert_eq!(state.rocks.len(), 1);
}

#[test]
fn a_ship_that_returns_without_a_life_left_resets_the_game() {
    let mut state = State::new(13);
    state.now = 10_000_000;
    state.frame = 1;
    state.lifes = 0;
    state.score = 5_400;
    state.last_score = 5_400;
    state.rocks = vec![rock(RockSize::Big, 1)];
    state.aliens = vec![Alien { last_shot: 9_900_000, last_direction: 9_900_000, ..Alien::default() }];
    state.ship.status = ShipStatus::Dead(DeathTime::new(6_000_000));
    let contacts = Contacts::none(&state);
    let report = play(&mut state, &contacts);
    assert_eq!(report.revival, Revival { ship_destroyed: false, respawned: true, game_reset: true });
    assert!(!report.progress.wave_due);
    assert!(report.wave_due());
    assert_eq!((state.lifes, state.score, state.last_score), (3, 0, 0));
    assert!(state.rocks.is_empty());
    assert_eq!(state.stage_start, 10_000_000);
    assert_eq!(state.ship.status, ShipStatus::Alive);
    assert!(report.progress.big_alien.is_some());
    assert_eq!(state.aliens.len(), 2);
}

#[test]
fn a_frame_that_clears_the_arena_calls_for_a_wave() {
    let mut state = State::new(14);
    state.now = 1_000_000;
    state.frame = 3;
    state.rocks = vec![rock(RockSize::Small, 1)];
    state.projectiles = vec![shot(900_000, 0)];
    let mut contacts = Contacts::none(&state);
    contacts.rock_projectile[0][0] = true;
    let report = play(&mut state, &contacts);
    assert!(report.progress.wave_due);
    assert!(report.wave_due());
    assert!(state.rocks.is_empty());
    assert_eq!(state.score, 100);
}

#[test]
fn a_saucer_that_a_rock_destroys_is_reported_and_swept() {
    let mut state = State::new(15);
    state.now = 1_000_000;
    state.frame = 3;
    state.rocks = vec![rock(RockSize::Medium, 1)];
    state.aliens = vec![
        Alien { last_shot: 900_000, last_direction: 900_000, ..Alien::new(AlienSize::Big) },
        Alien { last_shot: 100_000, last_direction: 900_000, ..Alien::new(AlienSize::Small) },
    ];
    let mut contacts = Contacts::none(&state);
    contacts.rock_alien[0][0] = true;
    let report = play(&mut state, &contacts);
    assert_eq!(report.hits, vec![RockHit { rock: 0, collider: Collider::Alien(0) }]);
    assert_eq!(
        report.alien_orders,
        vec![AlienOrder::Destroyed, AlienOrder::Act { turn: false, shoot: true }]
    );
    assert_eq!(report.sweep.aliens, vec![false, true]);
    assert_eq!(
        state.aliens,
        vec![Alien { last_shot: 1_000_000, last_direction: 900_000, ..Alien::new(AlienSize::Small) }]
    );
    assert_eq!(state.score, 50);
    assert_eq!(state.rocks.len(), 2);
}

#[test]
fn the_first_frame_sounds_the_low_heartbeat() {
    let mut state = State::new(16);
    state.rocks = vec![rock(RockSize::Big, 1)];
    begin_frame(&mut state, 16_667);
    let contacts = Contacts::none(&state);
    let report = play(&mut state, &contacts);
    assert_eq!(report.progress.heartbeat, Some(Beat::Low));
    let mut beats = vec![];
    for _ in 1..=288 {
        begin_frame(&mut state, 16_667);
        let contacts = Contacts::none(&state);
        let report = play(&mut state, &contacts);
        if let Some(beat) = report.progress.heartbeat {
            beats.push((state.frame - 1, beat));
        }
    }
    assert_eq!(beats, vec![(144, Beat::High), (288, Beat::Low)]);
}
