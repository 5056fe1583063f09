use space_rocks::alien::{Alien, AlienSize, Edge};
use space_rocks::debris::{burst, Burst, Wreck};
use space_rocks::projectile::{Projectile, ProjectileState};
use space_rocks::rock::{hit_rock, split_rock, Rock, RockSize, TOP_AWARD};
use space_rocks::ship::{DeathTime, Ship, ShipStatus};
use space_rocks::state::State;

#[test]
fn a_rock_scores_by_its_size() {
    assert_eq!(RockSize::Big.get_score(), 20);
    assert_eq!(RockSize::Medium.get_score(), 50);
    assert_eq!(RockSize::Small.get_score(), 100);
    assert_eq!(TOP_AWARD, 100);
}

#[test]
fn a_rock_breaks_one_size_down() {
    assert_eq!(RockSize::Big.next_smaller(), Some(RockSize::Medium));
    assert_eq!(RockSize::Medium.next_smaller(), Some(RockSize::Small));
    assert_eq!(RockSize::Small.next_smaller(), None);
}

#[test]
fn a_new_rock_is_in_play() {
    assert_eq!(
        Rock::new(RockSize::Medium, 77),
        Rock { size: RockSize::Medium, seed: 77, removed: false }
    );
}

#[test]
fn a_coin_picks_the_side_of_a_saucer() {
    assert_eq!(Edge::of_coin(true), Edge::Left);
    assert_eq!(Edge::of_coin(false), Edge::Right);
}

#[test]
fn the_default_rock_is_big_and_in_play() {
    assert_eq!(Rock::default(), Rock { size: RockSize::Big, seed: 0, removed: false });
}

#[test]
fn split_rock_uses_the_given_seeds() {
    let broken = split_rock(RockSize::Medium, 11, 12).expect("a medium rock breaks");
    assert_eq!(
        broken,
        vec![
            Rock { size: RockSize::Small, seed: 11, removed: false },
            Rock { size: RockSize::Small, seed: 12, removed: false },
        ]
    );
    let broken = split_rock(RockSize::Big, 3, 3).expect("a big rock breaks");
    assert_eq!(
        broken,
        vec![
            Rock { size: RockSize::Medium, seed: 3, removed: false },
            Rock { size: RockSize::Medium, seed: 3, removed: false },
        ]
    );
}

#[test]
fn split_rock_leaves_a_small_rock_whole() {
    assert_eq!(split_rock(RockSize::Small, 1, 2), None);
}

#[test]
fn a_big_rock_that_is_hit_leaves_two_medium_rocks() {
    let mut state = State::new(7);
    let mut rock = Rock { size: RockSize::Big, seed: 1, removed: false };
    let broken = hit_rock(&mut rock, &mut state.random).expect("a big rock breaks");
    assert_eq!(rock, Rock { size: RockSize::Big, seed: 1, removed: true });
    assert_eq!(broken.len(), 2);
    assert_eq!(broken[0].size, RockSize::Medium);
    assert_eq!(broken[1].size, RockSize::Medium);
    assert!(!broken[0].removed && !broken[1].removed);
}

#[test]
fn a_medium_rock_that_is_hit_leaves_two_small_rocks() {
    let mut state = State::new(8);
    let mut rock = Rock { size: RockSize::Medium, seed: 2, removed: false };
    let broken = hit_rock(&mut rock, &mut state.random).expect("a medium rock breaks");
    assert!(rock.removed);
    assert_eq!(broken.len(), 2);
    assert_eq!(broken[0].size, RockSize::Small);
    assert_eq!(broken[1].size, RockSize::Small);
}

#[test]
fn a_small_rock_that_is_hit_leaves_nothing() {
    let mut state = State::new(9);
    let mut rock = Rock { size: RockSize::Small, seed: 3, removed: false };
    assert_eq!(hit_rock(&mut rock, &mut state.random), None);
    assert_eq!(rock, Rock { size: RockSize::Small, seed: 3, removed: true });
}

#[test]
fn a_rock_can_be_hit_again() {
    let mut state = State::new(10);
    let mut rock = Rock { size: RockSize::Big, seed: 4, removed: true };
    let broken = hit_rock(&mut rock, &mut state.random).expect("a big rock breaks");
    assert!(rock.removed);
    assert_eq!(broken.len(), 2);
}

#[test]
fn a_saucer_keeps_time_by_its_size() {
    assert_eq!(AlienSize::Big.direction_change_time(), 850_000);
    assert_eq!(AlienSize::Small.direction_change_time(), 350_000);
    assert_eq!(AlienSize::Big.shoot_time(), 1_250_000);
    assert_eq!(AlienSize::Small.shoot_time(), 750_000);
}

#[test]
fn a_new_saucer_starts_its_timers_at_zero() {
    assert_eq!(
        Alien::new(AlienSize::Big),
        Alien { size: AlienSize::Big, removed: false, last_shot: 0, last_direction: 0 }
    );
    assert_eq!(Alien::default(), Alien::new(AlienSize::Small));
}

#[test]
fn a_lifetime_makes_a_shot_state() {
    assert_eq!(ProjectileState::from(1), ProjectileState::Alive { time_to_live: 1 });
    assert_eq!(
        ProjectileState::from(2_000_000),
        ProjectileState::Alive { time_to_live: 2_000_000 }
    );
    assert_eq!(ProjectileState::from(0), ProjectileState::Dead);
    let state: ProjectileState = 5u64.into();
    assert_eq!(state, ProjectileState::Alive { time_to_live: 5 });
}

#[test]
fn a_shot_is_alive_while_it_has_time_left() {
    let flying = Projectile { state: ProjectileState::Alive { time_to_live: 1 }, spawn: 0 };
    let stalled = Projectile { state: ProjectileState::Alive { time_to_live: 0 }, spawn: 0 };
    let spent = Projectile { state: ProjectileState::Dead, spawn: 0 };
    assert!(flying.is_alive());
    assert!(!stalled.is_alive());
    assert!(!spent.is_alive());
}

#[test]
fn a_destroyed_ship_is_due_back_after_three_seconds() {
    assert_eq!(
        DeathTime::new(5_000_000),
        DeathTime { death_timer: 8_000_000, death_time: 5_000_000 }
    );
    assert_eq!(DeathTime::new(0), DeathTime { death_timer: 3_000_000, death_time: 0 });
    assert_eq!(
        DeathTime::new(u64::MAX - 3_000_000),
        DeathTime { death_timer: u64::MAX, death_time: u64::MAX - 3_000_000 }
    );
}

#[test]
fn only_a_ship_in_play_is_alive() {
    assert!(ShipStatus::Alive.is_alive());
    assert!(!ShipStatus::Dead(DeathTime::new(1)).is_alive());
    assert_eq!(Ship::default(), Ship { status: ShipStatus::Alive });
}

#[test]
fn a_rock_breaks_into_two_pieces_or_none() {
    assert_eq!(RockSize::Big.piece_count(), 2);
    assert_eq!(RockSize::Medium.piece_count(), 2);
    assert_eq!(RockSize::Small.piece_count(), 0);
}

#[test]
fn each_wreck_leaves_its_burst() {
    assert_eq!(burst(Wreck::Rock), Burst { dots: 10, lines: 0 });
    assert_eq!(burst(Wreck::Alien), Burst { dots: 15, lines: 4 });
    assert_eq!(burst(Wreck::Ship), Burst { dots: 20, lines: 5 });
}
