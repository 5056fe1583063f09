use space_rocks::debris::{burst, scatter, Wreck};
use space_rocks::particle::{particle_phase, Particle, ParticleType};
use space_rocks::state::State;

fn dot(time_to_live: u64) -> Particle {
    Particle { time_to_live, particle_type: ParticleType::Dot }
}

fn line(time_to_live: u64) -> Particle {
    Particle { time_to_live, particle_type: ParticleType::Line }
}

#[test]
fn particles_age_by_the_time_of_the_frame() {
    let mut state = State::new(1);
    state.delta = 16_667;
    state.particles = vec![dot(500_000), line(16_667), dot(16_668), line(3), dot(0)];
    particle_phase(&mut state);
    assert_eq!(state.particles, vec![dot(483_333), line(0), dot(1), line(0), dot(0)]);
}

#[test]
fn particles_do_not_age_in_a_frame_without_time() {
    let mut state = State::new(1);
    state.particles = vec![dot(5), line(7)];
    particle_phase(&mut state);
    assert_eq!(state.particles, vec![dot(5), line(7)]);
}

#[test]
fn the_debris_of_a_rock_has_aged_by_the_frame() {
    let mut state = State::new(1);
    state.delta = 20_000;
    state.particles = vec![line(9)];
    let lifetimes: Vec<u64> = (0..10).map(|i| 500_000 + 40_000 * i).collect();
    let taken = scatter(&mut state, Wreck::Rock, &lifetimes);
    assert_eq!(taken, vec![true; 10]);
    let mut expected = vec![line(9)];
    expected.extend((0..10).map(|i| dot(480_000 + 40_000 * i)));
    assert_eq!(state.particles, expected);
}

#[test]
fn the_debris_of_a_rock_that_the_frame_outlasts_is_not_taken() {
    let mut state = State::new(1);
    state.delta = 600_000;
    let lifetimes = vec![
        500_000, 600_000, 600_001, 900_000, 0, 599_999, 700_000, 1, 650_000, 600_000,
    ];
    let taken = scatter(&mut state, Wreck::Rock, &lifetimes);
    assert_eq!(
        taken,
        vec![false, false, true, true, false, false, true, false, true, false]
    );
    assert_eq!(state.particles, vec![dot(1), dot(300_000), dot(100_000), dot(50_000)]);
}

#[test]
fn the_debris_of_a_saucer_is_fifteen_dots_and_four_lines() {
    let mut state = State::new(1);
    state.delta = 20_000;
    let mut lifetimes: Vec<u64> = vec![600_000; 15];
    lifetimes.extend(vec![3_200_000; 4]);
    let taken = scatter(&mut state, Wreck::Alien, &lifetimes);
    assert_eq!(taken, vec![true; 19]);
    let mut expected = vec![dot(600_000); 15];
    expected.extend(vec![line(3_200_000); 4]);
    assert_eq!(state.particles, expected);
}

#[test]
fn the_debris_of_a_saucer_without_time_is_not_taken() {
    let mut state = State::new(1);
    state.delta = 20_000;
    let mut lifetimes: Vec<u64> = vec![1; 19];
    lifetimes[3] = 0;
    lifetimes[16] = 0;
    let taken = scatter(&mut state, Wreck::Alien, &lifetimes);
    let mut expected_marks = vec![true; 19];
    expected_marks[3] = false;
    expected_marks[16] = false;
    assert_eq!(taken, expected_marks);
    let mut expected = vec![dot(1); 14];
    expected.extend(vec![line(1); 3]);
    assert_eq!(state.particles, expected);
}

#[test]
fn the_debris_of_the_ship_is_taken_as_it_is() {
    let mut state = State::new(1);
    state.delta = 20_000;
    state.particles = vec![dot(3)];
    let mut lifetimes: Vec<u64> = vec![700_000; 20];
    lifetimes[0] = 0;
    lifetimes.extend(vec![3_900_000, 0, 3_000_000, 3_100_000, 3_999_999]);
    let taken = scatter(&mut state, Wreck::Ship, &lifetimes);
    assert_eq!(taken, vec![true; 25]);
    let mut expected = vec![dot(3), dot(0)];
    expected.extend(vec![dot(700_000); 19]);
    expected.extend(vec![
        line(3_900_000),
        line(0),
        line(3_000_000),
        line(3_100_000),
        line(3_999_999),
    ]);
    assert_eq!(state.particles, expected);
}

#[test]
fn a_burst_has_as_many_lifetimes_as_particles() {
    for wreck in [Wreck::Rock, Wreck::Alien, Wreck::Ship] {
        let size = burst(wreck);
        let mut state = State::new(2);
        let lifetimes = vec![1_000_000; size.dots + size.lines];
        let taken = scatter(&mut state, wreck, &lifetimes);
        assert_eq!(taken.len(), size.dots + size.lines);
        let dots = state
            .particles
            .iter()
            .filter(|particle| particle.particle_type == ParticleType::Dot)
            .count();
        assert_eq!(dots, size.dots);
        assert_eq!(state.particles.len() - dots, size.lines);
    }
}

#[test]
fn debris_leaves_the_session_when_its_time_is_up() {
    let mut state = State::new(3);
    state.rocks.push(space_rocks::rock::Rock::default());
    state.frame = 1;
    space_rocks::frame::begin_frame(&mut state, 100_000);
    let taken = scatter(&mut state, Wreck::Ship, &vec![250_000; 25]);
    assert_eq!(taken.len(), 25);
    let mut frames = 0;
    while !state.particles.is_empty() {
        space_rocks::frame::begin_frame(&mut state, 100_000);
        let contacts = space_rocks::contact::Contacts::none(&state);
        assert!(state.within_limits() && contacts.fits_state(&state));
        let report = space_rocks::frame::update(&mut state, &contacts);
        frames += 1;
        let left = 250_000u64.saturating_sub(100_000 * frames);
        assert_eq!(report.sweep.particles, vec![left > 0; 25]);
        assert!(state.particles.iter().all(|particle| particle.time_to_live == left));
    }
    assert_eq!(frames, 3);
}
