use maxwell_demon::fixed::{Fixed, ONE};
use maxwell_demon::gate::MaxwellType;
use maxwell_demon::geometry::BoxStructure;
use maxwell_demon::particle::{Ball, Draw, GateState, InitError};
use maxwell_demon::simulation::Simulation;
use maxwell_demon::vector::Vec2;
use rand::{Rng, SeedableRng};

fn fixed(x: f64) -> Fixed {
    Fixed::from_raw((x * ONE as f64).round() as i64)
}

fn point(x: f64, y: f64) -> Vec2 {
    Vec2::new(fixed(x), fixed(y))
}

fn draw(spots: &[(f64, f64)], normal: f64, heading: (f64, f64)) -> Draw {
    Draw {
        spots: spots.iter().map(|&(x, y)| point(x, y)).collect(),
        normal: fixed(normal),
        heading: point(heading.0, heading.1),
    }
}

/// A sequence of numbers in the unit interval that looks irregular and is
/// the same at every run.
struct Sequence(u64);

impl Sequence {
    fn next(&mut self) -> f64 {
        self.0 = self.0.wrapping_mul(6364136223846793005).wrapping_add(1442695040888963407);
        ((self.0 >> 40) as f64) / ((1u64 << 24) as f64)
    }
}

fn draws(count: usize, seed: u64) -> Vec<Draw> {
    let mut sequence = Sequence(seed);
    (0..count)
        .map(|_| {
            let spots: Vec<(f64, f64)> = (0..10).map(|_| (sequence.next(), sequence.next())).collect();
            let normal = 4.0 * sequence.next() - 2.0;
            let angle = sequence.next();
            draw(&spots, normal, (angle.cos(), angle.sin()))
        })
        .collect()
}

/// Draws as an application makes them: uniform spots, a standard normal
/// sample, and a uniform number of the unit interval taken as an angle.
fn generated_draws(count: usize, seed: u64) -> Vec<Draw> {
    let mut rng = rand::rngs::StdRng::seed_from_u64(seed);
    (0..count)
        .map(|_| {
            let spots: Vec<(f64, f64)> =
                (0..10).map(|_| (rng.gen::<f32>() as f64, rng.gen::<f32>() as f64)).collect();
            let normal = rng.sample::<f32, rand_distr::StandardNormal>(rand_distr::StandardNormal);
            let angle: f32 = rng.gen();
            draw(&spots, normal as f64, (angle.cos() as f64, angle.sin() as f64))
        })
        .collect()
}

fn populated(count: u16, filter: MaxwellType, height: f64, collisions: bool, seed: u64) -> Simulation {
    let mut simulation = Simulation::new();
    simulation
        .random_initiation(
            count,
            fixed(1.0),
            fixed(0.009),
            fixed(height),
            filter,
            collisions,
            fixed(0.05),
            &draws(count as usize, seed),
        )
        .unwrap();
    simulation
}

fn snapshot(simulation: &Simulation) -> Vec<Ball> {
    (0..simulation.len()).map(|i| simulation.ball(i).unwrap()).collect()
}

#[test]
fn new_simulation_has_the_default_box_and_no_particle() {
    let simulation = Simulation::new();
    assert_eq!(simulation.len(), 0);
    assert!(simulation.collisions());
    assert_eq!(simulation.collision_radius().raw(), 1_677_722);
    let structure = simulation.structure();
    assert_eq!(structure, BoxStructure::new());
    assert_eq!(structure.width(), Fixed::one());
    assert_eq!(structure.height(), Fixed::one());
    assert_eq!(structure.wall_left().raw(), 8_053_064);
    assert_eq!(structure.wall_right().raw(), 8_724_152);
    assert_eq!(structure.maxwell().filter_type(), MaxwellType::Diode);
    assert_eq!(structure.maxwell().top(), structure.maxwell().bottom());
    assert_eq!(simulation.count_by_side(), (0, 0));
    assert_eq!(simulation.ball(0), None);
}

#[test]
fn step_of_an_empty_simulation_does_nothing() {
    let mut simulation = Simulation::new();
    simulation.step(fixed(0.01));
    assert_eq!(simulation.len(), 0);
    assert_eq!(simulation.structure(), BoxStructure::new());
}

#[test]
fn wall_is_centred_and_as_wide_as_asked() {
    let mut structure = BoxStructure::new();
    structure.reconfigure(fixed(0.25), MaxwellType::Empty, fixed(0.5));
    assert_eq!(structure.wall_left(), fixed(0.375));
    assert_eq!(structure.wall_right(), fixed(0.625));
    assert_eq!(structure.width(), Fixed::one());
    assert_eq!(structure.height(), Fixed::one());
    assert_eq!(structure.maxwell().filter_type(), MaxwellType::Empty);
    let (low, high) = structure.coords();
    assert_eq!(low, point(0.375, 0.0));
    assert_eq!(high, point(0.625, 1.0));
    structure.reconfigure(Fixed::from_raw(5), MaxwellType::Tennis, fixed(0.0));
    assert_eq!(structure.wall_left().raw(), ONE / 2 - 2);
    assert_eq!(structure.wall_right().raw(), ONE / 2 + 2);
}

#[test]
fn box_blocks_edges_and_wall() {
    let structure = BoxStructure::new();
    let radius = fixed(0.01);
    assert!(!structure.in_bounds(point(0.2, 0.2), radius));
    assert!(!structure.in_bounds(point(0.8, 0.9), radius));
    assert!(structure.in_bounds(point(0.005, 0.5), radius));
    assert!(structure.in_bounds(point(0.995, 0.5), radius));
    assert!(structure.in_bounds(point(0.3, 0.005), radius));
    assert!(structure.in_bounds(point(0.3, 0.995), radius));
    assert!(structure.in_bounds(point(0.5, 0.5), radius));
    assert!(structure.in_bounds(point(0.475, 0.1), radius));
    assert!(structure.in_bounds(point(0.525, 0.9), radius));
    assert!(!structure.in_bounds(point(0.465, 0.5), radius));
    // On the line at one radius from an edge a particle is not blocked.
    assert!(!structure.in_bounds(Vec2::new(radius, fixed(0.5)), radius));
    assert!(structure.in_bounds(Vec2::new(Fixed::from_raw(radius.raw() - 1), fixed(0.5)), radius));
}

#[test]
fn open_aperture_unblocks_the_wall() {
    let mut structure = BoxStructure::new();
    structure.reconfigure(fixed(0.04), MaxwellType::Empty, fixed(0.5));
    let radius = fixed(0.01);
    assert!(!structure.in_bounds(point(0.5, 0.5), radius));
    assert!(!structure.in_bounds(point(0.475, 0.3), radius));
    assert!(structure.in_bounds(point(0.5, 0.745), radius));
    assert!(structure.in_bounds(point(0.5, 0.9), radius));
}

#[test]
fn configuration_replaces_box_and_particles() {
    let mut simulation = populated(5, MaxwellType::Tennis, 0.3, false, 1);
    assert_eq!(simulation.len(), 5);
    assert!(!simulation.collisions());
    assert_eq!(simulation.collision_radius(), fixed(0.009));
    assert_eq!(simulation.structure().wall_left().raw(), ONE / 2 - fixed(0.05).raw() / 2);
    assert_eq!(simulation.structure().wall_right().raw(), ONE / 2 + fixed(0.05).raw() / 2);
    assert_eq!(simulation.structure().maxwell().filter_type(), MaxwellType::Tennis);
    assert_eq!(simulation.structure().maxwell().top(), fixed(0.65));
    let filter = MaxwellType::PhaseConserving { c: fixed(0.1) };
    simulation
        .random_initiation(2, fixed(0.0), fixed(0.02), fixed(1.0), filter, true, fixed(0.1), &draws(2, 9))
        .unwrap();
    assert_eq!(simulation.len(), 2);
    assert!(simulation.collisions());
    assert_eq!(simulation.collision_radius(), fixed(0.02));
    assert_eq!(simulation.structure().maxwell().filter_type(), filter);
    for ball in snapshot(&simulation) {
        assert_eq!(ball.speed(), point(0.0, 0.0));
        assert_eq!(ball.state(), GateState::Free);
    }
}

#[test]
fn configuration_makes_each_particle_from_its_draw() {
    let mut simulation = Simulation::new();
    let given = vec![
        draw(&[(0.5, 0.5), (0.25, 0.75)], 2.0, (0.5, 0.25)),
        draw(&[(0.75, 0.125)], -1.0, (1.0, 0.0)),
        draw(&[(0.0, 0.0), (1.0, 1.0), (0.875, 0.5)], 0.5, (0.0, -1.0)),
    ];
    simulation
        .random_initiation(3, fixed(4.0), fixed(0.01), fixed(0.0), MaxwellType::Diode, true, fixed(0.04), &given)
        .unwrap();
    assert_eq!(simulation.ball(0), Some(Ball::new(point(0.25, 0.75), point(2.0, 1.0))));
    assert_eq!(simulation.ball(1), Some(Ball::new(point(0.75, 0.125), point(-2.0, 0.0))));
    assert_eq!(simulation.ball(2), Some(Ball::new(point(0.875, 0.5), point(0.0, -1.0))));
}

#[test]
fn configuration_uses_only_as_many_draws_as_particles() {
    let mut simulation = Simulation::new();
    let given = draws(8, 3);
    simulation
        .random_initiation(3, fixed(1.0), fixed(0.01), fixed(0.0), MaxwellType::Diode, true, fixed(0.04), &given)
        .unwrap();
    assert_eq!(simulation.len(), 3);
    simulation
        .random_initiation(0, fixed(1.0), fixed(0.01), fixed(0.0), MaxwellType::Diode, true, fixed(0.04), &given)
        .unwrap();
    assert_eq!(simulation.len(), 0);
}

#[test]
fn configuration_with_too_few_draws_changes_nothing() {
    let mut simulation = populated(4, MaxwellType::Tennis, 0.3, true, 5);
    let before = snapshot(&simulation);
    let structure = simulation.structure();
    let result = simulation.random_initiation(
        7,
        fixed(2.0),
        fixed(0.02),
        fixed(0.5),
        MaxwellType::Empty,
        false,
        fixed(0.1),
        &draws(6, 11),
    );
    assert_eq!(result, Err(InitError::MissingDraw));
    assert_eq!(snapshot(&simulation), before);
    assert_eq!(simulation.structure(), structure);
    assert!(simulation.collisions());
    assert_eq!(simulation.collision_radius(), fixed(0.009));
}

#[test]
fn configuration_that_cannot_place_a_particle_changes_nothing() {
    let mut simulation = populated(4, MaxwellType::Tennis, 0.3, true, 5);
    let before = snapshot(&simulation);
    let structure = simulation.structure();
    let mut given = draws(3, 11);
    given[2] = draw(&[(0.5, 0.5); 10], 1.0, (1.0, 0.0));
    let result = simulation.random_initiation(
        3,
        fixed(2.0),
        fixed(0.02),
        fixed(0.0),
        MaxwellType::Empty,
        false,
        fixed(0.1),
        &given,
    );
    assert_eq!(result, Err(InitError::Unplaceable));
    assert_eq!(snapshot(&simulation), before);
    assert_eq!(simulation.structure(), structure);
    // The same draws place the first two particles.
    assert_eq!(
        simulation.random_initiation(
            2,
            fixed(2.0),
            fixed(0.02),
            fixed(0.0),
            MaxwellType::Empty,
            false,
            fixed(0.1),
            &given
        ),
        Ok(())
    );
}

#[test]
fn closed_gate_keeps_new_particles_out_of_the_wall() {
    let radius = fixed(0.009);
    for seed in 0..20 {
        let mut simulation = Simulation::new();
        let given = draws(40, seed);
        simulation
            .random_initiation(40, fixed(1.0), radius, fixed(0.0), MaxwellType::Tennis, true, fixed(0.1), &given)
            .unwrap();
        let structure = simulation.structure();
        for ball in snapshot(&simulation) {
            let x = ball.coord().x.raw();
            let y = ball.coord().y.raw();
            assert!(
                x <= structure.wall_left().raw() - radius.raw() || x >= structure.wall_right().raw() + radius.raw()
            );
            assert!(x >= radius.raw() && x <= ONE - radius.raw());
            assert!(y >= radius.raw() && y <= ONE - radius.raw());
            assert!(!structure.in_bounds(ball.coord(), radius));
        }
    }
}

#[test]
fn population_from_a_seeded_generator() {
    let radius = fixed(0.009);
    for seed in 0..10 {
        let given = generated_draws(60, seed);
        let mut simulation = Simulation::new();
        simulation
            .random_initiation(60, fixed(1.0), radius, fixed(0.3), MaxwellType::Tennis, true, fixed(0.05), &given)
            .unwrap();
        assert_eq!(simulation.len(), 60);
        let structure = simulation.structure();
        for (k, ball) in snapshot(&simulation).iter().enumerate() {
            assert!(!structure.in_bounds(ball.coord(), radius));
            assert_eq!(ball.state(), GateState::Free);
            // At temperature one the velocity is the normal sample along the heading.
            assert_eq!(ball.speed(), given[k].heading.scaled(given[k].normal));
            // The spot taken is the first of the draw that is free.
            let first = given[k].spots.iter().find(|&&spot| !structure.in_bounds(spot, radius)).unwrap();
            assert_eq!(ball.coord(), *first);
        }
        for _ in 0..100 {
            simulation.step(fixed(0.01));
        }
        let (left, right) = simulation.count_by_side();
        assert_eq!(left + right, 60);
    }
}

#[test]
fn counts_by_side_add_up_to_the_number_of_particles() {
    for seed in 0..5 {
        let mut simulation = populated(60, MaxwellType::Tennis, 0.3, true, seed);
        for _ in 0..200 {
            simulation.step(fixed(0.01));
            let (left, right) = simulation.count_by_side();
            assert_eq!(left + right, 60);
            assert_eq!(simulation.structure().count_balls(&simulation), (left, right));
            let by_hand = snapshot(&simulation).iter().filter(|b| b.coord().x.raw() < ONE / 2).count();
            assert_eq!(left, by_hand);
        }
    }
}

#[test]
fn count_by_side_takes_the_middle_as_right() {
    let balls = vec![
        Ball::new(Vec2::new(Fixed::from_raw(ONE / 2), fixed(0.5)), point(0.0, 0.0)),
        Ball::new(Vec2::new(Fixed::from_raw(ONE / 2 - 1), fixed(0.5)), point(0.0, 0.0)),
        Ball::new(point(0.9, 0.5), point(0.0, 0.0)),
    ];
    let simulation = Simulation::from_parts(BoxStructure::new(), fixed(0.01), true, balls);
    assert_eq!(simulation.count_by_side(), (1, 2));
}

#[test]
fn step_without_collisions_moves_each_particle_on_its_own() {
    let mut simulation = populated(30, MaxwellType::Tennis, 0.3, false, 7);
    let structure = simulation.structure();
    for _ in 0..50 {
        let mut expected = snapshot(&simulation);
        for ball in expected.iter_mut() {
            ball.step(&structure, fixed(0.01), fixed(0.009));
        }
        simulation.step(fixed(0.01));
        assert_eq!(snapshot(&simulation), expected);
    }
}

#[test]
fn step_resolves_collisions_before_it_moves_particles() {
    let radius = fixed(0.05);
    let dt = fixed(0.01);
    let balls = vec![Ball::new(point(0.35, 0.5), point(-1.0, 0.0)), Ball::new(point(0.30, 0.5), point(1.0, 0.0))];
    let mut simulation = Simulation::from_parts(BoxStructure::new(), radius, true, balls.clone());
    simulation.step(dt);
    // Each particle has moved once, with the velocity that the collision gave it.
    assert_eq!(simulation.ball(0).unwrap().speed(), point(1.0, 0.0));
    assert_eq!(simulation.ball(1).unwrap().speed(), point(-1.0, 0.0));
    assert_eq!(simulation.ball(0).unwrap().coord().x.raw(), fixed(0.35).raw() + 167_772);
    assert_eq!(simulation.ball(1).unwrap().coord().x.raw(), fixed(0.30).raw() - 167_772);
    let mut apart = Simulation::from_parts(BoxStructure::new(), radius, false, balls);
    apart.step(dt);
    assert_eq!(apart.ball(0).unwrap().speed(), point(-1.0, 0.0));
    assert_eq!(apart.ball(0).unwrap().coord().x.raw(), fixed(0.35).raw() - 167_772);
}

#[test]
fn particles_stay_in_the_box_and_out_of_the_closed_wall() {
    let radius = fixed(0.009);
    let mut simulation = populated(40, MaxwellType::Tennis, 0.0, true, 21);
    let structure = simulation.structure();
    let sides = simulation.count_by_side();
    for _ in 0..500 {
        simulation.step(fixed(0.01));
        for ball in snapshot(&simulation) {
            assert!(!structure.in_bounds(ball.coord(), radius));
            assert_eq!(ball.state(), GateState::Free);
        }
    }
    // Nothing passes a closed gate.
    assert_eq!(simulation.count_by_side(), sides);
}

#[test]
fn empty_gate_changes_velocities_by_reflection_only() {
    let mut simulation = populated(40, MaxwellType::Empty, 0.6, false, 33);
    let mut crossings = 0;
    for _ in 0..500 {
        let before = snapshot(&simulation);
        simulation.step(fixed(0.01));
        for (old, new) in before.iter().zip(snapshot(&simulation)) {
            if new.coord() != old.coord() {
                assert_eq!(new.speed(), old.speed());
            } else {
                assert!(new.speed() == old.speed().flipped_x() || new.speed() == old.speed().flipped_y());
            }
            if old.state() == GateState::Free && new.state() == GateState::InGate {
                crossings += 1;
            }
        }
    }
    assert!(crossings > 0);
}

#[test]
fn diode_empties_the_left_chamber() {
    let mut simulation = populated(40, MaxwellType::Diode, 0.8, false, 44);
    let (start, _) = simulation.count_by_side();
    for _ in 0..3000 {
        simulation.step(fixed(0.01));
    }
    let (left, right) = simulation.count_by_side();
    assert_eq!(left + right, 40);
    assert!(left < start);
}

#[test]
fn collisions_in_a_run_keep_momentum_between_reflections() {
    let mut simulation = populated(60, MaxwellType::Empty, 0.0, true, 55);
    for _ in 0..100 {
        let before = snapshot(&simulation);
        let sum = |balls: &Vec<Ball>| {
            balls.iter().fold((0i64, 0i64), |acc, b| (acc.0 + b.speed().x.raw(), acc.1 + b.speed().y.raw()))
        };
        simulation.ball_collider(fixed(0.01));
        let after = snapshot(&simulation);
        assert_eq!(sum(&before), sum(&after));
        for (old, new) in before.iter().zip(after.iter()) {
            assert_eq!(old.coord(), new.coord());
            assert_eq!(old.state(), new.state());
        }
        simulation.step(fixed(0.01));
    }
}
