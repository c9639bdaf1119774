use slingcraft::body::{BodyConfig, SimError, Vec2};
use slingcraft::sim::Simulation;

fn cfg(name: &str, x: i64, y: i64, radius: i64, mass: i64) -> BodyConfig {
    BodyConfig {
        name: String::from(name),
        position: Vec2 { x, y },
        velocity: Vec2 { x: 0, y: 0 },
        radius,
        mass,
    }
}

/// Newton's third law on concrete values: two equal masses pull each other
/// with exactly opposite accelerations, so one force pass gives exactly
/// opposite velocities.
#[test]
fn equal_masses_accelerate_exactly_opposite() {
    let configs = vec![
        cfg("Left", -10_000_000, 0, 1_000_000, 2_000_000),
        cfg("Right", 10_000_000, 0, 1_000_000, 2_000_000),
    ];
    let mut sim = Simulation::new(50_000_000, configs).unwrap();
    sim.gravity(1_000_000).unwrap();
    let v0 = sim.body(0).velocity;
    let v1 = sim.body(1).velocity;
    assert!(v0.x > 0, "the left body must be pulled right");
    assert_eq!(v0.x, -v1.x);
    assert_eq!(v0.y, 0);
    assert_eq!(v1.y, 0);
}

/// The expected magnitude of one contribution: a = G * m / d^2 for a pair
/// well apart, applied over one second.
#[test]
fn acceleration_matches_the_inverse_square_law() {
    let configs = vec![
        cfg("Gliblot", 0, 0, 5_000_000, 0),
        cfg("Moon", 20_000_000, 0, 2_000_000, 0),
    ];
    let mut sim = Simulation::new(50_000_000, configs).unwrap();
    sim.assign_masses();
    sim.recalculate_orbital_velocities().unwrap();
    let vy_before = sim.body(1).velocity.y;
    sim.gravity(1_000_000).unwrap();
    // The satellite is pulled toward the origin: dv = -G * M / d^2 * 1 s.
    assert_eq!(sim.body(1).velocity.x - 0, -1_308_997);
    assert_eq!(sim.body(1).velocity.y, vy_before);
    let expected = -50.0 * 10.471976 / 400.0;
    let got = (sim.body(1).velocity.x) as f64 / 1e6;
    assert!((got - expected).abs() < 1e-4, "{got} vs {expected}");
}

/// The distance floor: two bodies on the very same point exert no pull
/// (the displacement is zero) and the pair energy stays finite, using the
/// floored separation r1 + r2.
#[test]
fn identical_positions_stay_finite() {
    let configs = vec![
        cfg("One", 5_000_000, 5_000_000, 2_000_000, 2_000_000),
        cfg("Two", 5_000_000, 5_000_000, 3_000_000, 3_000_000),
    ];
    let mut sim = Simulation::new(50_000_000, configs).unwrap();
    sim.gravity(1_000_000).unwrap();
    assert_eq!(sim.body(0).velocity, Vec2 { x: 0, y: 0 });
    assert_eq!(sim.body(1).velocity, Vec2 { x: 0, y: 0 });
    // PE = -G * m1 * m2 / (r1 + r2) = -50 * 6 / 5.
    assert_eq!(sim.potential_energy(), -60_000_000);
}

/// Overlapping bodies: the magnitude is capped at G * m / (r1+r2)^2 while
/// the direction is still the unit vector of the true displacement.
#[test]
fn overlapping_bodies_get_a_floored_acceleration() {
    let configs = vec![
        cfg("One", 0, 0, 2_000_000, 2_000_000),
        cfg("Two", 1_000_000, 0, 3_000_000, 3_000_000),
    ];
    let mut sim = Simulation::new(50_000_000, configs).unwrap();
    sim.gravity(1_000_000).unwrap();
    // dv over one second = G * m2 / (r1+r2)^2 along +x: exactly 50*3/25.
    assert_eq!(sim.body(0).velocity, Vec2 { x: 6_000_000, y: 0 });
    let bound = 50.0 * 3.0 / 25.0;
    assert!((sim.body(0).velocity.x as f64 / 1e6) <= bound);
}

#[test]
fn single_body_feels_no_force_and_has_no_potential_energy() {
    let configs = vec![cfg("Alone", 1_000_000, 2_000_000, 1_000_000, 5_000_000)];
    let mut sim = Simulation::new(50_000_000, configs).unwrap();
    sim.step(10_000).unwrap();
    assert_eq!(sim.body(0).velocity, Vec2 { x: 0, y: 0 });
    assert_eq!(sim.potential_energy(), 0);
    assert_eq!(sim.body(0).position, Vec2 { x: 1_000_000, y: 2_000_000 });
}

#[test]
fn zero_dt_is_a_safe_no_op_for_motion() {
    let mut configs = vec![cfg("Drifter", 1_000_000, 0, 1_000_000, 2_000_000)];
    configs[0].velocity = Vec2 { x: 5_000_000, y: 0 };
    let mut sim = Simulation::new(50_000_000, configs).unwrap();
    sim.gravity(0).unwrap();
    sim.motion(0).unwrap();
    assert_eq!(sim.body(0).position, Vec2 { x: 1_000_000, y: 0 });
    assert_eq!(sim.body(0).velocity, Vec2 { x: 5_000_000, y: 0 });
}

#[test]
fn negative_dt_is_a_safe_no_op_not_an_inversion() {
    let mut configs = vec![cfg("Drifter", 1_000_000, 0, 1_000_000, 2_000_000)];
    configs[0].velocity = Vec2 { x: 5_000_000, y: 0 };
    let mut sim = Simulation::new(50_000_000, configs).unwrap();
    sim.gravity(-10_000).unwrap();
    sim.motion(-10_000).unwrap();
    assert_eq!(sim.body(0).position, Vec2 { x: 1_000_000, y: 0 });
    assert_eq!(sim.body(0).velocity, Vec2 { x: 5_000_000, y: 0 });
}

#[test]
fn motion_moves_by_velocity_times_dt() {
    let mut configs = vec![cfg("Drifter", 1_000_000, 0, 1_000_000, 2_000_000)];
    configs[0].velocity = Vec2 { x: 5_000_000, y: -2_000_000 };
    let mut sim = Simulation::new(50_000_000, configs).unwrap();
    sim.motion(500_000).unwrap();
    assert_eq!(sim.body(0).position, Vec2 { x: 3_500_000, y: -1_000_000 });
}

#[test]
fn oversized_dt_is_a_fatal_diagnostic() {
    let configs = vec![cfg("Gliblot", 0, 0, 5_000_000, 1_000_000)];
    let mut sim = Simulation::new(50_000_000, configs).unwrap();
    assert_eq!(sim.step(1_000_000_001), Err(SimError::NumericOverflow));
    assert_eq!(sim.body(0).position, Vec2 { x: 0, y: 0 });
}

/// Extreme masses at the minimal separation push the velocity update out of
/// the representable range; the step surfaces that as a fatal diagnostic
/// and leaves the state untouched.
#[test]
fn out_of_range_velocity_is_a_fatal_diagnostic() {
    let configs = vec![
        cfg("Heavy", 0, 0, 1, 100_000_000_000),
        cfg("Heavier", 1, 0, 1, 100_000_000_000),
    ];
    let mut sim = Simulation::new(1_000_000_000, configs).unwrap();
    assert_eq!(sim.gravity(1_000_000_000), Err(SimError::NumericOverflow));
    assert_eq!(sim.body(0).velocity, Vec2 { x: 0, y: 0 });
    assert_eq!(sim.body(1).velocity, Vec2 { x: 0, y: 0 });
    assert_eq!(sim.potential_energy(), 0);
}
