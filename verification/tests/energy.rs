use slingcraft::body::{BodyConfig, Vec2};
use slingcraft::sim::Simulation;

fn cfg(name: &str, x: i64, y: i64, vx: i64, vy: i64, radius: i64, mass: i64) -> BodyConfig {
    BodyConfig {
        name: String::from(name),
        position: Vec2 { x, y },
        velocity: Vec2 { x: vx, y: vy },
        radius,
        mass,
    }
}

#[test]
fn kinetic_energy_is_half_mass_speed_squared() {
    // One body of mass 2 with velocity (3, 4): KE = 0.5 * 2 * 25 = 25.
    let configs = vec![cfg("Mover", 0, 0, 3_000_000, 4_000_000, 1_000_000, 2_000_000)];
    let mut sim = Simulation::new(50_000_000, configs).unwrap();
    sim.regulate_energy().unwrap();
    assert_eq!(sim.kinetic_energy(), 25_000_000);
    assert_eq!(sim.total_energy(), 25_000_000);
}

#[test]
fn potential_energy_is_negative_for_a_bound_pair() {
    // PE = -G * m1 * m2 / d = -50 * 2 * 2 / 10 = -20.
    let configs = vec![
        cfg("One", 0, 0, 0, 0, 1_000_000, 2_000_000),
        cfg("Two", 10_000_000, 0, 0, 0, 1_000_000, 2_000_000),
    ];
    let mut sim = Simulation::new(50_000_000, configs).unwrap();
    sim.gravity(1).unwrap();
    assert_eq!(sim.potential_energy(), -20_000_000);
    sim.regulate_energy().unwrap();
    assert!(sim.total_energy() < 0, "a bound resting pair has negative total energy");
}

#[test]
fn center_of_mass_is_the_weighted_mean() {
    // Masses 2 at (10, 0) and 6 at (-2, 4): COM = (1, 3).
    let configs = vec![
        cfg("Light", 10_000_000, 0, 0, 0, 1_000_000, 2_000_000),
        cfg("Heavy", -2_000_000, 4_000_000, 0, 0, 1_000_000, 6_000_000),
    ];
    let mut sim = Simulation::new(50_000_000, configs).unwrap();
    sim.calculate_center_of_mass();
    assert_eq!(sim.center_of_mass(), Vec2 { x: 1_000_000, y: 3_000_000 });
}

#[test]
fn center_of_mass_defaults_to_the_origin_without_mass() {
    let configs = vec![cfg("Ghost", 7_000_000, 9_000_000, 0, 0, 1_000_000, 0)];
    let mut sim = Simulation::new(50_000_000, configs).unwrap();
    sim.calculate_center_of_mass();
    assert_eq!(sim.center_of_mass(), Vec2 { x: 0, y: 0 });
}

#[test]
fn a_step_updates_every_diagnostic_consistently() {
    let configs = vec![
        cfg("One", 0, 0, 0, 0, 1_000_000, 2_000_000),
        cfg("Two", 10_000_000, 0, 0, 0, 1_000_000, 2_000_000),
    ];
    let mut sim = Simulation::new(50_000_000, configs).unwrap();
    sim.step(10_000).unwrap();
    assert_eq!(sim.total_energy(), sim.kinetic_energy() + sim.potential_energy());
    assert!(sim.potential_energy() < 0);
    // Equal resting masses: the center of mass is the midpoint and stays
    // there.
    assert_eq!(sim.center_of_mass(), Vec2 { x: 5_000_000, y: 0 });
}

/// The symplectic-Euler energy floor: a two-body circular orbit holds its
/// total energy within a small fraction of the initial value over a
/// thousand small steps.
#[test]
fn total_energy_drift_stays_bounded_on_a_circular_orbit() {
    let configs = vec![
        cfg("Gliblot", 0, 0, 0, 0, 5_000_000, 0),
        cfg("Moon", 20_000_000, 0, 0, 0, 2_000_000, 0),
    ];
    let mut sim = Simulation::new(50_000_000, configs).unwrap();
    sim.assign_masses();
    sim.recalculate_orbital_velocities().unwrap();
    let dt = 10_000; // 0.01 s
    sim.step(dt).unwrap();
    let e0 = sim.total_energy();
    assert!(e0 < 0, "a circular orbit is bound");
    let budget = e0.abs() / 100;
    for _ in 0..1000 {
        sim.step(dt).unwrap();
        assert!((sim.total_energy() - e0).abs() <= budget);
    }
}

/// Center-of-mass invariance for a closed system with zero total momentum:
/// a mirror-symmetric equal-mass binary keeps its center of mass exactly at
/// the origin, step after step, because the pairwise pulls cancel exactly.
#[test]
fn center_of_mass_stays_fixed_for_a_zero_momentum_binary() {
    let configs = vec![
        cfg("Left", -10_000_000, 0, 0, 1_000_000, 1_000_000, 2_000_000),
        cfg("Right", 10_000_000, 0, 0, -1_000_000, 1_000_000, 2_000_000),
    ];
    let mut sim = Simulation::new(50_000_000, configs).unwrap();
    for _ in 0..300 {
        sim.step(10_000).unwrap();
        assert_eq!(sim.center_of_mass(), Vec2 { x: 0, y: 0 });
        // The configuration stays an exact mirror image.
        assert_eq!(sim.body(0).position.x, -sim.body(1).position.x);
        assert_eq!(sim.body(0).position.y, -sim.body(1).position.y);
        assert_eq!(sim.body(0).velocity.x, -sim.body(1).velocity.x);
        assert_eq!(sim.body(0).velocity.y, -sim.body(1).velocity.y);
    }
}

/// An unbalanced system still keeps its center of mass nearly constant: the
/// rounded pulls agree with Newton's third law up to the last fixed-point
/// digit.
#[test]
fn center_of_mass_drifts_only_marginally_for_an_orbiting_pair() {
    let configs = vec![
        cfg("Big", 0, 0, 0, 500_000, 3_000_000, 8_000_000),
        cfg("Small", 16_000_000, 0, 0, -2_000_000, 1_000_000, 2_000_000),
    ];
    let mut sim = Simulation::new(50_000_000, configs).unwrap();
    sim.calculate_center_of_mass();
    let c0 = sim.center_of_mass();
    for _ in 0..500 {
        sim.step(10_000).unwrap();
    }
    let c1 = sim.center_of_mass();
    // Within a few thousandths of a world unit after five seconds.
    assert!((c1.x - c0.x).abs() < 5_000, "x drifted from {} to {}", c0.x, c1.x);
    assert!((c1.y - c0.y).abs() < 5_000, "y drifted from {} to {}", c0.y, c1.y);
}
