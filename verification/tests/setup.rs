use slingcraft::body::{BodyConfig, SimError, Vec2};
use slingcraft::sim::Simulation;

fn cfg(name: &str, x: i64, y: i64, vx: i64, vy: i64, radius: i64, mass: i64) -> BodyConfig {
    BodyConfig {
        name: String::from(name),
        position: Vec2 { x, y },
        velocity: Vec2 { x: vx, y: vy },
        radius,
        mass,
    }
}

#[test]
fn new_assigns_ids_in_order_and_zeroes_diagnostics() {
    let configs = vec![
        cfg("Gliblot", 0, 0, 0, 0, 5_000_000, 1_000_000),
        cfg("Moon", 20_000_000, 0, 0, 0, 2_000_000, 0),
        cfg("Moon2", 0, 40_000_000, 0, 0, 1_000_000, 0),
    ];
    let sim = Simulation::new(50_000_000, configs).unwrap();
    assert_eq!(sim.body_count(), 3);
    assert_eq!(sim.body(0).id, 0);
    assert_eq!(sim.body(1).id, 1);
    assert_eq!(sim.body(2).id, 2);
    assert_eq!(sim.body(0).name, "Gliblot");
    assert_eq!(sim.body(1).name, "Moon");
    assert_eq!(sim.body(1).position, Vec2 { x: 20_000_000, y: 0 });
    assert_eq!(sim.body(0).mass, 1_000_000);
    assert_eq!(sim.body(1).mass, 0);
    assert_eq!(sim.body(0).crafts, 0);
    assert_eq!(sim.potential_energy(), 0);
    assert_eq!(sim.kinetic_energy(), 0);
    assert_eq!(sim.total_energy(), 0);
    assert_eq!(sim.center_of_mass(), Vec2 { x: 0, y: 0 });
    assert_eq!(sim.gravitational_constant(), 50_000_000);
}

#[test]
fn new_rejects_zero_radius() {
    let configs = vec![cfg("Flat", 0, 0, 0, 0, 0, 1_000_000)];
    let r = Simulation::new(50_000_000, configs);
    assert_eq!(r.err(), Some(SimError::InvalidBodyConfig));
}

#[test]
fn new_rejects_negative_radius() {
    let configs = vec![cfg("Inverted", 0, 0, 0, 0, -5_000_000, 1_000_000)];
    let r = Simulation::new(50_000_000, configs);
    assert_eq!(r.err(), Some(SimError::InvalidBodyConfig));
}

#[test]
fn new_rejects_negative_mass() {
    let configs = vec![cfg("Hole", 0, 0, 0, 0, 5_000_000, -1)];
    let r = Simulation::new(50_000_000, configs);
    assert_eq!(r.err(), Some(SimError::InvalidBodyConfig));
}

#[test]
fn new_rejects_negative_gravitational_constant() {
    let configs = vec![cfg("Gliblot", 0, 0, 0, 0, 5_000_000, 1_000_000)];
    let r = Simulation::new(-1, configs);
    assert_eq!(r.err(), Some(SimError::InvalidBodyConfig));
}

#[test]
fn new_accepts_zero_mass_before_the_deriver_runs() {
    let configs = vec![cfg("Seed", 0, 0, 0, 0, 1_000_000, 0)];
    assert!(Simulation::new(50_000_000, configs).is_ok());
}

#[test]
fn crafts_feedback_is_clamped_to_its_range() {
    let configs = vec![cfg("Gliblot", 0, 0, 0, 0, 5_000_000, 1_000_000)];
    let mut sim = Simulation::new(50_000_000, configs).unwrap();
    assert_eq!(sim.body(0).crafts, 0);
    sim.decrement_crafts(0);
    assert_eq!(sim.body(0).crafts, 0);
    for _ in 0..15 {
        sim.increment_crafts(0);
    }
    assert_eq!(sim.body(0).crafts, 10);
    sim.decrement_crafts(0);
    assert_eq!(sim.body(0).crafts, 9);
}

#[test]
fn crafts_feedback_touches_no_physical_field() {
    let configs = vec![
        cfg("Gliblot", 1_000_000, 2_000_000, 3_000_000, 4_000_000, 5_000_000, 6_000_000),
        cfg("Moon", 7_000_000, 0, 0, 0, 1_000_000, 0),
    ];
    let mut sim = Simulation::new(50_000_000, configs).unwrap();
    sim.increment_crafts(0);
    assert_eq!(sim.body(0).position, Vec2 { x: 1_000_000, y: 2_000_000 });
    assert_eq!(sim.body(0).velocity, Vec2 { x: 3_000_000, y: 4_000_000 });
    assert_eq!(sim.body(0).radius, 5_000_000);
    assert_eq!(sim.body(0).mass, 6_000_000);
    assert_eq!(sim.body(1).crafts, 0);
}
