use slingcraft::body::{BodyConfig, Vec2};
use slingcraft::sim::Simulation;

fn cfg(name: &str, x: i64, y: i64, radius: i64) -> BodyConfig {
    BodyConfig {
        name: String::from(name),
        position: Vec2 { x, y },
        velocity: Vec2 { x: 0, y: 0 },
        radius,
        mass: 0,
    }
}

fn standard_scenario() -> Simulation {
    let configs = vec![
        cfg("Gliblot", 0, 0, 5_000_000),
        cfg("Moon", 20_000_000, 0, 2_000_000),
        cfg("Moon2", 0, 40_000_000, 1_000_000),
    ];
    Simulation::new(50_000_000, configs).unwrap()
}

#[test]
fn mass_deriver_follows_the_density_law_exactly() {
    let mut sim = standard_scenario();
    sim.assign_masses();
    // mass = DENSITY * (4/3) * pi * r^3, carried in micro-units.
    assert_eq!(sim.body(0).mass, 10_471_976);
    assert_eq!(sim.body(1).mass, 670_206);
    assert_eq!(sim.body(2).mass, 83_775);
}

#[test]
fn mass_deriver_matches_the_real_formula_within_tolerance() {
    let mut sim = standard_scenario();
    sim.assign_masses();
    for i in 0..sim.body_count() {
        let r = sim.body(i).radius as f64 / 1e6;
        let expected = 0.02 * (4.0 / 3.0) * std::f64::consts::PI * r * r * r;
        let got = sim.body(i).mass as f64 / 1e6;
        assert!((got - expected).abs() < 1e-5, "body {i}: {got} vs {expected}");
    }
}

#[test]
fn mass_deriver_overwrites_a_stale_mass() {
    let configs = vec![BodyConfig {
        name: String::from("Gliblot"),
        position: Vec2 { x: 0, y: 0 },
        velocity: Vec2 { x: 0, y: 0 },
        radius: 5_000_000,
        mass: 99_000_000,
    }];
    let mut sim = Simulation::new(50_000_000, configs).unwrap();
    sim.assign_masses();
    assert_eq!(sim.body(0).mass, 10_471_976);
}

#[test]
fn craft_deriver_scales_by_surface_area_share() {
    let mut sim = standard_scenario();
    sim.assign_crafts();
    // Surface areas scale as r^2: shares 1, 4/25, 1/25 of the maximum,
    // scaled to 0..=10 and rounded half away from zero: 10, 2 (from 1.6),
    // 0 (from 0.4).
    assert_eq!(sim.body(0).crafts, 10);
    assert_eq!(sim.body(1).crafts, 2);
    assert_eq!(sim.body(2).crafts, 0);
}

#[test]
fn craft_deriver_is_a_no_op_when_every_surface_area_vanishes() {
    // A radius of one micro-unit has a fixed-point surface area of zero.
    let configs = vec![cfg("Speck", 0, 0, 1), cfg("Mote", 1_000_000, 0, 1)];
    let mut sim = Simulation::new(50_000_000, configs).unwrap();
    sim.increment_crafts(0);
    sim.assign_crafts();
    assert_eq!(sim.body(0).crafts, 1);
    assert_eq!(sim.body(1).crafts, 0);
}

#[test]
fn craft_deriver_gives_equal_bodies_the_maximum() {
    let configs = vec![cfg("Twin", 0, 0, 3_000_000), cfg("Twain", 9_000_000, 0, 3_000_000)];
    let mut sim = Simulation::new(50_000_000, configs).unwrap();
    sim.assign_crafts();
    assert_eq!(sim.body(0).crafts, 10);
    assert_eq!(sim.body(1).crafts, 10);
}
