use slingcraft::body::{BodyConfig, Vec2};
use slingcraft::sim::Simulation;

fn cfg(name: &str, x: i64, y: i64, radius: i64, mass: i64) -> BodyConfig {
    BodyConfig {
        name: String::from(name),
        position: Vec2 { x, y },
        velocity: Vec2 { x: 0, y: 0 },
        radius,
        mass,
    }
}

/// The concrete scenario: a central body of radius 5 at the origin and a
/// satellite of radius 2 at (20, 0), G = 50. After the mass deriver the
/// central mass is about 10.47; the initial satellite velocity is about
/// (0, sqrt(50 * M / 20)).
#[test]
fn two_body_scenario_gets_the_circular_orbit_velocity() {
    let configs = vec![
        cfg("Gliblot", 0, 0, 5_000_000, 0),
        cfg("Moon", 20_000_000, 0, 2_000_000, 0),
    ];
    let mut sim = Simulation::new(50_000_000, configs).unwrap();
    sim.assign_masses();
    assert_eq!(sim.body(0).mass, 10_471_976);
    sim.recalculate_orbital_velocities().unwrap();
    // The central body is exactly at rest.
    assert_eq!(sim.body(0).velocity, Vec2 { x: 0, y: 0 });
    // The satellite moves along the tangent: the radius vector points along
    // x, so the velocity is exactly perpendicular to it.
    assert_eq!(sim.body(1).velocity.x, 0);
    assert_eq!(sim.body(1).velocity.y, 5_116_633);
    let m = sim.body(0).mass as f64 / 1e6;
    let expected = (50.0 * m / 20.0).sqrt();
    let got = sim.body(1).velocity.y as f64 / 1e6;
    assert!((got - expected).abs() < 1e-3, "{got} vs {expected}");
}

#[test]
fn satellite_along_y_moves_along_negative_x() {
    let configs = vec![
        cfg("Gliblot", 0, 0, 5_000_000, 0),
        cfg("Moon2", 0, 40_000_000, 1_000_000, 0),
    ];
    let mut sim = Simulation::new(50_000_000, configs).unwrap();
    sim.assign_masses();
    sim.recalculate_orbital_velocities().unwrap();
    // Radius vector along +y, so the quarter-turn tangent points along -x.
    assert_eq!(sim.body(1).velocity, Vec2 { x: -3_618_006, y: 0 });
}

#[test]
fn orbital_speed_scales_with_the_inverse_square_root_of_distance() {
    let configs = vec![
        cfg("Gliblot", 0, 0, 5_000_000, 0),
        cfg("Near", 10_000_000, 0, 1_000_000, 0),
        cfg("Far", 0, -40_000_000, 1_000_000, 0),
    ];
    let mut sim = Simulation::new(50_000_000, configs).unwrap();
    sim.assign_masses();
    sim.recalculate_orbital_velocities().unwrap();
    let near = sim.body(1).velocity;
    let far = sim.body(2).velocity;
    let near_speed = ((near.x as f64).hypot(near.y as f64)) / 1e6;
    let far_speed = ((far.x as f64).hypot(far.y as f64)) / 1e6;
    // Twice as close means sqrt(4) = 2 times as fast, up to rounding.
    assert!((near_speed / far_speed - 2.0).abs() < 1e-3);
}

#[test]
fn first_body_wins_an_exact_mass_tie() {
    let configs = vec![
        cfg("Castor", 0, 0, 2_000_000, 10_000_000),
        cfg("Pollux", 10_000_000, 0, 2_000_000, 10_000_000),
    ];
    let mut sim = Simulation::new(50_000_000, configs).unwrap();
    sim.recalculate_orbital_velocities().unwrap();
    // The earliest body of maximal mass is the central one; the other is a
    // satellite even though its mass ties: speed sqrt(50 * 10 / 10).
    assert_eq!(sim.body(0).velocity, Vec2 { x: 0, y: 0 });
    assert_eq!(sim.body(1).velocity, Vec2 { x: 0, y: 7_071_067 });
}

#[test]
fn colocated_satellite_keeps_its_velocity() {
    let mut configs = vec![
        cfg("Gliblot", 3_000_000, 4_000_000, 5_000_000, 10_000_000),
        cfg("Shadow", 3_000_000, 4_000_000, 1_000_000, 0),
    ];
    configs[1].velocity = Vec2 { x: 123, y: -456 };
    let mut sim = Simulation::new(50_000_000, configs).unwrap();
    sim.recalculate_orbital_velocities().unwrap();
    assert_eq!(sim.body(1).velocity, Vec2 { x: 123, y: -456 });
}

#[test]
fn all_zero_masses_leave_velocities_alone() {
    let mut configs = vec![
        cfg("Ghost", 0, 0, 1_000_000, 0),
        cfg("Wraith", 10_000_000, 0, 1_000_000, 0),
    ];
    configs[0].velocity = Vec2 { x: 7, y: 8 };
    let mut sim = Simulation::new(50_000_000, configs).unwrap();
    sim.recalculate_orbital_velocities().unwrap();
    assert_eq!(sim.body(0).velocity, Vec2 { x: 7, y: 8 });
    assert_eq!(sim.body(1).velocity, Vec2 { x: 0, y: 0 });
}
