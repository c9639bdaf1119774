//! The exact integer model of the physics. Every executable pass of the
//! simulation is specified against these functions; they state, over `int`,
//! precisely which value each fixed-point computation yields, including its
//! rounding.

use crate::body::{
    Body, Vec2, CRAFTS_MAX, ENERGY_LIMIT, G_LIMIT, MASS_LIMIT, POS_LIMIT, RADIUS_LIMIT, VEL_LIMIT,
};
use crate::num::{divt, sqrt_floor, UNIT};
use vstd::prelude::*;

verus! {

/// The circle constant in micro-units, rounded to the nearest millionth.
pub const PI_UNITS: i64 = 3_141_593;

/// The fixed density of every body, in micro-units (0.02 mass per volume).
pub const DENSITY_UNITS: i64 = 20_000;

// ---------------------------------------------------------------------------
// Pairwise geometry and acceleration
// ---------------------------------------------------------------------------

/// Difference of positions along x, from `bi` toward `bj`.
pub open spec fn delta_x(bi: Body, bj: Body) -> int {
    bj.position.x - bi.position.x
}

/// Difference of positions along y, from `bi` toward `bj`.
pub open spec fn delta_y(bi: Body, bj: Body) -> int {
    bj.position.y - bi.position.y
}

/// Raw squared separation of the pair, with no floor.
pub open spec fn raw_dist_sq(bi: Body, bj: Body) -> int {
    delta_x(bi, bj) * delta_x(bi, bj) + delta_y(bi, bj) * delta_y(bi, bj)
}

/// Raw separation in micro-units.
pub open spec fn raw_dist(bi: Body, bj: Body) -> int {
    sqrt_floor(raw_dist_sq(bi, bj))
}

/// Squared separation with the minimum-separation floor applied: the raw
/// squared distance, but never less than the squared sum of the two radii.
pub open spec fn floored_dist_sq(bi: Body, bj: Body) -> int {
    let raw = raw_dist_sq(bi, bj);
    let floor = (bi.radius + bj.radius) * (bi.radius + bj.radius);
    if raw > floor {
        raw
    } else {
        floor
    }
}

/// Floored separation in micro-units.
pub open spec fn dist(bi: Body, bj: Body) -> int {
    sqrt_floor(floored_dist_sq(bi, bj))
}

/// Numerator of the x acceleration that `bj` exerts on `bi`:
/// `g * m_j * dx`, carried at the fixed-point scale.
pub open spec fn accel_num_x(g: int, bi: Body, bj: Body) -> int {
    g * bj.mass * delta_x(bi, bj) * UNIT
}

/// Numerator of the y acceleration that `bj` exerts on `bi`.
pub open spec fn accel_num_y(g: int, bi: Body, bj: Body) -> int {
    g * bj.mass * delta_y(bi, bj) * UNIT
}

/// Shared denominator of both components: the floored squared separation,
/// which caps the magnitude, times the raw separation, which normalizes the
/// displacement into the unit direction.
pub open spec fn accel_den(bi: Body, bj: Body) -> int {
    floored_dist_sq(bi, bj) * raw_dist(bi, bj)
}

/// The x acceleration that `bj` exerts on `bi`, in micro-units per second
/// squared: `g * m_j / max(|delta|^2, (r_i + r_j)^2)` along the unit
/// direction of `delta`, as the exact quotient of the pair, rounded toward
/// zero. Two coincident bodies define no direction and contribute nothing.
pub open spec fn accel_x(g: int, bi: Body, bj: Body) -> int {
    if raw_dist_sq(bi, bj) == 0 {
        0
    } else {
        divt(accel_num_x(g, bi, bj), accel_den(bi, bj))
    }
}

/// The y acceleration that `bj` exerts on `bi`.
pub open spec fn accel_y(g: int, bi: Body, bj: Body) -> int {
    if raw_dist_sq(bi, bj) == 0 {
        0
    } else {
        divt(accel_num_y(g, bi, bj), accel_den(bi, bj))
    }
}

// ---------------------------------------------------------------------------
// Per-body force accumulation and the velocity/position updates
// ---------------------------------------------------------------------------

/// Sum of the x accelerations on body `i` from bodies `0..upto`, skipping
/// `i` itself; contributions are added in index order.
pub open spec fn accel_sum_x(s: Seq<Body>, g: int, i: int, upto: int) -> int
    decreases upto,
{
    if upto <= 0 {
        0
    } else {
        accel_sum_x(s, g, i, upto - 1) + if upto - 1 == i {
            0
        } else {
            accel_x(g, s[i], s[upto - 1])
        }
    }
}

/// Sum of the y accelerations on body `i` from bodies `0..upto`.
pub open spec fn accel_sum_y(s: Seq<Body>, g: int, i: int, upto: int) -> int
    decreases upto,
{
    if upto <= 0 {
        0
    } else {
        accel_sum_y(s, g, i, upto - 1) + if upto - 1 == i {
            0
        } else {
            accel_y(g, s[i], s[upto - 1])
        }
    }
}

/// Total x acceleration on body `i` from every other body.
pub open spec fn accel_total_x(s: Seq<Body>, g: int, i: int) -> int {
    accel_sum_x(s, g, i, s.len() as int)
}

/// Total y acceleration on body `i` from every other body.
pub open spec fn accel_total_y(s: Seq<Body>, g: int, i: int) -> int {
    accel_sum_y(s, g, i, s.len() as int)
}

/// x velocity of body `i` after one semi-implicit Euler velocity update.
pub open spec fn vel_after_x(s: Seq<Body>, g: int, dt: int, i: int) -> int {
    s[i].velocity.x + divt(accel_total_x(s, g, i) * dt, UNIT as int)
}

/// y velocity of body `i` after one velocity update.
pub open spec fn vel_after_y(s: Seq<Body>, g: int, dt: int, i: int) -> int {
    s[i].velocity.y + divt(accel_total_y(s, g, i) * dt, UNIT as int)
}

/// x position of body `i` after one position update (which uses the
/// velocity already updated this frame).
pub open spec fn pos_after_x(s: Seq<Body>, dt: int, i: int) -> int {
    s[i].position.x + divt(s[i].velocity.x * dt, UNIT as int)
}

/// y position of body `i` after one position update.
pub open spec fn pos_after_y(s: Seq<Body>, dt: int, i: int) -> int {
    s[i].position.y + divt(s[i].velocity.y * dt, UNIT as int)
}

/// The body `i` with its velocity replaced by the updated one.
pub open spec fn body_after_gravity(s: Seq<Body>, g: int, dt: int, i: int) -> Body {
    Body {
        velocity: Vec2 {
            x: vel_after_x(s, g, dt, i) as i64,
            y: vel_after_y(s, g, dt, i) as i64,
        },
        ..s[i]
    }
}

/// The body `i` with its position replaced by the updated one.
pub open spec fn body_after_motion(s: Seq<Body>, dt: int, i: int) -> Body {
    Body {
        position: Vec2 { x: pos_after_x(s, dt, i) as i64, y: pos_after_y(s, dt, i) as i64 },
        ..s[i]
    }
}

/// The whole body set after one velocity update.
pub open spec fn bodies_after_gravity(s: Seq<Body>, g: int, dt: int) -> Seq<Body> {
    Seq::new(s.len(), |i: int| body_after_gravity(s, g, dt, i))
}

/// The whole body set after one position update.
pub open spec fn bodies_after_motion(s: Seq<Body>, dt: int) -> Seq<Body> {
    Seq::new(s.len(), |i: int| body_after_motion(s, dt, i))
}

// ---------------------------------------------------------------------------
// Potential and kinetic energy, center of mass
// ---------------------------------------------------------------------------

/// Potential energy of the unordered pair: `-g * m_i * m_j / dist`, at the
/// fixed-point scale, never positive. (With every factor carrying the scale
/// once, the product of three scaled values over one scaled distance leaves
/// one factor of the scale too many, hence the scale in the denominator.)
pub open spec fn pe_pair(g: int, bi: Body, bj: Body) -> int {
    -divt(g * bi.mass * bj.mass, (UNIT as int) * dist(bi, bj))
}

/// Potential energy of the pairs `(i, j)` for `i < j < upto`.
pub open spec fn pe_row(s: Seq<Body>, g: int, i: int, upto: int) -> int
    decreases upto,
{
    if upto <= 0 || upto <= i + 1 {
        0
    } else {
        pe_row(s, g, i, upto - 1) + pe_pair(g, s[i], s[upto - 1])
    }
}

/// Potential energy of every pair whose lower index is below `upto`.
pub open spec fn pe_upto(s: Seq<Body>, g: int, upto: int) -> int
    decreases upto,
{
    if upto <= 0 {
        0
    } else {
        pe_upto(s, g, upto - 1) + pe_row(s, g, upto - 1, s.len() as int)
    }
}

/// Total potential energy: each unordered pair counted once.
pub open spec fn pe_total(s: Seq<Body>, g: int) -> int {
    pe_upto(s, g, s.len() as int)
}

/// Kinetic energy of one body: `m * |v|^2 / 2` at the fixed-point scale.
pub open spec fn ke_body(b: Body) -> int {
    divt(b.mass * (b.velocity.x * b.velocity.x + b.velocity.y * b.velocity.y),
        2 * UNIT * UNIT)
}

/// Kinetic energy of the bodies `0..upto`.
pub open spec fn ke_upto(s: Seq<Body>, upto: int) -> int
    decreases upto,
{
    if upto <= 0 {
        0
    } else {
        ke_upto(s, upto - 1) + ke_body(s[upto - 1])
    }
}

/// Total kinetic energy.
pub open spec fn ke_total(s: Seq<Body>) -> int {
    ke_upto(s, s.len() as int)
}

/// Sum of the masses of the bodies `0..upto`.
pub open spec fn mass_upto(s: Seq<Body>, upto: int) -> int
    decreases upto,
{
    if upto <= 0 {
        0
    } else {
        mass_upto(s, upto - 1) + s[upto - 1].mass
    }
}

/// Mass-weighted sum of the x positions of the bodies `0..upto`.
pub open spec fn weighted_x_upto(s: Seq<Body>, upto: int) -> int
    decreases upto,
{
    if upto <= 0 {
        0
    } else {
        weighted_x_upto(s, upto - 1) + s[upto - 1].mass * s[upto - 1].position.x
    }
}

/// Mass-weighted sum of the y positions of the bodies `0..upto`.
pub open spec fn weighted_y_upto(s: Seq<Body>, upto: int) -> int
    decreases upto,
{
    if upto <= 0 {
        0
    } else {
        weighted_y_upto(s, upto - 1) + s[upto - 1].mass * s[upto - 1].position.y
    }
}

/// Total mass of the system.
pub open spec fn total_mass(s: Seq<Body>) -> int {
    mass_upto(s, s.len() as int)
}

/// x of the center of mass; the origin when the total mass is zero.
pub open spec fn com_x(s: Seq<Body>) -> int {
    if total_mass(s) > 0 {
        divt(weighted_x_upto(s, s.len() as int), total_mass(s))
    } else {
        0
    }
}

/// y of the center of mass; the origin when the total mass is zero.
pub open spec fn com_y(s: Seq<Body>) -> int {
    if total_mass(s) > 0 {
        divt(weighted_y_upto(s, s.len() as int), total_mass(s))
    } else {
        0
    }
}

// ---------------------------------------------------------------------------
// Derived attributes: mass from radius, craft count from surface area
// ---------------------------------------------------------------------------

/// The density law: `mass = DENSITY * (4/3) * pi * radius^3`, carried
/// exactly at the fixed-point scale.
pub open spec fn mass_of_radius(r: int) -> int {
    divt(4 * PI_UNITS * DENSITY_UNITS * r * r * r,
        3 * UNIT * UNIT * UNIT * UNIT)
}

/// Surface area `4 * pi * r^2` at the fixed-point scale.
pub open spec fn surface_area(r: int) -> int {
    divt(4 * PI_UNITS * r * r, UNIT * UNIT)
}

/// Largest surface area among the bodies `0..upto`.
pub open spec fn max_surface_upto(s: Seq<Body>, upto: int) -> int
    decreases upto,
{
    if upto <= 0 {
        0
    } else {
        let m = max_surface_upto(s, upto - 1);
        let a = surface_area(s[upto - 1].radius as int);
        if a > m {
            a
        } else {
            m
        }
    }
}

/// Largest surface area among all bodies.
pub open spec fn max_surface(s: Seq<Body>) -> int {
    max_surface_upto(s, s.len() as int)
}

/// Craft count from a surface area: the share of the maximum, scaled to
/// `0..=CRAFTS_MAX`, rounded half away from zero, then clamped.
pub open spec fn crafts_value(area: int, max_area: int) -> int
    recommends
        max_area > 0,
{
    let c = divt(2 * (CRAFTS_MAX as int) * area + max_area, 2 * max_area);
    if c > CRAFTS_MAX as int {
        CRAFTS_MAX as int
    } else {
        c
    }
}

// ---------------------------------------------------------------------------
// Orbit initialization
// ---------------------------------------------------------------------------

/// Index of the body of strictly maximal mass among `0..upto`; on a tie the
/// earliest index wins (the deterministic tie-break this library fixes).
pub open spec fn central_upto(s: Seq<Body>, upto: int) -> int
    decreases upto,
{
    if upto <= 1 {
        0
    } else {
        let p = central_upto(s, upto - 1);
        if s[upto - 1].mass > s[p].mass {
            upto - 1
        } else {
            p
        }
    }
}

/// Index of the central body: the first body of maximal mass.
pub open spec fn central_index(s: Seq<Body>) -> int {
    central_upto(s, s.len() as int)
}

/// Raw squared separation between the central body and a satellite; the
/// orbit initializer applies no radius floor.
pub open spec fn orbit_dist_sq(c: Body, b: Body) -> int {
    delta_x(c, b) * delta_x(c, b) + delta_y(c, b) * delta_y(c, b)
}

/// Separation between the central body and a satellite, in micro-units.
pub open spec fn orbit_dist(c: Body, b: Body) -> int {
    sqrt_floor(orbit_dist_sq(c, b))
}

/// Circular-orbit speed `sqrt(g * M / d)` at the fixed-point scale.
pub open spec fn orbit_speed(g: int, c: Body, b: Body) -> int
    recommends
        orbit_dist(c, b) > 0,
{
    sqrt_floor(divt(g * c.mass * UNIT, orbit_dist(c, b)))
}

/// x of the assigned orbital velocity: the speed along the unit tangent,
/// the radius vector rotated a quarter turn (`(dx, dy)` to `(-dy, dx)`).
pub open spec fn orbit_vel_x(g: int, c: Body, b: Body) -> int {
    divt(-delta_y(c, b) * orbit_speed(g, c, b), orbit_dist(c, b))
}

/// y of the assigned orbital velocity.
pub open spec fn orbit_vel_y(g: int, c: Body, b: Body) -> int {
    divt(delta_x(c, b) * orbit_speed(g, c, b), orbit_dist(c, b))
}

/// The body `i` as the orbit initializer leaves it: the central body is
/// brought to rest, every other body gets the circular-orbit velocity, and
/// a body that sits exactly on the central body keeps its velocity (no
/// orbit is defined for it).
pub open spec fn body_after_orbit_init(s: Seq<Body>, g: int, i: int) -> Body {
    let c = central_index(s);
    if i == c {
        Body { velocity: Vec2 { x: 0, y: 0 }, ..s[i] }
    } else if orbit_dist_sq(s[c], s[i]) > 0 {
        Body {
            velocity: Vec2 {
                x: orbit_vel_x(g, s[c], s[i]) as i64,
                y: orbit_vel_y(g, s[c], s[i]) as i64,
            },
            ..s[i]
        }
    } else {
        s[i]
    }
}

/// The body `i` with the craft count the surface-area rule derives for it.
pub open spec fn body_after_crafts(s: Seq<Body>, i: int) -> Body {
    Body {
        crafts: crafts_value(surface_area(s[i].radius as int), max_surface(s)) as u32,
        ..s[i]
    }
}

/// For a satellite not on top of the central body, the assigned orbital
/// velocity components never exceed the orbital speed in magnitude.
pub proof fn lemma_orbit_bounds(g: int, c: Body, b: Body)
    requires
        crate::body::body_ok(c),
        crate::body::body_ok(b),
        0 <= g <= G_LIMIT as int,
        orbit_dist_sq(c, b) > 0,
    ensures
        1 <= orbit_dist(c, b) <= 150_000_000_000,
        orbit_dist_sq(c, b) <= 20_000_000_000_000_000_000_000,
        0 <= orbit_speed(g, c, b) <= 10_000_000_000_000,
        delta_x(c, b) <= orbit_dist(c, b),
        -orbit_dist(c, b) <= delta_x(c, b),
        delta_y(c, b) <= orbit_dist(c, b),
        -orbit_dist(c, b) <= delta_y(c, b),
        -orbit_speed(g, c, b) <= orbit_vel_x(g, c, b) <= orbit_speed(g, c, b),
        -orbit_speed(g, c, b) <= orbit_vel_y(g, c, b) <= orbit_speed(g, c, b),
{
    let dx = delta_x(c, b);
    let dy = delta_y(c, b);
    let q = orbit_dist_sq(c, b);
    assert(0 <= dx * dx <= 10_000_000_000_000_000_000_000) by (nonlinear_arith)
        requires
            -100_000_000_000 <= dx <= 100_000_000_000,
    ;
    assert(0 <= dy * dy <= 10_000_000_000_000_000_000_000) by (nonlinear_arith)
        requires
            -100_000_000_000 <= dy <= 100_000_000_000,
    ;
    let d = orbit_dist(c, b);
    crate::num::lemma_sqrt_floor_at_least(q, 1);
    crate::num::lemma_sqrt_floor_bounds(q);
    assert(d <= 150_000_000_000) by (nonlinear_arith)
        requires
            d >= 0,
            d * d <= 20_000_000_000_000_000_000_000,
    ;
    if dx >= 0 {
        crate::num::lemma_sqrt_floor_at_least(q, dx);
    } else {
        assert((-dx) * (-dx) == dx * dx) by (nonlinear_arith);
        crate::num::lemma_sqrt_floor_at_least(q, -dx);
    }
    if dy >= 0 {
        crate::num::lemma_sqrt_floor_at_least(q, dy);
    } else {
        assert((-dy) * (-dy) == dy * dy) by (nonlinear_arith);
        crate::num::lemma_sqrt_floor_at_least(q, -dy);
    }
    let num = g * c.mass * UNIT;
    assert(0 <= g * c.mass * UNIT <= 100_000_000_000_000_000_000_000_000) by (nonlinear_arith)
        requires
            0 <= g <= 1_000_000_000,
            0 <= c.mass <= 100_000_000_000,
            UNIT == 1_000_000,
    ;
    let t = divt(num, d);
    crate::num::lemma_divt_nonneg(num, d);
    let sp = orbit_speed(g, c, b);
    crate::num::lemma_sqrt_floor_bounds(t);
    assert(sp <= 10_000_000_000_000) by (nonlinear_arith)
        requires
            sp >= 0,
            sp * sp <= 100_000_000_000_000_000_000_000_000,
    ;
    assert(-(d * sp) <= -dy * sp <= d * sp) by (nonlinear_arith)
        requires
            -d <= dy <= d,
            0 <= sp,
    ;
    assert(-(d * sp) <= dx * sp <= d * sp) by (nonlinear_arith)
        requires
            -d <= dx <= d,
            0 <= sp,
    ;
    crate::num::lemma_divt_mag(-dy * sp, d, sp);
    crate::num::lemma_divt_mag(dx * sp, d, sp);
}

// ---------------------------------------------------------------------------
// Validity of a whole body set, and when each pass succeeds
// ---------------------------------------------------------------------------

/// Every body's stored values lie in the representable range.
pub open spec fn all_bodies_ok(s: Seq<Body>) -> bool {
    forall|i: int| 0 <= i < s.len() ==> crate::body::body_ok(#[trigger] s[i])
}

/// The pair potential energy of `(i, j)` fits the stored energy range.
pub open spec fn pe_pair_fits(s: Seq<Body>, g: int, i: int, j: int) -> bool {
    pe_pair(g, s[i], s[j]) >= -(ENERGY_LIMIT as int)
}

/// Both updated velocity components of body `i` fit the stored range.
pub open spec fn vel_after_fits(s: Seq<Body>, g: int, dt: int, i: int) -> bool {
    &&& -(VEL_LIMIT as int) <= vel_after_x(s, g, dt, i) <= VEL_LIMIT as int
    &&& -(VEL_LIMIT as int) <= vel_after_y(s, g, dt, i) <= VEL_LIMIT as int
}

/// Both updated position components of body `i` fit the stored range.
pub open spec fn pos_after_fits(s: Seq<Body>, dt: int, i: int) -> bool {
    &&& -(POS_LIMIT as int) <= pos_after_x(s, dt, i) <= POS_LIMIT as int
    &&& -(POS_LIMIT as int) <= pos_after_y(s, dt, i) <= POS_LIMIT as int
}

/// The gravity pass succeeds exactly when every pair energy, the total
/// potential energy, and every updated velocity fit their stored ranges.
pub open spec fn gravity_ok(s: Seq<Body>, g: int, dt: int) -> bool {
    &&& forall|i: int, j: int| 0 <= i < j < s.len() ==> pe_pair_fits(s, g, i, j)
    &&& pe_total(s, g) >= -(ENERGY_LIMIT as int)
    &&& forall|i: int| 0 <= i < s.len() ==> vel_after_fits(s, g, dt, i)
}

/// The motion pass succeeds exactly when every updated position fits.
pub open spec fn motion_ok(s: Seq<Body>, dt: int) -> bool {
    forall|i: int| 0 <= i < s.len() ==> pos_after_fits(s, dt, i)
}

/// The energy pass succeeds exactly when the total kinetic energy fits.
pub open spec fn energy_ok(s: Seq<Body>) -> bool {
    ke_total(s) <= ENERGY_LIMIT as int
}

/// The orbital speed assigned to satellite `i` fits the stored range (it is
/// only assigned when the satellite does not sit on the central body).
pub open spec fn orbit_speed_fits(s: Seq<Body>, g: int, c: int, i: int) -> bool {
    orbit_dist_sq(s[c], s[i]) > 0 ==> orbit_speed(g, s[c], s[i]) <= VEL_LIMIT as int
}

/// The orbit initializer succeeds exactly when every assigned speed fits.
pub open spec fn orbits_ok(s: Seq<Body>, g: int) -> bool {
    forall|i: int| 0 <= i < s.len() && i != central_index(s) ==> orbit_speed_fits(
        s, g, central_index(s), i)
}

/// Largest magnitude of one pairwise acceleration contribution, given
/// bodies in range: `G_LIMIT * MASS_LIMIT * UNIT / 4` (the distance floor
/// keeps the denominator at least `4 * dist`, and the displacement
/// component never exceeds the floored distance).
pub const ACCEL_LIMIT: i128 = 25_000_000_000_000_000_000_000_000;

/// In-range bodies give a positive pair denominator and a pairwise
/// acceleration contribution of bounded magnitude; these bounds make the
/// per-body accumulation safe whatever the configuration.
pub proof fn lemma_accel_bounds(g: int, bi: Body, bj: Body)
    requires
        crate::body::body_ok(bi),
        crate::body::body_ok(bj),
        0 <= g <= G_LIMIT as int,
    ensures
        4 <= floored_dist_sq(bi, bj) <= 20_000_000_000_000_000_000_000,
        2 <= dist(bi, bj) <= 150_000_000_000,
        0 <= raw_dist_sq(bi, bj) <= 20_000_000_000_000_000_000_000,
        0 <= raw_dist(bi, bj) <= 150_000_000_000,
        delta_x(bi, bj) <= raw_dist(bi, bj),
        -raw_dist(bi, bj) <= delta_x(bi, bj),
        delta_y(bi, bj) <= raw_dist(bi, bj),
        -raw_dist(bi, bj) <= delta_y(bi, bj),
        raw_dist_sq(bi, bj) > 0 ==> raw_dist(bi, bj) >= 1,
        raw_dist_sq(bi, bj) > 0 ==> 0 < accel_den(bi, bj)
            <= 3_000_000_000_000_000_000_000_000_000_000_000,
        -ACCEL_LIMIT as int <= accel_x(g, bi, bj) <= ACCEL_LIMIT as int,
        -ACCEL_LIMIT as int <= accel_y(g, bi, bj) <= ACCEL_LIMIT as int,
{
    let dx = delta_x(bi, bj);
    let dy = delta_y(bi, bj);
    let rsum = bi.radius + bj.radius;
    let raw = raw_dist_sq(bi, bj);
    let q = floored_dist_sq(bi, bj);
    assert(0 <= dx * dx <= 10_000_000_000_000_000_000_000) by (nonlinear_arith)
        requires
            -100_000_000_000 <= dx <= 100_000_000_000,
    ;
    assert(0 <= dy * dy <= 10_000_000_000_000_000_000_000) by (nonlinear_arith)
        requires
            -100_000_000_000 <= dy <= 100_000_000_000,
    ;
    assert(4 <= rsum * rsum <= 40_000_000_000_000_000) by (nonlinear_arith)
        requires
            2 <= rsum <= 200_000_000,
    ;
    assert(4 <= q <= 20_000_000_000_000_000_000_000);
    let d = dist(bi, bj);
    crate::num::lemma_sqrt_floor_at_least(q, 2);
    crate::num::lemma_sqrt_floor_bounds(q);
    assert(d <= 150_000_000_000) by (nonlinear_arith)
        requires
            d >= 0,
            d * d <= 20_000_000_000_000_000_000_000,
    ;
    let rd = raw_dist(bi, bj);
    crate::num::lemma_sqrt_floor_bounds(raw);
    assert(rd <= 150_000_000_000) by (nonlinear_arith)
        requires
            rd >= 0,
            rd * rd <= 20_000_000_000_000_000_000_000,
    ;
    if dx >= 0 {
        crate::num::lemma_sqrt_floor_at_least(raw, dx);
    } else {
        assert((-dx) * (-dx) == dx * dx) by (nonlinear_arith);
        crate::num::lemma_sqrt_floor_at_least(raw, -dx);
    }
    if dy >= 0 {
        crate::num::lemma_sqrt_floor_at_least(raw, dy);
    } else {
        assert((-dy) * (-dy) == dy * dy) by (nonlinear_arith);
        crate::num::lemma_sqrt_floor_at_least(raw, -dy);
    }
    if raw > 0 {
        crate::num::lemma_sqrt_floor_at_least(raw, 1);
        let den = accel_den(bi, bj);
        assert(4 <= q * rd <= 3_000_000_000_000_000_000_000_000_000_000_000) by (nonlinear_arith)
            requires
                4 <= q <= 20_000_000_000_000_000_000_000,
                1 <= rd <= 150_000_000_000,
        ;
        let numx = accel_num_x(g, bi, bj);
        let numy = accel_num_y(g, bi, bj);
        assert(-(den * ACCEL_LIMIT as int) <= g * bj.mass * dx * UNIT <= den * ACCEL_LIMIT as int)
            by (nonlinear_arith)
            requires
                0 <= g <= 1_000_000_000,
                0 <= bj.mass <= 100_000_000_000,
                -rd <= dx <= rd,
                1 <= rd,
                4 <= q,
                den == q * rd,
                UNIT == 1_000_000,
                ACCEL_LIMIT == 25_000_000_000_000_000_000_000_000i128,
        ;
        assert(-(den * ACCEL_LIMIT as int) <= g * bj.mass * dy * UNIT <= den * ACCEL_LIMIT as int)
            by (nonlinear_arith)
            requires
                0 <= g <= 1_000_000_000,
                0 <= bj.mass <= 100_000_000_000,
                -rd <= dy <= rd,
                1 <= rd,
                4 <= q,
                den == q * rd,
                UNIT == 1_000_000,
                ACCEL_LIMIT == 25_000_000_000_000_000_000_000_000i128,
        ;
        crate::num::lemma_divt_mag(numx, den, ACCEL_LIMIT as int);
        crate::num::lemma_divt_mag(numy, den, ACCEL_LIMIT as int);
    }
}

/// A setup row is acceptable: radius strictly positive, mass non-negative,
/// and every value in the representable range.
pub open spec fn config_ok(c: crate::body::BodyConfig) -> bool {
    &&& 1 <= c.radius <= RADIUS_LIMIT
    &&& 0 <= c.mass <= MASS_LIMIT
    &&& -(POS_LIMIT as int) <= c.position.x <= POS_LIMIT as int
    &&& -(POS_LIMIT as int) <= c.position.y <= POS_LIMIT as int
    &&& -(VEL_LIMIT as int) <= c.velocity.x <= VEL_LIMIT as int
    &&& -(VEL_LIMIT as int) <= c.velocity.y <= VEL_LIMIT as int
}

} // verus!
