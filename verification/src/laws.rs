//! The laws of the engine, stated and proved over the same model functions
//! that the passes' contracts use.

use crate::body::{Body, Vec2, G_LIMIT, VEL_LIMIT};
use crate::model::{
    accel_den, accel_num_x, accel_num_y, accel_x, accel_y, body_after_orbit_init, central_index,
    delta_x, delta_y, dist, floored_dist_sq, orbit_dist, orbit_dist_sq, orbit_speed, orbit_vel_x,
    orbit_vel_y, raw_dist, raw_dist_sq,
};
use crate::num::{divt, lemma_divt_at_least, lemma_divt_opposite, lemma_divt_times_divisor,
    lemma_sqrt_floor_at_least, lemma_sqrt_floor_bounds, UNIT};
use vstd::prelude::*;

verus! {

/// Newton's third law of the pairwise terms: for any two bodies, the exact
/// mass-weighted acceleration terms (the force of the pair, before the
/// fixed-point quotient rounds them) are equal in magnitude and opposite in
/// direction, and both share one symmetric denominator.
pub proof fn lemma_pairwise_force_balance(g: int, bi: Body, bj: Body)
    ensures
        bi.mass * accel_num_x(g, bi, bj) == -(bj.mass * accel_num_x(g, bj, bi)),
        bi.mass * accel_num_y(g, bi, bj) == -(bj.mass * accel_num_y(g, bj, bi)),
        accel_den(bi, bj) == accel_den(bj, bi),
{
    lemma_floored_dist_sq_symmetric(bi, bj);
    assert(bi.mass * (g * bj.mass * (bj.position.x - bi.position.x) * UNIT) == -(bj.mass * (g
        * bi.mass * (bi.position.x - bj.position.x) * UNIT))) by (nonlinear_arith);
    assert(bi.mass * (g * bj.mass * (bj.position.y - bi.position.y) * UNIT) == -(bj.mass * (g
        * bi.mass * (bi.position.y - bj.position.y) * UNIT))) by (nonlinear_arith);
}

/// The separations — raw and floored — and with them the pair denominator
/// do not depend on the order of the pair.
pub proof fn lemma_floored_dist_sq_symmetric(bi: Body, bj: Body)
    ensures
        raw_dist_sq(bi, bj) == raw_dist_sq(bj, bi),
        raw_dist(bi, bj) == raw_dist(bj, bi),
        floored_dist_sq(bi, bj) == floored_dist_sq(bj, bi),
        dist(bi, bj) == dist(bj, bi),
        accel_den(bi, bj) == accel_den(bj, bi),
{
    let dx = delta_x(bi, bj);
    let dy = delta_y(bi, bj);
    assert((-dx) * (-dx) == dx * dx) by (nonlinear_arith);
    assert((-dy) * (-dy) == dy * dy) by (nonlinear_arith);
}

/// For two bodies of equal mass, even the rounded acceleration
/// contributions are exactly opposite: the quotient rounds toward zero, so
/// it is odd in its numerator.
pub proof fn lemma_equal_mass_accel_opposite(g: int, bi: Body, bj: Body)
    requires
        crate::body::body_ok(bi),
        crate::body::body_ok(bj),
        0 <= g <= G_LIMIT as int,
        bi.mass == bj.mass,
    ensures
        accel_x(g, bi, bj) == -accel_x(g, bj, bi),
        accel_y(g, bi, bj) == -accel_y(g, bj, bi),
{
    crate::model::lemma_accel_bounds(g, bi, bj);
    lemma_floored_dist_sq_symmetric(bi, bj);
    if raw_dist_sq(bi, bj) == 0 {
        return ;
    }
    assert(accel_num_x(g, bj, bi) == -accel_num_x(g, bi, bj)) by (nonlinear_arith)
        requires
            bi.mass == bj.mass,
            accel_num_x(g, bi, bj) == g * bj.mass * (bj.position.x - bi.position.x) * UNIT,
            accel_num_x(g, bj, bi) == g * bi.mass * (bi.position.x - bj.position.x) * UNIT,
    ;
    assert(accel_num_y(g, bj, bi) == -accel_num_y(g, bi, bj)) by (nonlinear_arith)
        requires
            bi.mass == bj.mass,
            accel_num_y(g, bi, bj) == g * bj.mass * (bj.position.y - bi.position.y) * UNIT,
            accel_num_y(g, bj, bi) == g * bi.mass * (bi.position.y - bj.position.y) * UNIT,
    ;
    lemma_divt_opposite(accel_num_x(g, bi, bj), accel_den(bi, bj));
    lemma_divt_opposite(accel_num_y(g, bi, bj), accel_den(bi, bj));
}

/// The distance floor: whatever the positions — the two bodies may sit on
/// the very same point — as long as the radii do not both vanish, the pair
/// acceleration stays finite: at exact coincidence there is no direction
/// and the contribution is zero; everywhere else the denominator is
/// strictly positive (no division by zero) and each rounded component is
/// bounded by `g * m / (r_i + r_j)^2` at the fixed-point scale.
pub proof fn lemma_distance_floor(g: int, bi: Body, bj: Body)
    requires
        bi.radius >= 0,
        bj.radius >= 0,
        bi.radius + bj.radius > 0,
        g >= 0,
        bj.mass >= 0,
    ensures
        floored_dist_sq(bi, bj) >= (bi.radius + bj.radius) * (bi.radius + bj.radius),
        floored_dist_sq(bi, bj) > 0,
        raw_dist_sq(bi, bj) == 0 ==> accel_x(g, bi, bj) == 0 && accel_y(g, bi, bj) == 0,
        raw_dist_sq(bi, bj) > 0 ==> accel_den(bi, bj) > 0,
        -divt(g * bj.mass * UNIT, (bi.radius + bj.radius) * (bi.radius + bj.radius)) <= accel_x(
            g, bi, bj),
        accel_x(g, bi, bj) <= divt(g * bj.mass * UNIT, (bi.radius + bj.radius) * (bi.radius
            + bj.radius)),
        -divt(g * bj.mass * UNIT, (bi.radius + bj.radius) * (bi.radius + bj.radius)) <= accel_y(
            g, bi, bj),
        accel_y(g, bi, bj) <= divt(g * bj.mass * UNIT, (bi.radius + bj.radius) * (bi.radius
            + bj.radius)),
{
    let dx = delta_x(bi, bj);
    let dy = delta_y(bi, bj);
    let rsum = bi.radius + bj.radius;
    let raw = raw_dist_sq(bi, bj);
    let q = floored_dist_sq(bi, bj);
    assert(rsum * rsum >= 1) by (nonlinear_arith)
        requires
            rsum >= 1,
    ;
    assert(dx * dx >= 0 && dy * dy >= 0) by (nonlinear_arith);
    let k = g * bj.mass * UNIT;
    assert(k >= 0) by (nonlinear_arith)
        requires
            g >= 0,
            bj.mass >= 0,
            UNIT == 1_000_000,
            k == g * bj.mass * UNIT,
    ;
    crate::num::lemma_divt_nonneg(k, rsum * rsum);
    if raw > 0 {
        let rd = raw_dist(bi, bj);
        lemma_sqrt_floor_at_least(raw, 1);
        if dx >= 0 {
            lemma_sqrt_floor_at_least(raw, dx);
        } else {
            assert((-dx) * (-dx) == dx * dx) by (nonlinear_arith);
            lemma_sqrt_floor_at_least(raw, -dx);
        }
        if dy >= 0 {
            lemma_sqrt_floor_at_least(raw, dy);
        } else {
            assert((-dy) * (-dy) == dy * dy) by (nonlinear_arith);
            lemma_sqrt_floor_at_least(raw, -dy);
        }
        assert(q * rd > 0) by (nonlinear_arith)
            requires
                q >= 1,
                rd >= 1,
        ;
        lemma_accel_component_bound(g, bi, bj, dx, accel_num_x(g, bi, bj), accel_x(g, bi, bj));
        lemma_accel_component_bound(g, bi, bj, dy, accel_num_y(g, bi, bj), accel_y(g, bi, bj));
    }
}

/// One component of the floor bound, away from coincidence: given the
/// displacement component `dc` with `|dc| <= raw_dist` and the component's
/// numerator `g * m_j * dc * UNIT`, the rounded quotient is bounded by
/// `g * m_j * UNIT / (r_i + r_j)^2`.
proof fn lemma_accel_component_bound(g: int, bi: Body, bj: Body, dc: int, num: int, a: int)
    requires
        bi.radius >= 0,
        bj.radius >= 0,
        bi.radius + bj.radius > 0,
        g >= 0,
        bj.mass >= 0,
        raw_dist_sq(bi, bj) > 0,
        -raw_dist(bi, bj) <= dc <= raw_dist(bi, bj),
        raw_dist(bi, bj) >= 1,
        floored_dist_sq(bi, bj) >= (bi.radius + bj.radius) * (bi.radius + bj.radius) >= 1,
        num == g * bj.mass * dc * UNIT,
        a == divt(num, accel_den(bi, bj)),
    ensures
        -divt(g * bj.mass * UNIT, (bi.radius + bj.radius) * (bi.radius + bj.radius)) <= a,
        a <= divt(g * bj.mass * UNIT, (bi.radius + bj.radius) * (bi.radius + bj.radius)),
{
    let q = floored_dist_sq(bi, bj);
    let rd = raw_dist(bi, bj);
    let den = accel_den(bi, bj);
    let rs = (bi.radius + bj.radius) * (bi.radius + bj.radius);
    let k = g * bj.mass * UNIT;
    assert(den == q * rd);
    assert(den >= 1) by (nonlinear_arith)
        requires
            q >= 1,
            rd >= 1,
            den == q * rd,
    ;
    let abs_num = if num >= 0 { num } else { -num };
    let abs_a = if a >= 0 { a } else { -a };
    assert(k >= 0 && abs_num <= k * rd) by (nonlinear_arith)
        requires
            g >= 0,
            bj.mass >= 0,
            UNIT == 1_000_000,
            -rd <= dc <= rd,
            rd >= 1,
            num == g * bj.mass * dc * UNIT,
            k == g * bj.mass * UNIT,
            abs_num == if num >= 0 { num } else { -num },
    ;
    lemma_divt_opposite(num, den);
    assert(abs_a == divt(abs_num, den));
    lemma_divt_times_divisor(abs_num, den);
    assert(abs_a * q <= k) by (nonlinear_arith)
        requires
            abs_a * den <= abs_num,
            abs_num <= k * rd,
            den == q * rd,
            rd >= 1,
            q >= 1,
            abs_a >= 0,
            k >= 0,
    ;
    assert(abs_a * rs <= abs_a * q) by (nonlinear_arith)
        requires
            abs_a >= 0,
            1 <= rs <= q,
    ;
    lemma_divt_at_least(k, rs, abs_a);
}

/// The sign convention of the energy diagnostics: gravitational potential
/// energy is never positive and kinetic energy never negative, so a bound
/// system — one whose potential dominates — reads a negative total.
pub proof fn lemma_energy_sign_convention(s: Seq<Body>, g: int)
    requires
        crate::model::all_bodies_ok(s),
        g >= 0,
    ensures
        crate::model::pe_total(s, g) <= 0,
        crate::model::ke_total(s) >= 0,
{
    lemma_pe_upto_nonpositive(s, g, s.len() as int);
    lemma_ke_upto_nonnegative(s, s.len() as int);
}

/// One pair's potential energy is never positive.
proof fn lemma_pe_pair_nonpositive(s: Seq<Body>, g: int, i: int, j: int)
    requires
        crate::model::all_bodies_ok(s),
        g >= 0,
        0 <= i < s.len(),
        0 <= j < s.len(),
    ensures
        crate::model::pe_pair(g, s[i], s[j]) <= 0,
{
    let bi = s[i];
    let bj = s[j];
    let q = floored_dist_sq(bi, bj);
    assert((bi.radius + bj.radius) * (bi.radius + bj.radius) >= 4) by (nonlinear_arith)
        requires
            bi.radius >= 1,
            bj.radius >= 1,
    ;
    let dx = delta_x(bi, bj);
    let dy = delta_y(bi, bj);
    assert(dx * dx >= 0 && dy * dy >= 0) by (nonlinear_arith);
    lemma_sqrt_floor_at_least(q, 1);
    let num = g * bi.mass * bj.mass;
    let den = (UNIT as int) * dist(bi, bj);
    assert(num >= 0) by (nonlinear_arith)
        requires
            g >= 0,
            bi.mass >= 0,
            bj.mass >= 0,
            num == g * bi.mass * bj.mass,
    ;
    assert(den >= 1) by (nonlinear_arith)
        requires
            UNIT == 1_000_000,
            dist(bi, bj) >= 1,
            den == (UNIT as int) * dist(bi, bj),
    ;
    crate::num::lemma_divt_nonneg(num, den);
}

/// A partial sum of pair potential energies is never positive.
proof fn lemma_pe_row_nonpositive(s: Seq<Body>, g: int, i: int, upto: int)
    requires
        crate::model::all_bodies_ok(s),
        g >= 0,
        0 <= i < s.len(),
        upto <= s.len(),
    ensures
        crate::model::pe_row(s, g, i, upto) <= 0,
    decreases upto,
{
    if upto > 0 && upto > i + 1 {
        lemma_pe_row_nonpositive(s, g, i, upto - 1);
        lemma_pe_pair_nonpositive(s, g, i, upto - 1);
    }
}

/// The total over the rows is never positive either.
proof fn lemma_pe_upto_nonpositive(s: Seq<Body>, g: int, upto: int)
    requires
        crate::model::all_bodies_ok(s),
        g >= 0,
        upto <= s.len(),
    ensures
        crate::model::pe_upto(s, g, upto) <= 0,
    decreases upto,
{
    if upto > 0 {
        lemma_pe_upto_nonpositive(s, g, upto - 1);
        lemma_pe_row_nonpositive(s, g, upto - 1, s.len() as int);
    }
}

/// A partial sum of kinetic energies is never negative.
proof fn lemma_ke_upto_nonnegative(s: Seq<Body>, upto: int)
    requires
        crate::model::all_bodies_ok(s),
        upto <= s.len(),
    ensures
        crate::model::ke_upto(s, upto) >= 0,
    decreases upto,
{
    if upto > 0 {
        lemma_ke_upto_nonnegative(s, upto - 1);
        let b = s[upto - 1];
        let num = b.mass * (b.velocity.x * b.velocity.x + b.velocity.y * b.velocity.y);
        assert(num >= 0) by (nonlinear_arith)
            requires
                b.mass >= 0,
                num == b.mass * (b.velocity.x * b.velocity.x + b.velocity.y * b.velocity.y),
        ;
        assert(2 * (UNIT as int) * (UNIT as int) == 2_000_000_000_000) by (nonlinear_arith)
            requires
                UNIT == 1_000_000,
        ;
        crate::num::lemma_divt_nonneg(num, 2 * (UNIT as int) * (UNIT as int));
    }
}

/// With fewer than two bodies there are no pairwise terms at all: a lone
/// body feels no acceleration and the system holds no potential energy.
pub proof fn lemma_single_body_is_inert(s: Seq<Body>, g: int, i: int)
    requires
        s.len() < 2,
        s.len() == 1 ==> i == 0,
    ensures
        crate::model::accel_total_x(s, g, i) == 0,
        crate::model::accel_total_y(s, g, i) == 0,
        crate::model::pe_total(s, g) == 0,
{
    if s.len() == 1 {
        assert(crate::model::accel_sum_x(s, g, i, 0) == 0);
        assert(crate::model::accel_sum_y(s, g, i, 0) == 0);
        if i == 0 {
            assert(crate::model::accel_sum_x(s, g, i, 1) == 0);
            assert(crate::model::accel_sum_y(s, g, i, 1) == 0);
        }
        assert(crate::model::pe_row(s, g, 0, 1) == 0);
        assert(crate::model::pe_upto(s, g, 0) == 0);
    }
}

/// The central body really is the one of maximal mass, and the tie-break is
/// the documented one: every earlier body is strictly lighter, so the first
/// body of maximal mass wins, deterministically.
pub proof fn lemma_central_is_first_maximum(s: Seq<Body>)
    requires
        s.len() >= 1,
    ensures
        0 <= crate::model::central_index(s) < s.len(),
        forall|k: int| 0 <= k < s.len() ==> (#[trigger] s[k]).mass <= s[crate::model::central_index(s)].mass,
        forall|k: int| 0 <= k < crate::model::central_index(s) ==> (#[trigger] s[k]).mass < s[
            crate::model::central_index(s)].mass,
{
    lemma_central_upto_is_first_maximum(s, s.len() as int);
}

/// Induction for the central-body law, over the scanned prefix.
proof fn lemma_central_upto_is_first_maximum(s: Seq<Body>, upto: int)
    requires
        1 <= upto <= s.len(),
    ensures
        0 <= crate::model::central_upto(s, upto) < upto,
        forall|k: int| 0 <= k < upto ==> (#[trigger] s[k]).mass <= s[crate::model::central_upto(s, upto)].mass,
        forall|k: int| 0 <= k < crate::model::central_upto(s, upto) ==> (#[trigger] s[k]).mass < s[
            crate::model::central_upto(s, upto)].mass,
    decreases upto,
{
    if upto > 1 {
        lemma_central_upto_is_first_maximum(s, upto - 1);
    }
}

/// Center-of-mass invariance, in the exact form the fixed-point engine
/// keeps it: for a two-body system of equal masses, one force pass changes
/// the two velocities by exactly opposite amounts, so the total momentum —
/// and with it the center of mass of a zero-momentum pair — does not move
/// at all. (With unequal masses the rounded quotients may differ in the
/// last fixed-point digit, so the invariance is exact only up to rounding.)
pub proof fn lemma_equal_mass_pair_momentum(s: Seq<Body>, g: int, dt: int)
    requires
        s.len() == 2,
        crate::body::body_ok(s[0]),
        crate::body::body_ok(s[1]),
        0 <= g <= G_LIMIT as int,
        s[0].mass == s[1].mass,
    ensures
        crate::model::vel_after_x(s, g, dt, 0) - s[0].velocity.x == -(crate::model::vel_after_x(
            s, g, dt, 1) - s[1].velocity.x),
        crate::model::vel_after_y(s, g, dt, 0) - s[0].velocity.y == -(crate::model::vel_after_y(
            s, g, dt, 1) - s[1].velocity.y),
{
    crate::model::lemma_accel_bounds(g, s[0], s[1]);
    assert(crate::model::accel_sum_x(s, g, 0, 0) == 0);
    assert(crate::model::accel_sum_y(s, g, 0, 0) == 0);
    assert(crate::model::accel_sum_x(s, g, 1, 0) == 0);
    assert(crate::model::accel_sum_y(s, g, 1, 0) == 0);
    assert(crate::model::accel_sum_x(s, g, 0, 1) == 0);
    assert(crate::model::accel_sum_y(s, g, 0, 1) == 0);
    assert(crate::model::accel_sum_x(s, g, 1, 1) == accel_x(g, s[1], s[0]));
    assert(crate::model::accel_sum_y(s, g, 1, 1) == accel_y(g, s[1], s[0]));
    assert(crate::model::accel_total_x(s, g, 0) == accel_x(g, s[0], s[1]));
    assert(crate::model::accel_total_y(s, g, 0) == accel_y(g, s[0], s[1]));
    assert(crate::model::accel_total_x(s, g, 1) == accel_x(g, s[1], s[0]));
    assert(crate::model::accel_total_y(s, g, 1) == accel_y(g, s[1], s[0]));
    lemma_equal_mass_accel_opposite(g, s[0], s[1]);
    assert((-accel_x(g, s[0], s[1])) * dt == -(accel_x(g, s[0], s[1]) * dt)) by (nonlinear_arith);
    assert((-accel_y(g, s[0], s[1])) * dt == -(accel_y(g, s[0], s[1]) * dt)) by (nonlinear_arith);
    lemma_divt_opposite(accel_x(g, s[0], s[1]) * dt, UNIT as int);
    lemma_divt_opposite(accel_y(g, s[0], s[1]) * dt, UNIT as int);
}

/// The circular-orbit initialization law in one statement, for a satellite
/// that does not sit on the central body and whose assigned speed is
/// representable: the central body comes to rest exactly; the satellite's
/// stored velocity is the quarter-turn tangent scaled by the orbital speed,
/// each component the exact rounded quotient and no larger than the speed
/// in magnitude; the speed's square brackets `g * M / d` at the fixed-point
/// scale; and the unrounded tangent is exactly perpendicular to the radius
/// vector.
pub proof fn lemma_orbit_initializer_law(s: Seq<Body>, g: int, i: int)
    requires
        crate::model::all_bodies_ok(s),
        0 <= g <= G_LIMIT as int,
        s.len() >= 1,
        0 <= i < s.len(),
        i != central_index(s),
        orbit_dist_sq(s[central_index(s)], s[i]) > 0,
        orbit_speed(g, s[central_index(s)], s[i]) <= VEL_LIMIT as int,
    ensures
        body_after_orbit_init(s, g, central_index(s)).velocity == (Vec2 { x: 0, y: 0 }),
        body_after_orbit_init(s, g, i).velocity.x as int == orbit_vel_x(
            g, s[central_index(s)], s[i]),
        body_after_orbit_init(s, g, i).velocity.y as int == orbit_vel_y(
            g, s[central_index(s)], s[i]),
        -orbit_speed(g, s[central_index(s)], s[i]) <= orbit_vel_x(g, s[central_index(s)], s[i])
            <= orbit_speed(g, s[central_index(s)], s[i]),
        -orbit_speed(g, s[central_index(s)], s[i]) <= orbit_vel_y(g, s[central_index(s)], s[i])
            <= orbit_speed(g, s[central_index(s)], s[i]),
        orbit_speed(g, s[central_index(s)], s[i]) * orbit_speed(g, s[central_index(s)], s[i])
            <= divt(g * s[central_index(s)].mass * UNIT, orbit_dist(s[central_index(s)], s[i])),
        divt(g * s[central_index(s)].mass * UNIT, orbit_dist(s[central_index(s)], s[i])) < (
        orbit_speed(g, s[central_index(s)], s[i]) + 1) * (orbit_speed(
            g, s[central_index(s)], s[i]) + 1),
        delta_x(s[central_index(s)], s[i]) * (-delta_y(s[central_index(s)], s[i]) * orbit_speed(
            g, s[central_index(s)], s[i])) + delta_y(s[central_index(s)], s[i]) * (delta_x(
            s[central_index(s)], s[i]) * orbit_speed(g, s[central_index(s)], s[i])) == 0,
{
    lemma_central_is_first_maximum(s);
    let c = central_index(s);
    assert(crate::body::body_ok(s[c]));
    assert(crate::body::body_ok(s[i]));
    crate::model::lemma_orbit_bounds(g, s[c], s[i]);
    lemma_orbit_speed_squared(g, s[c], s[i]);
    lemma_orbit_tangent_perpendicular(g, s[c], s[i]);
}

/// The orbit initializer's direction law: the assigned velocity direction
/// (the radius vector rotated a quarter turn, scaled by the orbital speed)
/// is exactly perpendicular to the radius vector — their dot product is
/// zero before the per-component quotient rounds them.
pub proof fn lemma_orbit_tangent_perpendicular(g: int, c: Body, b: Body)
    ensures
        delta_x(c, b) * (-delta_y(c, b) * orbit_speed(g, c, b)) + delta_y(c, b) * (delta_x(c, b)
            * orbit_speed(g, c, b)) == 0,
{
    assert(delta_x(c, b) * (-delta_y(c, b) * orbit_speed(g, c, b)) + delta_y(c, b) * (delta_x(
    c, b) * orbit_speed(g, c, b)) == 0) by (nonlinear_arith);
}

/// The orbit initializer's speed law: the assigned speed is the integer
/// square root of `g * M / d` at the fixed-point scale — its square never
/// exceeds that quotient, and the next square exceeds it.
pub proof fn lemma_orbit_speed_squared(g: int, c: Body, b: Body)
    requires
        g >= 0,
        c.mass >= 0,
        orbit_dist(c, b) >= 1,
    ensures
        orbit_speed(g, c, b) * orbit_speed(g, c, b) <= divt(g * c.mass * UNIT, orbit_dist(c, b)),
        divt(g * c.mass * UNIT, orbit_dist(c, b)) < (orbit_speed(g, c, b) + 1) * (orbit_speed(
            g, c, b) + 1),
{
    let k = g * c.mass * UNIT;
    assert(k >= 0) by (nonlinear_arith)
        requires
            g >= 0,
            c.mass >= 0,
            UNIT == 1_000_000,
            k == g * c.mass * UNIT,
    ;
    crate::num::lemma_divt_nonneg(k, orbit_dist(c, b));
    lemma_sqrt_floor_bounds(divt(k, orbit_dist(c, b)));
}

} // verus!
