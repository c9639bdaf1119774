//! Fixed-point arithmetic primitives: truncating division and integer
//! square root, with the facts about them that the physics passes need.

use vstd::arithmetic::div_mod::{
    lemma_div_is_ordered, lemma_div_multiples_vanish, lemma_div_nonincreasing,
    lemma_div_pos_is_pos, lemma_fundamental_div_mod,
};
use vstd::prelude::*;

verus! {

/// Fixed-point scale: every physical quantity is stored as a signed count of
/// millionths of its unit (micro-units).
pub const UNIT: i64 = 1_000_000;

/// Division rounded toward zero, defined for positive divisors. This is the
/// rounding that every fixed-point formula of the library uses; it is odd in
/// its numerator, which the symmetry arguments rely on.
pub open spec fn divt(a: int, b: int) -> int
    recommends
        b > 0,
{
    if a >= 0 {
        a / b
    } else {
        -((-a) / b)
    }
}

/// The largest non-negative integer whose square does not exceed `x`.
pub open spec fn sqrt_floor(x: int) -> int
    recommends
        x >= 0,
    decreases x,
{
    if x <= 0 {
        0
    } else {
        let r = sqrt_floor(x - 1);
        if (r + 1) * (r + 1) <= x {
            r + 1
        } else {
            r
        }
    }
}

/// `sqrt_floor(x)` is the root it claims to be: its square is at most `x`
/// and the next square is beyond `x`.
pub proof fn lemma_sqrt_floor_bounds(x: int)
    requires
        x >= 0,
    ensures
        0 <= sqrt_floor(x),
        sqrt_floor(x) * sqrt_floor(x) <= x,
        x < (sqrt_floor(x) + 1) * (sqrt_floor(x) + 1),
    decreases x,
{
    if x == 0 {
    } else {
        lemma_sqrt_floor_bounds(x - 1);
        let r = sqrt_floor(x - 1);
        if (r + 1) * (r + 1) <= x {
            assert((r + 1) * (r + 1) < (r + 2) * (r + 2)) by (nonlinear_arith)
                requires
                    r >= 0,
            ;
        }
    }
}

/// Any `r` that satisfies the two square bounds is `sqrt_floor(x)`.
pub proof fn lemma_sqrt_floor_is_unique(x: int, r: int)
    requires
        x >= 0,
        r >= 0,
        r * r <= x,
        x < (r + 1) * (r + 1),
    ensures
        r == sqrt_floor(x),
{
    lemma_sqrt_floor_bounds(x);
    let s = sqrt_floor(x);
    if r < s {
        assert((r + 1) * (r + 1) <= s * s) by (nonlinear_arith)
            requires
                0 <= r + 1 <= s,
        ;
    } else if s < r {
        assert((s + 1) * (s + 1) <= r * r) by (nonlinear_arith)
            requires
                0 <= s + 1 <= r,
        ;
    }
}

/// A non-negative integer whose square stays within `q` is at most
/// `sqrt_floor(q)`.
pub proof fn lemma_sqrt_floor_at_least(q: int, d: int)
    requires
        q >= 0,
        d >= 0,
        d * d <= q,
    ensures
        d <= sqrt_floor(q),
{
    lemma_sqrt_floor_bounds(q);
    let s = sqrt_floor(q);
    if s < d {
        assert((s + 1) * (s + 1) <= d * d) by (nonlinear_arith)
            requires
                0 <= s + 1 <= d,
        ;
    }
}

/// Truncating division of a non-negative numerator stays non-negative and
/// never exceeds the numerator.
pub proof fn lemma_divt_nonneg(a: int, b: int)
    requires
        a >= 0,
        b > 0,
    ensures
        0 <= divt(a, b) <= a,
{
    if a > 0 {
        lemma_div_pos_is_pos(a, b);
    }
    lemma_div_nonincreasing(a, b);
}

/// Truncating division is odd in its numerator.
pub proof fn lemma_divt_opposite(a: int, b: int)
    requires
        b > 0,
    ensures
        divt(-a, b) == -divt(a, b),
{
    if a == 0 {
        lemma_div_pos_is_pos(0, b);
        lemma_div_nonincreasing(0, b);
    }
}

/// A bound on the numerator gives the matching bound on the quotient.
pub proof fn lemma_divt_mag(a: int, b: int, c: int)
    requires
        b > 0,
        c >= 0,
        -(b * c) <= a <= b * c,
    ensures
        -c <= divt(a, b) <= c,
{
    lemma_div_multiples_vanish(c, b);
    if a >= 0 {
        lemma_divt_nonneg(a, b);
        lemma_div_is_ordered(a, b * c, b);
    } else {
        lemma_divt_nonneg(-a, b);
        lemma_div_is_ordered(-a, b * c, b);
    }
}

/// A multiple of the divisor below the numerator bounds the quotient from
/// below.
pub proof fn lemma_divt_at_least(a: int, b: int, c: int)
    requires
        b > 0,
        c >= 0,
        c * b <= a,
    ensures
        c <= divt(a, b),
{
    vstd::arithmetic::mul::lemma_mul_is_commutative(c, b);
    lemma_div_multiples_vanish(c, b);
    lemma_div_is_ordered(c * b, a, b);
}

/// The quotient scaled back by the divisor stays within the numerator.
pub proof fn lemma_divt_times_divisor(a: int, b: int)
    requires
        a >= 0,
        b > 0,
    ensures
        divt(a, b) * b <= a,
{
    lemma_fundamental_div_mod(a, b);
    vstd::arithmetic::mul::lemma_mul_is_commutative(b, a / b);
}

/// Quotient of `a` by `b`, rounded toward zero.
pub fn div_trunc(a: i128, b: i128) -> (q: i128)
    requires
        b > 0,
        a > i128::MIN,
    ensures
        q == divt(a as int, b as int),
{
    if a >= 0 {
        let au = a as u128;
        let bu = b as u128;
        let qu = au / bu;
        proof {
            lemma_div_nonincreasing(au as int, bu as int);
        }
        qu as i128
    } else {
        let au = (-a) as u128;
        let bu = b as u128;
        let qu = au / bu;
        proof {
            lemma_div_nonincreasing(au as int, bu as int);
        }
        -(qu as i128)
    }
}

/// Integer square root by binary search on the root.
pub fn isqrt(x: u128) -> (r: u64)
    requires
        (x as int) < 0x10000000000000000000000000,
    ensures
        r as int == sqrt_floor(x as int),
{
    let mut lo: u64 = 0;
    let mut hi: u64 = 0x4000000000000;
    while hi - lo > 1
        invariant
            lo < hi <= 0x4000000000000,
            (lo as int) * (lo as int) <= x as int,
            (x as int) < (hi as int) * (hi as int),
        decreases hi - lo,
    {
        let mid = lo + (hi - lo) / 2;
        proof {
            assert((mid as int) * (mid as int) <= 0x10000000000000000000000000) by (nonlinear_arith)
                requires
                    0 <= mid <= 0x4000000000000,
            ;
        }
        if (mid as u128) * (mid as u128) <= x {
            lo = mid;
        } else {
            hi = mid;
        }
    }
    proof {
        lemma_sqrt_floor_is_unique(x as int, lo as int);
    }
    lo
}

} // verus!
