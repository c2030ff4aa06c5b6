//! Saturating fixed-point scalar arithmetic.
//!
//! A scalar is an `i64` holding a real number in units of `1 / SCALE`, so the
//! real value of a scalar `a` is `a / SCALE` and the scalar for `1.0` is
//! `SCALE`. Multiplication and division truncate toward zero, and every
//! operation saturates its result into `[-LIM, LIM]`, which makes all
//! operations total: there is no overflow and no division-by-zero fault
//! (dividing by zero yields zero). Each executable operation is specified
//! exactly by the `sat_*` spec functions below.

use vstd::arithmetic::div_mod::{
    lemma_div_is_ordered, lemma_div_multiples_vanish, lemma_div_pos_is_pos,
};
use vstd::arithmetic::mul::{
    lemma_mul_cancels_negatives, lemma_mul_inequality, lemma_mul_is_commutative,
    lemma_mul_unary_negation, lemma_mul_upper_bound,
};
use vstd::prelude::*;

verus! {

/// Number of quanta per unit: the scalar `SCALE` is the real number 1.
pub const SCALE: i64 = 65536;

/// Saturation bound: every arithmetic result lies in `[-LIM, LIM]`.
pub const LIM: i64 = 0x4000_0000_0000;

/// Magnitude of an integer.
pub open spec fn mag(x: int) -> int {
    if x < 0 {
        -x
    } else {
        x
    }
}

/// Saturate into the representable window `[-LIM, LIM]`.
pub open spec fn sat(x: int) -> int {
    if x > LIM {
        LIM as int
    } else if x < -(LIM as int) {
        -(LIM as int)
    } else {
        x
    }
}

/// Quotient truncated toward zero; zero when the divisor is zero.
pub open spec fn quot(x: int, d: int) -> int
    recommends
        d != 0,
{
    if d == 0 {
        0
    } else if (x >= 0) == (d >= 0) {
        mag(x) / mag(d)
    } else {
        -(mag(x) / mag(d))
    }
}

/// Saturating fixed-point addition.
pub open spec fn sat_add(a: int, b: int) -> int {
    sat(a + b)
}

/// Saturating fixed-point subtraction.
pub open spec fn sat_sub(a: int, b: int) -> int {
    sat(a - b)
}

/// Saturating fixed-point negation.
pub open spec fn sat_neg(a: int) -> int {
    sat(-a)
}

/// Saturating fixed-point multiplication: `a * b / SCALE`, truncated toward zero.
pub open spec fn sat_mul(a: int, b: int) -> int {
    sat(quot(a * b, SCALE as int))
}

/// Saturating fixed-point division: `a * SCALE / b`, truncated toward zero;
/// zero when `b` is zero.
pub open spec fn sat_div(a: int, b: int) -> int {
    if b == 0 {
        0
    } else {
        sat(quot(a * (SCALE as int), b))
    }
}

/// `r` is the integer square root of `x`, rounded down.
pub open spec fn is_sqrt_floor(x: int, r: int) -> bool {
    0 <= r && r * r <= x && x < (r + 1) * (r + 1)
}

/// The integer square root of `x`, rounded down (meaningful for `x >= 0`).
pub open spec fn sqrt_floor(x: int) -> int {
    choose|r: int| is_sqrt_floor(x, r)
}

/// Fixed-point square root of the real value `a / SCALE`: since the result
/// `r` must satisfy `(r/SCALE)^2 == a/SCALE`, it is the integer square root
/// of `a * SCALE`. Nonpositive inputs yield zero.
pub open spec fn sat_sqrt(a: int) -> int {
    if a <= 0 {
        0
    } else {
        sqrt_floor(a * (SCALE as int))
    }
}

/// An integer square root exists for every nonnegative integer.
pub proof fn lemma_sqrt_floor_exists(x: int) -> (r: int)
    requires
        0 <= x,
    ensures
        is_sqrt_floor(x, r),
    decreases x,
{
    if x == 0 {
        assert(is_sqrt_floor(0, 0)) by (nonlinear_arith);
        0
    } else {
        let p = lemma_sqrt_floor_exists(x - 1);
        if (p + 1) * (p + 1) <= x {
            assert(x < (p + 1 + 1) * (p + 1 + 1)) by (nonlinear_arith)
                requires
                    x - 1 < (p + 1) * (p + 1),
                    p >= 0,
            ;
            p + 1
        } else {
            p
        }
    }
}

/// The integer square root is unique, so `sqrt_floor` returns exactly it.
pub proof fn lemma_sqrt_floor_is(x: int, r: int)
    requires
        is_sqrt_floor(x, r),
    ensures
        sqrt_floor(x) == r,
{
    let c = sqrt_floor(x);
    assert(is_sqrt_floor(x, c)) by {
        assert(exists|s: int| is_sqrt_floor(x, s));
    }
    if c < r {
        lemma_mul_inequality(c + 1, r, c + 1);
        lemma_mul_inequality(c + 1, r, r);
        assert(false);
    } else if r < c {
        lemma_mul_inequality(r + 1, c, r + 1);
        lemma_mul_inequality(r + 1, c, c);
        assert(false);
    }
}

/// The integer square root is monotone.
pub proof fn lemma_sqrt_floor_monotone(x: int, y: int)
    requires
        0 <= x <= y,
    ensures
        is_sqrt_floor(x, sqrt_floor(x)),
        is_sqrt_floor(y, sqrt_floor(y)),
        sqrt_floor(x) <= sqrt_floor(y),
{
    let wx = lemma_sqrt_floor_exists(x);
    lemma_sqrt_floor_is(x, wx);
    let wy = lemma_sqrt_floor_exists(y);
    lemma_sqrt_floor_is(y, wy);
    let rx = sqrt_floor(x);
    let ry = sqrt_floor(y);
    if ry < rx {
        lemma_mul_inequality(ry + 1, rx, ry + 1);
        lemma_mul_inequality(ry + 1, rx, rx);
        assert(false);
    }
}

/// Multiplying by the unit scalar `SCALE` is the identity, up to
/// saturation.
pub proof fn lemma_sat_mul_unit(a: int)
    ensures
        sat_mul(SCALE as int, a) == sat(a),
        sat_mul(a, SCALE as int) == sat(a),
{
    lemma_mul_mag(SCALE as int, a);
    lemma_mul_mag(a, SCALE as int);
    lemma_div_multiples_vanish(mag(a), SCALE as int);
    assert(mag(SCALE as int * a) / (SCALE as int) == mag(a));
    assert(mag(a * (SCALE as int)) / (SCALE as int) == mag(a));
}

/// Multiplying by minus the unit scalar negates, up to saturation.
pub proof fn lemma_sat_mul_neg_unit(a: int)
    ensures
        sat_mul(a, -(SCALE as int)) == sat(-a),
        sat_mul(-(SCALE as int), a) == sat(-a),
{
    lemma_mul_mag(a, -(SCALE as int));
    lemma_mul_mag(-(SCALE as int), a);
    lemma_div_multiples_vanish(mag(a), SCALE as int);
    lemma_mul_is_commutative(mag(a), SCALE as int);
    assert(mag(-(SCALE as int)) == SCALE as int);
}

/// The fixed-point square of a scalar of magnitude at most `2^28` is
/// nonnegative and at most `2^40`: well inside the saturation window.
pub proof fn lemma_sat_mul_sq_small(a: int)
    requires
        mag(a) <= 0x1000_0000,
    ensures
        0 <= sat_mul(a, a) <= 0x100_0000_0000,
        sat_mul(a, a) == sat_mul(-a, -a),
{
    lemma_mul_mag(a, a);
    lemma_mul_mag(-a, -a);
    lemma_mul_cancels_negatives(a, a);
    lemma_mul_upper_bound(mag(a), 0x1000_0000, mag(a), 0x1000_0000);
    assert(0x1000_0000int * 0x1000_0000int == 0x100_0000_0000_0000int) by (nonlinear_arith);
    lemma_div_is_ordered(mag(a * a), 0x100_0000_0000_0000, SCALE as int);
    assert(0x100_0000_0000_0000int / 65536int == 0x100_0000_0000int) by (nonlinear_arith);
    lemma_div_pos_is_pos(mag(a * a), SCALE as int);
}

/// A product of scalars from the unit interval stays in the unit interval,
/// and never exceeds either factor.
pub proof fn lemma_sat_mul_unit_range(a: int, b: int)
    requires
        0 <= a <= SCALE,
        0 <= b <= SCALE,
    ensures
        0 <= sat_mul(a, b) <= b,
        sat_mul(a, b) <= a,
{
    lemma_mul_mag(a, b);
    lemma_mul_upper_bound(a, SCALE as int, b, b);
    lemma_mul_upper_bound(a, a, b, SCALE as int);
    lemma_div_pos_is_pos(a * b, SCALE as int);
    lemma_div_is_ordered(a * b, (SCALE as int) * b, SCALE as int);
    lemma_div_is_ordered(a * b, a * (SCALE as int), SCALE as int);
    lemma_div_multiples_vanish(b, SCALE as int);
    lemma_mul_is_commutative(a, SCALE as int);
    lemma_div_multiples_vanish(a, SCALE as int);
}

/// Dividing by the unit scalar `SCALE` is the identity, up to saturation.
pub proof fn lemma_sat_div_unit(a: int)
    ensures
        sat_div(a, SCALE as int) == sat(a),
{
    lemma_mul_mag(a, SCALE as int);
    lemma_div_multiples_vanish(mag(a), SCALE as int);
    assert(mag(a * (SCALE as int)) / (SCALE as int) == mag(a));
}

/// Truncating division by a positive divisor is monotone.
pub proof fn lemma_quot_monotone(x1: int, x2: int, d: int)
    requires
        x1 <= x2,
        d > 0,
    ensures
        quot(x1, d) <= quot(x2, d),
{
    if 0 <= x1 {
        lemma_div_is_ordered(x1, x2, d);
    } else if x2 < 0 {
        lemma_div_is_ordered(-x2, -x1, d);
    } else {
        lemma_div_pos_is_pos(-x1, d);
        lemma_div_pos_is_pos(x2, d);
    }
}

/// Saturating fixed-point division by a positive divisor is monotone in
/// the dividend.
pub proof fn lemma_sat_div_monotone(a1: int, a2: int, b: int)
    requires
        a1 <= a2,
        b > 0,
    ensures
        sat_div(a1, b) <= sat_div(a2, b),
{
    lemma_mul_inequality(a1, a2, SCALE as int);
    lemma_quot_monotone(a1 * (SCALE as int), a2 * (SCALE as int), b);
}

/// The fixed-point square root of a scalar at most one is at most one.
pub proof fn lemma_sat_sqrt_le_unit(a: int)
    requires
        a <= SCALE,
    ensures
        0 <= sat_sqrt(a) <= SCALE,
{
    if a > 0 {
        lemma_mul_inequality(0, a, SCALE as int);
        lemma_mul_inequality(a, SCALE as int, SCALE as int);
        lemma_sqrt_floor_monotone(a * (SCALE as int), (SCALE as int) * (SCALE as int));
        assert(65536int * 65536int == 4294967296int) by (nonlinear_arith);
        assert(65537int * 65537int == 4295098369int) by (nonlinear_arith);
        assert(is_sqrt_floor(4294967296, 65536));
        lemma_sqrt_floor_is(4294967296, 65536);
    }
}

/// The fixed-point square root is never negative.
pub proof fn lemma_sat_sqrt_nonneg(a: int)
    ensures
        0 <= sat_sqrt(a),
{
    if a > 0 {
        lemma_mul_inequality(0, a, SCALE as int);
        let w = lemma_sqrt_floor_exists(a * (SCALE as int));
        lemma_sqrt_floor_is(a * (SCALE as int), w);
    }
}

/// Magnitude of an `i64`, as a `u128`.
fn mag_u128(a: i64) -> (m: u128)
    ensures
        m == mag(a as int),
{
    if a >= 0 {
        a as u128
    } else {
        let w: i128 = -(a as i128);
        w as u128
    }
}

/// Saturate a nonnegative magnitude and reattach a sign.
fn signed_sat(neg: bool, m: u128) -> (r: i64)
    ensures
        r as int == if neg {
            sat(-(m as int))
        } else {
            sat(m as int)
        },
{
    let c: u128 = if m > LIM as u128 {
        LIM as u128
    } else {
        m
    };
    if neg {
        -(c as i64)
    } else {
        c as i64
    }
}

/// Saturating fixed-point addition.
pub fn fx_add(a: i64, b: i64) -> (r: i64)
    ensures
        r as int == sat_add(a as int, b as int),
{
    let s: i128 = a as i128 + b as i128;
    let c: i128 = if s > LIM as i128 {
        LIM as i128
    } else if s < -(LIM as i128) {
        -(LIM as i128)
    } else {
        s
    };
    c as i64
}

/// Saturating fixed-point subtraction.
pub fn fx_sub(a: i64, b: i64) -> (r: i64)
    ensures
        r as int == sat_sub(a as int, b as int),
{
    let s: i128 = a as i128 - b as i128;
    let c: i128 = if s > LIM as i128 {
        LIM as i128
    } else if s < -(LIM as i128) {
        -(LIM as i128)
    } else {
        s
    };
    c as i64
}

/// Saturating fixed-point negation.
pub fn fx_neg(a: i64) -> (r: i64)
    ensures
        r as int == sat_neg(a as int),
{
    let s: i128 = -(a as i128);
    let c: i128 = if s > LIM as i128 {
        LIM as i128
    } else if s < -(LIM as i128) {
        -(LIM as i128)
    } else {
        s
    };
    c as i64
}

/// Magnitudes multiply: `mag(a * b) == mag(a) * mag(b)`, and the product's
/// sign agrees with the signs of the factors.
proof fn lemma_mul_mag(a: int, b: int)
    ensures
        mag(a * b) == mag(a) * mag(b),
        a != 0 && b != 0 ==> ((a * b >= 0) == ((a >= 0) == (b >= 0))),
{
    if a == 0 || b == 0 {
        assert(a * b == 0) by (nonlinear_arith)
            requires
                a == 0 || b == 0,
        ;
        let x = mag(a);
        let y = mag(b);
        assert(x * y == 0) by (nonlinear_arith)
            requires
                x == 0 || y == 0,
        ;
    } else {
        assert(mag(a * b) == mag(a) * mag(b) && ((a * b >= 0) == ((a >= 0) == (b >= 0))))
            by (nonlinear_arith)
            requires
                a != 0,
                b != 0,
        ;
    }
}

/// Saturating fixed-point multiplication.
pub fn fx_mul(a: i64, b: i64) -> (r: i64)
    ensures
        r as int == sat_mul(a as int, b as int),
{
    let ma = mag_u128(a);
    let mb = mag_u128(b);
    proof {
        lemma_mul_upper_bound(ma as int, 0x8000_0000_0000_0000, mb as int, 0x8000_0000_0000_0000);
        lemma_mul_mag(a as int, b as int);
    }
    let p: u128 = ma * mb;
    let q: u128 = p / (SCALE as u128);
    let neg = (a < 0) != (b < 0);
    proof {
        if q == 0 {
            assert(quot((a as int) * (b as int), SCALE as int) == 0);
        }
    }
    signed_sat(neg, q)
}

/// Saturating fixed-point division.
pub fn fx_div(a: i64, b: i64) -> (r: i64)
    ensures
        r as int == sat_div(a as int, b as int),
{
    if b == 0 {
        return 0;
    }
    let ma = mag_u128(a);
    let mb = mag_u128(b);
    proof {
        lemma_mul_upper_bound(ma as int, 0x8000_0000_0000_0000, SCALE as int, 0x1_0000);
        lemma_mul_mag(a as int, SCALE as int);
    }
    let p: u128 = ma * (SCALE as u128);
    let q: u128 = p / mb;
    let neg = (a < 0) != (b < 0);
    proof {
        if q == 0 {
            assert(quot((a as int) * (SCALE as int), b as int) == 0);
        }
    }
    signed_sat(neg, q)
}

/// Saturating fixed-point square root.
pub fn fx_sqrt(a: i64) -> (r: i64)
    ensures
        r as int == sat_sqrt(a as int),
        0 <= r,
{
    if a <= 0 {
        return 0;
    }
    proof {
        lemma_mul_upper_bound(a as int, 0x8000_0000_0000_0000, SCALE as int, 0x1_0000);
    }
    let x: u128 = (a as u128) * (SCALE as u128);
    proof {
        assert(0x1_0000_0000_0000u128 * 0x1_0000_0000_0000u128 > x) by (nonlinear_arith)
            requires
                x < 0x8000_0000_0000_0000 * 0x1_0000,
        ;
    }
    let mut lo: u128 = 0;
    let mut hi: u128 = 0x1_0000_0000_0000;
    while lo + 1 < hi
        invariant
            (lo as int) * (lo as int) <= x as int,
            (x as int) < (hi as int) * (hi as int),
            lo < hi,
            hi <= 0x1_0000_0000_0000,
        decreases hi - lo,
    {
        let mid: u128 = lo + (hi - lo) / 2;
        proof {
            lemma_mul_upper_bound(mid as int, 0x1_0000_0000_0000, mid as int, 0x1_0000_0000_0000);
        }
        if mid * mid <= x {
            lo = mid;
        } else {
            hi = mid;
        }
    }
    proof {
        assert(is_sqrt_floor(x as int, lo as int));
        lemma_sqrt_floor_is(x as int, lo as int);
    }
    lo as i64
}

/// Fixed-point magnitude.
pub fn fx_mag(a: i64) -> (r: i64)
    ensures
        r as int == sat(mag(a as int)),
{
    if a >= 0 {
        if a > LIM {
            LIM
        } else {
            a
        }
    } else {
        let w: i128 = -(a as i128);
        let c: i128 = if w > LIM as i128 {
            LIM as i128
        } else {
            w
        };
        c as i64
    }
}

/// The smaller of two scalars.
pub fn fx_min(a: i64, b: i64) -> (r: i64)
    ensures
        r as int == vstd::math::min(a as int, b as int),
{
    if a < b {
        a
    } else {
        b
    }
}

/// Clamp a scalar into `[lo, hi]`.
pub fn fx_clamp(a: i64, lo: i64, hi: i64) -> (r: i64)
    requires
        lo <= hi,
    ensures
        r as int == vstd::math::min(vstd::math::max(a as int, lo as int), hi as int),
{
    if a < lo {
        lo
    } else if a > hi {
        hi
    } else {
        a
    }
}

} // verus!
