//! Random sampling helpers and the reflection / refraction formulas.
//!
//! The one trusted item of the crate is `sample_uniform`, the uniform
//! integer source; everything built on top of it is verified. A sampled
//! value is only ever constrained by its range, so every contract here
//! states what holds of every possible outcome.

use crate::fixed::{
    fx_mag, fx_mul, fx_sqrt, fx_sub, mag, sat_mul, sat_neg, sat_sqrt, sat_sub, LIM, SCALE,
};
use crate::vec3::{vadd, vdot, vneg, vscale, vsquare, vsub, vunit, Vec3};
use rand::Rng;
use vstd::arithmetic::mul::{lemma_mul_cancels_negatives, lemma_mul_unary_negation};
use vstd::prelude::*;

verus! {

/// The constant pi in fixed-point quanta.
pub const PI_FX: i64 = 205887;

/// The constant 180 in fixed-point quanta.
pub const DEG_180_FX: i64 = 11796480;

/// Number of rejection-sampling attempts before falling back to a fixed
/// in-sphere vector.
pub const MAX_SAMPLE_TRIES: u32 = 64;

/// Relies on `rand::Rng::gen_range` over a half-open `i64` range (through
/// `rand::thread_rng`): the sample lies in `[lo, hi)`, and the call panics
/// only on an empty range, which the precondition rules out.
#[verifier::external_body]
fn sample_uniform(lo: i64, hi: i64) -> (r: i64)
    requires
        lo < hi,
    ensures
        lo <= r < hi,
{
    rand::thread_rng().gen_range(lo..hi)
}

/// Convert an angle in degrees to radians: multiply by pi / 180.
pub fn degrees_to_radians(degrees: i64) -> (r: i64)
    ensures
        r as int == crate::fixed::sat_div(sat_mul(degrees as int, PI_FX as int), DEG_180_FX as int),
{
    crate::fixed::fx_div(fx_mul(degrees, PI_FX), DEG_180_FX)
}

/// A uniform sample in `[0, 1)`.
pub fn random_double() -> (r: i64)
    ensures
        0 <= r < SCALE,
{
    sample_uniform(0, SCALE)
}

/// A uniform sample in `[min, max)`.
pub fn random_in_range(min: i64, max: i64) -> (r: i64)
    requires
        min < max,
    ensures
        min <= r < max,
{
    sample_uniform(min, max)
}

/// A vector whose components are uniform samples in `[0, 1)`.
pub fn random_vec3() -> (r: Vec3)
    ensures
        0 <= r.x < SCALE,
        0 <= r.y < SCALE,
        0 <= r.z < SCALE,
{
    Vec3::new(random_double(), random_double(), random_double())
}

/// A vector whose components are uniform samples in `[min, max)`.
pub fn random_vec_in_range(min: i64, max: i64) -> (r: Vec3)
    requires
        min < max,
    ensures
        min <= r.x < max,
        min <= r.y < max,
        min <= r.z < max,
{
    Vec3::new(random_in_range(min, max), random_in_range(min, max), random_in_range(min, max))
}

/// A vector inside the unit sphere, by rejection sampling of the cube
/// `[-1, 1)^3` (with a fixed in-sphere fallback after `MAX_SAMPLE_TRIES`
/// rejections, so the function always returns).
pub fn random_in_unit_sphere() -> (r: Vec3)
    ensures
        vsquare(r) < SCALE,
        mag(r.x as int) <= SCALE,
        mag(r.y as int) <= SCALE,
        mag(r.z as int) <= SCALE,
{
    let mut tries: u32 = 0;
    while tries < MAX_SAMPLE_TRIES
        invariant
            true,
        decreases MAX_SAMPLE_TRIES - tries,
    {
        let v = random_vec_in_range(-SCALE, SCALE);
        if v.square() < SCALE {
            return v;
        }
        tries = tries + 1;
    }
    let f = Vec3::new(32768, 0, 0);
    proof {
        assert(32768int * 32768int == 1073741824int) by (nonlinear_arith);
        assert(0int * 0int == 0int) by (nonlinear_arith);
        assert(1073741824int / 65536int == 16384int) by (nonlinear_arith);
        assert(0int / 65536int == 0int) by (nonlinear_arith);
        assert(vsquare(f) < SCALE);
    }
    f
}

/// A vector inside the unit disk of the x-y plane, by rejection sampling
/// (with a fixed in-disk fallback after `MAX_SAMPLE_TRIES` rejections).
pub fn random_in_unit_disk() -> (r: Vec3)
    ensures
        vsquare(r) < SCALE,
        r.z == 0,
        mag(r.x as int) <= SCALE,
        mag(r.y as int) <= SCALE,
{
    let mut tries: u32 = 0;
    while tries < MAX_SAMPLE_TRIES
        invariant
            true,
        decreases MAX_SAMPLE_TRIES - tries,
    {
        let v = Vec3::new(random_in_range(-SCALE, SCALE), random_in_range(-SCALE, SCALE), 0);
        if v.square() < SCALE {
            return v;
        }
        tries = tries + 1;
    }
    let f = Vec3::new(32768, 0, 0);
    proof {
        assert(32768int * 32768int == 1073741824int) by (nonlinear_arith);
        assert(0int * 0int == 0int) by (nonlinear_arith);
        assert(1073741824int / 65536int == 16384int) by (nonlinear_arith);
        assert(0int / 65536int == 0int) by (nonlinear_arith);
        assert(vsquare(f) < SCALE);
    }
    f
}

/// The unit vector of a sample from the unit sphere.
pub fn random_unit_vector() -> (r: Vec3)
    ensures
        exists|s: Vec3| vsquare(s) < SCALE && r == #[trigger] vunit(s),
{
    let s = random_in_unit_sphere();
    let r = s.unit_vector();
    proof {
        assert(vsquare(s) < SCALE && r == vunit(s));
    }
    r
}

/// Negating a vector with in-window components negates its dot products.
pub proof fn lemma_vdot_neg(a: Vec3, b: Vec3)
    requires
        mag(a.x as int) <= LIM,
        mag(a.y as int) <= LIM,
        mag(a.z as int) <= LIM,
    ensures
        vdot(vneg(a), b) == -vdot(a, b),
{
    lemma_mul_unary_negation(a.x as int, b.x as int);
    lemma_mul_unary_negation(a.y as int, b.y as int);
    lemma_mul_unary_negation(a.z as int, b.z as int);
}

/// Negating a vector with in-window components keeps its squared length.
pub proof fn lemma_vsquare_neg(a: Vec3)
    requires
        mag(a.x as int) <= LIM,
        mag(a.y as int) <= LIM,
        mag(a.z as int) <= LIM,
    ensures
        vsquare(vneg(a)) == vsquare(a),
{
    lemma_mul_cancels_negatives(a.x as int, a.x as int);
    lemma_mul_cancels_negatives(a.y as int, a.y as int);
    lemma_mul_cancels_negatives(a.z as int, a.z as int);
}

/// A sample from the unit sphere, flipped if needed so that it lies in the
/// hemisphere of the given normal.
pub fn random_in_hemisphere(normal: &Vec3) -> (r: Vec3)
    ensures
        vdot(r, *normal) >= 0,
        vsquare(r) < SCALE,
{
    let in_unit_sphere = random_in_unit_sphere();
    if in_unit_sphere.dot(normal) > 0 {
        in_unit_sphere
    } else {
        proof {
            lemma_vdot_neg(in_unit_sphere, *normal);
            lemma_vsquare_neg(in_unit_sphere);
        }
        in_unit_sphere.negative()
    }
}

/// The mirror reflection of `v` about the normal `n`: `v - 2 (v . n) n`.
pub open spec fn reflect_s(v: Vec3, n: Vec3) -> Vec3 {
    vsub(v, vscale(n, sat_mul(vdot(v, n), 2 * SCALE)))
}

/// Reflect `v` about the normal `n`.
pub fn reflect(v: &Vec3, n: &Vec3) -> (r: Vec3)
    ensures
        r == reflect_s(*v, *n),
{
    v.subtract(&n.multiply_constant(fx_mul(v.dot(n), 2 * SCALE)))
}

/// Snell refraction of the unit direction `u` at a surface with unit normal
/// `n` and refraction ratio `ratio`, split into the tangential part
/// `ratio * (u + cos * n)` and the normal part `-sqrt(|1 - tangential^2|) n`.
pub open spec fn refract_s(u: Vec3, n: Vec3, ratio: int) -> Vec3 {
    let cos = vstd::math::min(vdot(n, vneg(u)), SCALE as int);
    let a = vscale(vadd(u, vscale(n, cos)), ratio);
    let b = vscale(n, sat_neg(sat_sqrt(mag(sat_sub(SCALE as int, vsquare(a))))));
    vadd(a, b)
}

/// Refract the unit direction `u` at a surface with unit normal `n`.
pub fn refract(unit_direction: &Vec3, normal: &Vec3, refraction_ratio: i64) -> (r: Vec3)
    ensures
        r == refract_s(*unit_direction, *normal, refraction_ratio as int),
{
    let cos = crate::fixed::fx_min(normal.dot(&unit_direction.negative()), SCALE);
    let a = unit_direction.add(&normal.multiply_constant(cos)).multiply_constant(refraction_ratio);
    let b = normal.multiply_constant(crate::fixed::fx_neg(fx_sqrt(fx_mag(fx_sub(SCALE, a.square())))));
    a.add(&b)
}

} // verus!
