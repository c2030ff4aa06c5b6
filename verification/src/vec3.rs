//! Three-component fixed-point vectors.
//!
//! `Vec3` is the value type shared by positions (`Point3`), directions and
//! colors. Every operation is specified exactly by a spec function built
//! from the saturating scalar operations in `fixed`.

use crate::fixed::{
    fx_add, fx_div, fx_mag, fx_mul, fx_neg, fx_sqrt, fx_sub, mag, sat_add, sat_div, sat_mul,
    sat_neg, sat_sqrt, sat_sub, LIM,
};
use vstd::prelude::*;

verus! {

/// Components with magnitude below this count as zero (one quantum).
pub const NEAR_ZERO_EPS: i64 = 1;

#[derive(Clone, Copy, PartialEq, Eq, Structural, Debug)]
pub struct Vec3 {
    pub x: i64,
    pub y: i64,
    pub z: i64,
}

/// A position in space; the same representation as a direction.
pub type Point3 = Vec3;

/// Componentwise negation.
pub open spec fn vneg(a: Vec3) -> Vec3 {
    Vec3 { x: sat_neg(a.x as int) as i64, y: sat_neg(a.y as int) as i64, z: sat_neg(a.z as int) as i64 }
}

/// Componentwise sum.
pub open spec fn vadd(a: Vec3, b: Vec3) -> Vec3 {
    Vec3 {
        x: sat_add(a.x as int, b.x as int) as i64,
        y: sat_add(a.y as int, b.y as int) as i64,
        z: sat_add(a.z as int, b.z as int) as i64,
    }
}

/// Componentwise difference.
pub open spec fn vsub(a: Vec3, b: Vec3) -> Vec3 {
    Vec3 {
        x: sat_sub(a.x as int, b.x as int) as i64,
        y: sat_sub(a.y as int, b.y as int) as i64,
        z: sat_sub(a.z as int, b.z as int) as i64,
    }
}

/// Componentwise (elementwise) product.
pub open spec fn vmul(a: Vec3, b: Vec3) -> Vec3 {
    Vec3 {
        x: sat_mul(a.x as int, b.x as int) as i64,
        y: sat_mul(a.y as int, b.y as int) as i64,
        z: sat_mul(a.z as int, b.z as int) as i64,
    }
}

/// Add a scalar to each component.
pub open spec fn vadd_c(a: Vec3, v: int) -> Vec3 {
    Vec3 {
        x: sat_add(a.x as int, v) as i64,
        y: sat_add(a.y as int, v) as i64,
        z: sat_add(a.z as int, v) as i64,
    }
}

/// Scale each component by a scalar.
pub open spec fn vscale(a: Vec3, v: int) -> Vec3 {
    Vec3 {
        x: sat_mul(a.x as int, v) as i64,
        y: sat_mul(a.y as int, v) as i64,
        z: sat_mul(a.z as int, v) as i64,
    }
}

/// Divide each component by a scalar.
pub open spec fn vdiv_c(a: Vec3, v: int) -> Vec3 {
    Vec3 {
        x: sat_div(a.x as int, v) as i64,
        y: sat_div(a.y as int, v) as i64,
        z: sat_div(a.z as int, v) as i64,
    }
}

/// Dot product.
pub open spec fn vdot(a: Vec3, b: Vec3) -> int {
    sat_add(
        sat_add(sat_mul(a.x as int, b.x as int), sat_mul(a.y as int, b.y as int)),
        sat_mul(a.z as int, b.z as int),
    )
}

/// Squared length.
pub open spec fn vsquare(a: Vec3) -> int {
    vdot(a, a)
}

/// Euclidean length.
pub open spec fn vlength(a: Vec3) -> int {
    sat_sqrt(vsquare(a))
}

/// The vector scaled to unit length (the zero vector when the length is zero).
pub open spec fn vunit(a: Vec3) -> Vec3 {
    vdiv_c(a, vlength(a))
}

/// All components below one quantum in magnitude.
pub open spec fn vnear_zero(a: Vec3) -> bool {
    mag(a.x as int) < NEAR_ZERO_EPS && mag(a.y as int) < NEAR_ZERO_EPS && mag(a.z as int)
        < NEAR_ZERO_EPS
}

/// All components lie inside the saturation window.
pub open spec fn vwf(a: Vec3) -> bool {
    mag(a.x as int) <= LIM && mag(a.y as int) <= LIM && mag(a.z as int) <= LIM
}

/// Scaling any vector by zero gives the zero vector.
pub proof fn lemma_vscale_zero(a: Vec3)
    ensures
        vscale(a, 0) == (Vec3 { x: 0i64, y: 0i64, z: 0i64 }),
{
    assert(a.x as int * 0 == 0) by (nonlinear_arith);
    assert(a.y as int * 0 == 0) by (nonlinear_arith);
    assert(a.z as int * 0 == 0) by (nonlinear_arith);
}

/// Adding the zero vector to an in-window vector is the identity.
pub proof fn lemma_vadd_zero(a: Vec3)
    requires
        vwf(a),
    ensures
        vadd(a, Vec3 { x: 0i64, y: 0i64, z: 0i64 }) == a,
        vadd(Vec3 { x: 0i64, y: 0i64, z: 0i64 }, a) == a,
{
}

/// Subtracting the zero vector from an in-window vector is the identity.
pub proof fn lemma_vsub_zero(a: Vec3)
    requires
        vwf(a),
    ensures
        vsub(a, Vec3 { x: 0i64, y: 0i64, z: 0i64 }) == a,
{
}

/// Right-handed cross product.
pub open spec fn vcross(a: Vec3, b: Vec3) -> Vec3 {
    Vec3 {
        x: sat_sub(sat_mul(a.y as int, b.z as int), sat_mul(a.z as int, b.y as int)) as i64,
        y: sat_sub(sat_mul(a.z as int, b.x as int), sat_mul(a.x as int, b.z as int)) as i64,
        z: sat_sub(sat_mul(a.x as int, b.y as int), sat_mul(a.y as int, b.x as int)) as i64,
    }
}

impl Vec3 {
    /// The zero vector.
    pub fn empty() -> (r: Self)
        ensures
            r == (Vec3 { x: 0i64, y: 0i64, z: 0i64 }),
    {
        Self { x: 0, y: 0, z: 0 }
    }

    pub fn new(x: i64, y: i64, z: i64) -> (r: Self)
        ensures
            r == (Vec3 { x, y, z }),
    {
        Self { x, y, z }
    }

    pub fn get_x(&self) -> (r: i64)
        ensures
            r == self.x,
    {
        self.x
    }

    pub fn get_y(&self) -> (r: i64)
        ensures
            r == self.y,
    {
        self.y
    }

    pub fn get_z(&self) -> (r: i64)
        ensures
            r == self.z,
    {
        self.z
    }

    pub fn negative(&self) -> (r: Self)
        ensures
            r == vneg(*self),
    {
        Self { x: fx_neg(self.x), y: fx_neg(self.y), z: fx_neg(self.z) }
    }

    pub fn add(&self, other: &Self) -> (r: Self)
        ensures
            r == vadd(*self, *other),
    {
        Self { x: fx_add(self.x, other.x), y: fx_add(self.y, other.y), z: fx_add(self.z, other.z) }
    }

    pub fn subtract(&self, other: &Self) -> (r: Self)
        ensures
            r == vsub(*self, *other),
    {
        Self { x: fx_sub(self.x, other.x), y: fx_sub(self.y, other.y), z: fx_sub(self.z, other.z) }
    }

    pub fn multiply(&self, other: &Self) -> (r: Self)
        ensures
            r == vmul(*self, *other),
    {
        Self { x: fx_mul(self.x, other.x), y: fx_mul(self.y, other.y), z: fx_mul(self.z, other.z) }
    }

    pub fn add_constant(&self, value: i64) -> (r: Self)
        ensures
            r == vadd_c(*self, value as int),
    {
        Self { x: fx_add(self.x, value), y: fx_add(self.y, value), z: fx_add(self.z, value) }
    }

    pub fn multiply_constant(&self, value: i64) -> (r: Self)
        ensures
            r == vscale(*self, value as int),
    {
        Self { x: fx_mul(self.x, value), y: fx_mul(self.y, value), z: fx_mul(self.z, value) }
    }

    pub fn divide_constant(&self, value: i64) -> (r: Self)
        ensures
            r == vdiv_c(*self, value as int),
    {
        Self { x: fx_div(self.x, value), y: fx_div(self.y, value), z: fx_div(self.z, value) }
    }

    pub fn dot(&self, other: &Self) -> (r: i64)
        ensures
            r as int == vdot(*self, *other),
    {
        fx_add(fx_add(fx_mul(self.x, other.x), fx_mul(self.y, other.y)), fx_mul(self.z, other.z))
    }

    pub fn square(&self) -> (r: i64)
        ensures
            r as int == vsquare(*self),
    {
        self.dot(self)
    }

    pub fn length(&self) -> (r: i64)
        ensures
            r as int == vlength(*self),
            0 <= r,
    {
        fx_sqrt(self.square())
    }

    pub fn unit_vector(&self) -> (r: Self)
        ensures
            r == vunit(*self),
    {
        self.divide_constant(self.length())
    }

    pub fn near_zero(&self) -> (r: bool)
        ensures
            r == vnear_zero(*self),
    {
        fx_mag(self.x) < NEAR_ZERO_EPS && fx_mag(self.y) < NEAR_ZERO_EPS && fx_mag(self.z)
            < NEAR_ZERO_EPS
    }

    pub fn cross(&self, other: &Vec3) -> (r: Vec3)
        ensures
            r == vcross(*self, *other),
    {
        Vec3 {
            x: fx_sub(fx_mul(self.y, other.z), fx_mul(self.z, other.y)),
            y: fx_sub(fx_mul(self.z, other.x), fx_mul(self.x, other.z)),
            z: fx_sub(fx_mul(self.x, other.y), fx_mul(self.y, other.x)),
        }
    }
}

} // verus!
