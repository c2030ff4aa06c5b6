//! Rays: an origin plus a direction, with point-at-parameter evaluation.

use crate::vec3::{vadd, vscale, Point3, Vec3};
use vstd::prelude::*;

verus! {

#[derive(Clone, Copy, PartialEq, Eq, Structural, Debug)]
pub struct Ray {
    pub origin: Point3,
    pub direction: Vec3,
}

/// The point `origin + t * direction`.
pub open spec fn ray_at(r: Ray, t: int) -> Point3 {
    vadd(r.origin, vscale(r.direction, t))
}

impl Ray {
    pub fn new(origin: Point3, direction: Vec3) -> (r: Self)
        ensures
            r == (Ray { origin, direction }),
    {
        Self { origin, direction }
    }

    pub fn get_origin(&self) -> (r: Point3)
        ensures
            r == self.origin,
    {
        self.origin
    }

    pub fn get_direction(&self) -> (r: Vec3)
        ensures
            r == self.direction,
    {
        self.direction
    }

    pub fn at(&self, t: i64) -> (r: Point3)
        ensures
            r == ray_at(*self, t as int),
    {
        self.origin.add(&self.direction.multiply_constant(t))
    }
}

} // verus!
