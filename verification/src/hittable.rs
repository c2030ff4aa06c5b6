//! Intersection records and the nearest-intersection abstraction.

use crate::material::Material;
use crate::ray::Ray;
use crate::vec3::{vdot, vneg, Point3, Vec3};
use vstd::prelude::*;

verus! {

/// The result of a successful ray-primitive intersection.
#[derive(Clone, Copy, PartialEq, Eq, Structural, Debug)]
pub struct HitRecord {
    pub point: Point3,
    pub normal: Vec3,
    pub t: i64,
    pub material: Material,
    pub front_face: bool,
}

/// The record built from an outward surface normal: `front_face` holds
/// exactly when the ray strikes the side the outward normal points toward
/// (`direction . outward < 0`), and the stored normal is the outward normal
/// flipped, if needed, to point against the ray.
pub open spec fn hit_record_s(
    point: Point3,
    outward_normal: Vec3,
    t: int,
    ray: Ray,
    material: Material,
) -> HitRecord {
    let front_face = vdot(ray.direction, outward_normal) < 0;
    HitRecord {
        point,
        normal: if front_face {
            outward_normal
        } else {
            vneg(outward_normal)
        },
        t: t as i64,
        material,
        front_face,
    }
}

impl HitRecord {
    /// Build a record from the outward normal; the stored normal always
    /// points against the incoming ray and `front_face` records which side
    /// was struck.
    pub fn new(point: Point3, outward_normal: Vec3, t: i64, ray: &Ray, material: Material) -> (r:
        Self)
        ensures
            r == hit_record_s(point, outward_normal, t as int, *ray, material),
            r.front_face == (vdot(ray.direction, outward_normal) < 0),
            r.front_face ==> r.normal == outward_normal,
            !r.front_face ==> r.normal == vneg(outward_normal),
    {
        let front_face = ray.get_direction().dot(&outward_normal) < 0;
        let normal = if front_face {
            outward_normal
        } else {
            outward_normal.negative()
        };
        Self { point, normal, t, material, front_face }
    }

    pub fn get_point(&self) -> (r: Point3)
        ensures
            r == self.point,
    {
        self.point
    }

    pub fn get_normal(&self) -> (r: Vec3)
        ensures
            r == self.normal,
    {
        self.normal
    }

    pub fn get_t(&self) -> (r: i64)
        ensures
            r == self.t,
    {
        self.t
    }

    pub fn get_material(&self) -> (r: Material)
        ensures
            r == self.material,
    {
        self.material
    }

    pub fn get_front_face(&self) -> (r: bool)
        ensures
            r == self.front_face,
    {
        self.front_face
    }
}

/// Anything a ray can intersect: a nearest-intersection query over the
/// parameter interval `[t_min, t_max]`.
pub trait Hittable {
    fn hit(&self, ray: &Ray, t_min: i64, t_max: i64) -> (r: Option<HitRecord>)
        ensures
            r is Some ==> t_min <= r->Some_0.t <= t_max,
    ;
}

} // verus!
