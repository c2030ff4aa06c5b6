//! Reflective (metal) material with a fuzz radius.

use crate::color::Color;
use crate::fixed::SCALE;
use crate::hittable::HitRecord;
use crate::material::scatter_result::ScatterResult;
use crate::ray::Ray;
use crate::utils::{random_in_unit_sphere, reflect, reflect_s};
use crate::vec3::{vadd, vdot, vscale, vsquare, Vec3};
use vstd::prelude::*;

verus! {

#[derive(Clone, Copy, PartialEq, Eq, Structural, Debug)]
pub struct Metal {
    pub color: Color,
    pub fuzz: i64,
}

/// The scatter produced by a metal surface for a given fuzz sample: the
/// mirror reflection of the incoming direction, perturbed by
/// `fuzz * sample`; the scatter is declined exactly when the perturbed
/// direction does not leave the surface (its dot with the normal is not
/// positive).
pub open spec fn metal_scatter_s(m: Metal, ray: Ray, hit: HitRecord, sample: Vec3) -> Option<
    ScatterResult,
> {
    let reflected = reflect_s(ray.direction, hit.normal);
    let direction = vadd(reflected, vscale(sample, m.fuzz as int));
    if vdot(direction, hit.normal) > 0 {
        Some(ScatterResult { color: m.color, ray: Ray { origin: hit.point, direction } })
    } else {
        None
    }
}

/// A metal with zero fuzz is a perfect mirror: for every fuzz sample the
/// scattered direction equals the mirror reflection of the incoming
/// direction, and the scatter is declined exactly when that reflection's
/// dot product with the normal is not positive.
pub proof fn lemma_metal_zero_fuzz(m: Metal, ray: Ray, hit: HitRecord, sample: Vec3)
    requires
        m.fuzz == 0,
    ensures
        ({
            let reflected = reflect_s(ray.direction, hit.normal);
            let r = metal_scatter_s(m, ray, hit, sample);
            &&& (r is Some <==> vdot(reflected, hit.normal) > 0)
            &&& (r is Some ==> r->Some_0.ray.direction == reflected)
            &&& (r is Some ==> r->Some_0.color == m.color)
        }),
{
    let reflected = reflect_s(ray.direction, hit.normal);
    assert(vscale(sample, 0) == (Vec3 { x: 0i64, y: 0i64, z: 0i64 })) by {
        assert(sample.x as int * 0 == 0) by (nonlinear_arith);
        assert(sample.y as int * 0 == 0) by (nonlinear_arith);
        assert(sample.z as int * 0 == 0) by (nonlinear_arith);
    }
    assert(vadd(reflected, Vec3 { x: 0i64, y: 0i64, z: 0i64 }) == reflected);
}

impl Metal {
    /// A metal with the given albedo; the fuzz radius is clamped to `[0, 1]`.
    pub fn new(color: Color, fuzz: i64) -> (r: Self)
        ensures
            r.color == color,
            r.fuzz as int == vstd::math::min(vstd::math::max(fuzz as int, 0), SCALE as int),
    {
        Self { color, fuzz: crate::fixed::fx_clamp(fuzz, 0, SCALE) }
    }

    /// The deterministic scattering core, given the fuzz perturbation sample.
    pub fn scatter_with(&self, ray: &Ray, hit_record: &HitRecord, sample: &Vec3) -> (r: Option<
        ScatterResult,
    >)
        ensures
            r == metal_scatter_s(*self, *ray, *hit_record, *sample),
    {
        let reflected = reflect(&ray.get_direction(), &hit_record.get_normal());
        let direction = reflected.add(&sample.multiply_constant(self.fuzz));
        let out = Ray::new(hit_record.get_point(), direction);
        if out.get_direction().dot(&hit_record.get_normal()) > 0 {
            Some(ScatterResult::new(self.color, out))
        } else {
            None
        }
    }

    /// Scatter with a fresh random in-sphere fuzz sample.
    pub fn scatter(&self, ray: &Ray, hit_record: &HitRecord) -> (r: Option<ScatterResult>)
        ensures
            exists|s: Vec3|
                vsquare(s) < SCALE && r == #[trigger] metal_scatter_s(*self, *ray, *hit_record, s),
    {
        let s = random_in_unit_sphere();
        let res = self.scatter_with(ray, hit_record, &s);
        proof {
            assert(vsquare(s) < SCALE && res == metal_scatter_s(*self, *ray, *hit_record, s));
        }
        res
    }
}

} // verus!
