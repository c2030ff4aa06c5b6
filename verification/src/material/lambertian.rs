//! Diffuse (Lambertian) material.

use crate::color::Color;
use crate::fixed::SCALE;
use crate::hittable::HitRecord;
use crate::material::scatter_result::ScatterResult;
use crate::ray::Ray;
use crate::utils::random_unit_vector;
use crate::vec3::{vadd, vnear_zero, vsquare, vunit, Vec3};
use vstd::prelude::*;

verus! {

#[derive(Clone, Copy, PartialEq, Eq, Structural, Debug)]
pub struct Lambertian {
    pub color: Color,
}

/// The scatter produced by a diffuse surface for a given unit sample: the
/// new direction is `normal + sample`, falling back to the normal itself
/// when that sum is near zero, and the attenuation is the albedo.
pub open spec fn lambertian_scatter_s(m: Lambertian, hit: HitRecord, sample: Vec3) -> ScatterResult {
    let d0 = vadd(hit.normal, sample);
    let direction = if vnear_zero(d0) {
        hit.normal
    } else {
        d0
    };
    ScatterResult { color: m.color, ray: Ray { origin: hit.point, direction } }
}

impl Lambertian {
    pub fn new(color: Color) -> (r: Self)
        ensures
            r == (Lambertian { color }),
    {
        Self { color }
    }

    /// The deterministic scattering core, given the diffuse direction sample.
    pub fn scatter_with(&self, hit_record: &HitRecord, sample: &Vec3) -> (r: ScatterResult)
        ensures
            r == lambertian_scatter_s(*self, *hit_record, *sample),
    {
        let scatter_direction = hit_record.get_normal().add(sample);
        let direction = if scatter_direction.near_zero() {
            hit_record.get_normal()
        } else {
            scatter_direction
        };
        ScatterResult::new(self.color, Ray::new(hit_record.get_point(), direction))
    }

    /// Scatter with a fresh random unit-sphere sample. A diffuse surface
    /// always scatters; only the direction is random.
    pub fn scatter(&self, _ray: &Ray, hit_record: &HitRecord) -> (r: Option<ScatterResult>)
        ensures
            r is Some,
            exists|s: Vec3|
                vsquare(s) < SCALE && r->Some_0 == #[trigger] lambertian_scatter_s(
                    *self,
                    *hit_record,
                    vunit(s),
                ),
    {
        let u = random_unit_vector();
        let res = self.scatter_with(hit_record, &u);
        proof {
            let s = choose|s: Vec3| vsquare(s) < SCALE && u == #[trigger] vunit(s);
            assert(vsquare(s) < SCALE && res == lambertian_scatter_s(*self, *hit_record, vunit(s)));
        }
        Some(res)
    }
}

} // verus!
