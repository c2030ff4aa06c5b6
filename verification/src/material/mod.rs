//! Materials: the closed set of scattering behaviors a surface can have.
//!
//! The material set is a tagged sum dispatched by pattern matching;
//! `Material::scatter` forwards to the variant's own scatter, whose exact
//! behavior is stated on the variant (each has a deterministic
//! `scatter_with` core taking the random sample as an argument).

use crate::fixed::SCALE;
use crate::hittable::HitRecord;
use crate::ray::Ray;
use crate::vec3::{vsquare, vunit, Vec3};
use vstd::prelude::*;

pub mod dielectric;
pub mod lambertian;
pub mod metal;
pub mod scatter_result;

pub use dielectric::Dielectric;
pub use lambertian::Lambertian;
pub use metal::Metal;
pub use scatter_result::ScatterResult;

verus! {

/// A surface's scattering behavior.
#[derive(Clone, Copy, PartialEq, Eq, Structural, Debug)]
pub enum Material {
    Lambertian(Lambertian),
    Metal(Metal),
    Dielectric(Dielectric),
}

/// The set of values `Material::scatter` may return for a hit: the
/// variant's scatter applied to some in-range random sample. A diffuse or
/// dielectric surface always scatters; a metal's outcome may be a decline.
pub open spec fn is_scatter_outcome(
    m: Material,
    ray: Ray,
    hit: HitRecord,
    r: Option<ScatterResult>,
) -> bool {
    match m {
        Material::Lambertian(l) => r is Some && exists|s: Vec3|
            vsquare(s) < SCALE && r->Some_0 == #[trigger] lambertian::lambertian_scatter_s(
                l,
                hit,
                vunit(s),
            ),
        Material::Metal(mt) => exists|s: Vec3|
            vsquare(s) < SCALE && r == #[trigger] metal::metal_scatter_s(mt, ray, hit, s),
        Material::Dielectric(d) => r is Some && exists|w: int|
            0 <= w < SCALE && r->Some_0 == #[trigger] dielectric::dielectric_scatter_s(
                d,
                ray,
                hit,
                w,
            ),
    }
}

/// The material's albedo components all lie in the color range `[0, 1]`.
pub open spec fn material_wf(m: Material) -> bool {
    match m {
        Material::Lambertian(l) => crate::color::color_in_unit(l.color),
        Material::Metal(mt) => crate::color::color_in_unit(mt.color),
        Material::Dielectric(_) => true,
    }
}

/// A well-formed material's scatter attenuation stays in the color range:
/// diffuse and metal attenuations are the albedo, a dielectric's is white.
pub proof fn lemma_scatter_attenuation_in_unit(
    m: Material,
    ray: Ray,
    hit: HitRecord,
    r: Option<ScatterResult>,
)
    requires
        material_wf(m),
        is_scatter_outcome(m, ray, hit, r),
        r is Some,
    ensures
        crate::color::color_in_unit(r->Some_0.color),
{
}

impl Material {
    /// Dispatch to the variant's scatter: a diffuse or dielectric surface
    /// always scatters, a metal declines exactly when its perturbed
    /// reflection does not leave the surface.
    pub fn scatter(&self, ray: &Ray, hit_record: &HitRecord) -> (r: Option<ScatterResult>)
        ensures
            is_scatter_outcome(*self, *ray, *hit_record, r),
            self is Lambertian || self is Dielectric ==> r is Some,
    {
        match self {
            Material::Lambertian(m) => m.scatter(ray, hit_record),
            Material::Metal(m) => m.scatter(ray, hit_record),
            Material::Dielectric(m) => m.scatter(ray, hit_record),
        }
    }
}

} // verus!
