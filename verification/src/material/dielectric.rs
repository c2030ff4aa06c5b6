//! Refractive (dielectric) material with Snell refraction, total internal
//! reflection and the Schlick reflectance approximation.

use crate::fixed::{
    fx_add, fx_div, fx_mul, fx_sqrt, fx_sub, sat_add, sat_div, sat_mul, sat_sqrt, sat_sub, SCALE,
};
use crate::hittable::HitRecord;
use crate::material::scatter_result::ScatterResult;
use crate::ray::Ray;
use crate::utils::{random_double, reflect, reflect_s, refract, refract_s};
use crate::vec3::{vdot, vneg, vunit, Vec3};
use vstd::prelude::*;

verus! {

#[derive(Clone, Copy, PartialEq, Eq, Structural, Debug)]
pub struct Dielectric {
    pub refraction_index: i64,
}

/// Fifth power, as iterated fixed-point products.
pub open spec fn pow5_s(x: int) -> int {
    sat_mul(sat_mul(sat_mul(sat_mul(x, x), x), x), x)
}

/// Schlick's reflectance approximation:
/// `r0 + (1 - r0) * (1 - cos)^5` with `r0 = ((1 - ratio) / (1 + ratio))^2`.
pub open spec fn reflectance_s(cos: int, ratio: int) -> int {
    let r0a = sat_div(sat_sub(SCALE as int, ratio), sat_add(SCALE as int, ratio));
    let r0 = sat_mul(r0a, r0a);
    sat_add(r0, sat_mul(sat_sub(SCALE as int, r0), pow5_s(sat_sub(SCALE as int, cos))))
}

/// Schlick's reflectance approximation.
pub fn reflectance(cos: i64, refraction_ratio: i64) -> (r: i64)
    ensures
        r as int == reflectance_s(cos as int, refraction_ratio as int),
{
    let r0a = fx_div(fx_sub(SCALE, refraction_ratio), fx_add(SCALE, refraction_ratio));
    let r0 = fx_mul(r0a, r0a);
    let p1 = fx_sub(SCALE, cos);
    let p5 = fx_mul(fx_mul(fx_mul(fx_mul(p1, p1), p1), p1), p1);
    fx_add(r0, fx_mul(fx_sub(SCALE, r0), p5))
}

/// The refraction ratio at the struck face: entering the medium divides by
/// the index, leaving multiplies by it.
pub open spec fn dielectric_ratio_s(m: Dielectric, hit: HitRecord) -> int {
    if hit.front_face {
        sat_div(SCALE as int, m.refraction_index as int)
    } else {
        m.refraction_index as int
    }
}

/// The scatter produced by a dielectric for a given uniform draw in
/// `[0, 1)`: reflect on total internal reflection (`ratio * sin > 1`) or
/// when the Schlick reflectance exceeds the draw, refract otherwise; the
/// attenuation is always white (no absorption).
pub open spec fn dielectric_scatter_s(m: Dielectric, ray: Ray, hit: HitRecord, draw: int) -> ScatterResult {
    let ratio = dielectric_ratio_s(m, hit);
    let u = vunit(ray.direction);
    let cos = vstd::math::min(vdot(hit.normal, vneg(u)), SCALE as int);
    let sin = sat_sqrt(sat_sub(SCALE as int, sat_mul(cos, cos)));
    let direction = if sat_mul(ratio, sin) > SCALE || reflectance_s(cos, ratio) > draw {
        reflect_s(u, hit.normal)
    } else {
        refract_s(u, hit.normal, ratio)
    };
    ScatterResult {
        color: Vec3 { x: SCALE, y: SCALE, z: SCALE },
        ray: Ray { origin: hit.point, direction },
    }
}

/// A dielectric whose refraction index is 1 matches its medium: the ratio
/// is 1 at either face, total internal reflection can never fire, the
/// Schlick base reflectance `r0` collapses to 0 (only the residual
/// `(1 - cos)^5` term remains), and whenever the uniform draw is at least
/// that residual the scatter refracts.
pub proof fn lemma_dielectric_matched_medium(m: Dielectric, ray: Ray, hit: HitRecord, draw: int)
    requires
        m.refraction_index == SCALE,
    ensures
        dielectric_ratio_s(m, hit) == SCALE,
        ({
            let u = vunit(ray.direction);
            let cos = vstd::math::min(vdot(hit.normal, vneg(u)), SCALE as int);
            let sin = sat_sqrt(sat_sub(SCALE as int, sat_mul(cos, cos)));
            &&& sat_mul(SCALE as int, sin) <= SCALE
            &&& reflectance_s(cos, SCALE as int) == pow5_s(sat_sub(SCALE as int, cos))
            &&& (pow5_s(sat_sub(SCALE as int, cos)) <= draw ==> dielectric_scatter_s(
                m,
                ray,
                hit,
                draw,
            ).ray.direction == refract_s(u, hit.normal, SCALE as int))
        }),
{
    let u = vunit(ray.direction);
    let cos = vstd::math::min(vdot(hit.normal, vneg(u)), SCALE as int);
    let sin = sat_sqrt(sat_sub(SCALE as int, sat_mul(cos, cos)));
    // The front-face ratio 1 / 1 is exactly 1.
    assert(65536int * 65536int == 4294967296int) by (nonlinear_arith);
    assert(4294967296int / 65536int == 65536int) by (nonlinear_arith);
    assert(sat_div(SCALE as int, SCALE as int) == SCALE);
    // cos^2 is nonnegative, so 1 - cos^2 is at most 1 and sin at most 1.
    assert(cos * cos >= 0) by (nonlinear_arith);
    crate::fixed::lemma_sat_sqrt_le_unit(sat_sub(SCALE as int, sat_mul(cos, cos)));
    crate::fixed::lemma_sat_mul_unit(sin);
    // r0 = (0 / 2)^2 = 0, so the reflectance is 1 * (1 - cos)^5.
    assert(0int * 65536int == 0int) by (nonlinear_arith);
    assert(sat_div(sat_sub(SCALE as int, SCALE as int), sat_add(SCALE as int, SCALE as int)) == 0);
    assert(0int * 0int == 0int) by (nonlinear_arith);
    assert(sat_mul(0, 0) == 0);
    let p5 = pow5_s(sat_sub(SCALE as int, cos));
    crate::fixed::lemma_sat_mul_unit(p5);
    assert(reflectance_s(cos, SCALE as int) == sat_add(0, crate::fixed::sat(p5)));
}

impl Dielectric {
    pub fn new(refraction_index: i64) -> (r: Self)
        ensures
            r == (Dielectric { refraction_index }),
    {
        Self { refraction_index }
    }

    /// The deterministic scattering core, given the uniform Schlick draw.
    pub fn scatter_with(&self, ray: &Ray, hit_record: &HitRecord, draw: i64) -> (r: ScatterResult)
        ensures
            r == dielectric_scatter_s(*self, *ray, *hit_record, draw as int),
    {
        let refraction_ratio = if hit_record.get_front_face() {
            fx_div(SCALE, self.refraction_index)
        } else {
            self.refraction_index
        };
        let unit_direction = ray.get_direction().unit_vector();
        let cos = crate::fixed::fx_min(
            hit_record.get_normal().dot(&unit_direction.negative()),
            SCALE,
        );
        let sin = fx_sqrt(fx_sub(SCALE, fx_mul(cos, cos)));
        let direction = if fx_mul(refraction_ratio, sin) > SCALE || reflectance(
            cos,
            refraction_ratio,
        ) > draw {
            reflect(&unit_direction, &hit_record.get_normal())
        } else {
            refract(&unit_direction, &hit_record.get_normal(), refraction_ratio)
        };
        ScatterResult::new(
            Vec3::new(SCALE, SCALE, SCALE),
            Ray::new(hit_record.get_point(), direction),
        )
    }

    /// Scatter with a fresh uniform draw. A dielectric always scatters;
    /// only the reflect-or-refract choice is random.
    pub fn scatter(&self, ray: &Ray, hit_record: &HitRecord) -> (r: Option<ScatterResult>)
        ensures
            r is Some,
            exists|d: int|
                0 <= d < SCALE && r->Some_0 == #[trigger] dielectric_scatter_s(
                    *self,
                    *ray,
                    *hit_record,
                    d,
                ),
    {
        let draw = random_double();
        let res = self.scatter_with(ray, hit_record, draw);
        proof {
            assert(0 <= (draw as int) && (draw as int) < SCALE && res == dielectric_scatter_s(
                *self,
                *ray,
                *hit_record,
                draw as int,
            ));
        }
        Some(res)
    }
}

} // verus!
