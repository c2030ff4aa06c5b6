//! The sphere primitive and its closed-form quadratic intersection.

use crate::fixed::{
    fx_add, fx_div, fx_mul, fx_neg, fx_sqrt, fx_sub, is_sqrt_floor, lemma_sat_mul_neg_unit,
    lemma_sat_mul_sq_small, mag, sat_add, sat_div, sat_mul, sat_neg, sat_sqrt, sat_sub,
};
use crate::hittable::{hit_record_s, HitRecord, Hittable};
use crate::material::Material;
use crate::ray::{ray_at, Ray};
use crate::vec3::{vdiv_c, vdot, vsquare, vsub, Point3, Vec3};
use vstd::prelude::*;

verus! {

#[derive(Clone, Copy, PartialEq, Eq, Structural, Debug)]
pub struct Sphere {
    pub center: Point3,
    pub radius: i64,
    pub material: Material,
}

/// Quadratic coefficient `a = D . D` of `|O + t D - C|^2 = r^2`.
pub open spec fn sphere_a(s: Sphere, ray: Ray) -> int {
    vsquare(ray.direction)
}

/// Half the linear coefficient: `(O - C) . D`.
pub open spec fn sphere_half_b(s: Sphere, ray: Ray) -> int {
    vdot(vsub(ray.origin, s.center), ray.direction)
}

/// Constant coefficient `c = (O - C) . (O - C) - r^2`.
pub open spec fn sphere_c(s: Sphere, ray: Ray) -> int {
    sat_sub(
        vdot(vsub(ray.origin, s.center), vsub(ray.origin, s.center)),
        sat_mul(s.radius as int, s.radius as int),
    )
}

/// Discriminant `half_b^2 - a c`: the ray meets the sphere exactly when it
/// is nonnegative.
pub open spec fn sphere_disc(s: Sphere, ray: Ray) -> int {
    sat_sub(
        sat_mul(sphere_half_b(s, ray), sphere_half_b(s, ray)),
        sat_mul(sphere_a(s, ray), sphere_c(s, ray)),
    )
}

/// The smaller quadratic root `(-half_b - sqrt(disc)) / a`.
pub open spec fn sphere_root1(s: Sphere, ray: Ray) -> int {
    sat_div(sat_sub(sat_neg(sphere_half_b(s, ray)), sat_sqrt(sphere_disc(s, ray))), sphere_a(s, ray))
}

/// The larger quadratic root `(-half_b + sqrt(disc)) / a`.
pub open spec fn sphere_root2(s: Sphere, ray: Ray) -> int {
    sat_div(sat_add(sat_neg(sphere_half_b(s, ray)), sat_sqrt(sphere_disc(s, ray))), sphere_a(s, ray))
}

/// The accepted intersection parameter: the smaller root if it lies in
/// `[t_min, t_max]`, else the larger root if it does, else nothing.
pub open spec fn sphere_solution(s: Sphere, ray: Ray, t_min: int, t_max: int) -> Option<int> {
    if sphere_disc(s, ray) < 0 {
        None
    } else if t_min <= sphere_root1(s, ray) && sphere_root1(s, ray) <= t_max {
        Some(sphere_root1(s, ray))
    } else if t_min <= sphere_root2(s, ray) && sphere_root2(s, ray) <= t_max {
        Some(sphere_root2(s, ray))
    } else {
        None
    }
}

/// The record for an accepted parameter `t`: the hit point is `ray.at(t)`
/// and the outward normal is `(point - center) / radius` (a negative radius
/// flips it, modeling a hollow sphere).
pub open spec fn sphere_record_s(s: Sphere, ray: Ray, t: int) -> HitRecord {
    let point = ray_at(ray, t);
    let outward = vdiv_c(vsub(point, s.center), s.radius as int);
    hit_record_s(point, outward, t, ray, s.material)
}

/// The full intersection contract of `Sphere::hit`.
pub open spec fn sphere_hit_s(s: Sphere, ray: Ray, t_min: int, t_max: int) -> Option<HitRecord> {
    match sphere_solution(s, ray, t_min, t_max) {
        None => None,
        Some(t) => Some(sphere_record_s(s, ray, t)),
    }
}

impl Sphere {
    pub fn new(center: Point3, radius: i64, material: Material) -> (r: Self)
        ensures
            r == (Sphere { center, radius, material }),
    {
        Self { center, radius, material }
    }

    /// The nearest intersection of `ray` with this sphere whose parameter
    /// lies in `[t_min, t_max]`.
    pub fn hit(&self, ray: &Ray, t_min: i64, t_max: i64) -> (r: Option<HitRecord>)
        ensures
            r == sphere_hit_s(*self, *ray, t_min as int, t_max as int),
            r is Some ==> t_min <= r->Some_0.t <= t_max,
    {
        let oc = ray.get_origin().subtract(&self.center);
        let a = ray.get_direction().square();
        let half_b = oc.dot(&ray.get_direction());
        let c = fx_sub(oc.dot(&oc), fx_mul(self.radius, self.radius));
        let discriminant = fx_sub(fx_mul(half_b, half_b), fx_mul(a, c));
        if discriminant < 0 {
            None
        } else {
            let sq = fx_sqrt(discriminant);
            let t1 = fx_div(fx_sub(fx_neg(half_b), sq), a);
            let t2 = fx_div(fx_add(fx_neg(half_b), sq), a);
            let solution: Option<i64> = if t_min <= t1 && t1 <= t_max {
                Some(t1)
            } else if t_min <= t2 && t2 <= t_max {
                Some(t2)
            } else {
                None
            };
            match solution {
                None => None,
                Some(t) => {
                    let point = ray.at(t);
                    let outward_normal = point.subtract(&self.center).divide_constant(self.radius);
                    Some(HitRecord::new(point, outward_normal, t, ray, self.material))
                },
            }
        }
    }
}

impl Hittable for Sphere {
    fn hit(&self, ray: &Ray, t_min: i64, t_max: i64) -> (r: Option<HitRecord>) {
        Sphere::hit(self, ray, t_min, t_max)
    }
}

/// The quadratic coefficient `a` is a sum of truncated squares, hence
/// never negative.
proof fn lemma_sphere_a_nonneg(s: Sphere, ray: Ray)
    ensures
        sphere_a(s, ray) >= 0,
{
    let d = ray.direction;
    assert(d.x as int * d.x as int >= 0) by (nonlinear_arith);
    assert(d.y as int * d.y as int >= 0) by (nonlinear_arith);
    assert(d.z as int * d.z as int >= 0) by (nonlinear_arith);
}

/// The two quadratic roots are ordered: the first never exceeds the
/// second.
proof fn lemma_sphere_roots_ordered(s: Sphere, ray: Ray)
    ensures
        sphere_root1(s, ray) <= sphere_root2(s, ray),
{
    lemma_sphere_a_nonneg(s, ray);
    crate::fixed::lemma_sat_sqrt_nonneg(sphere_disc(s, ray));
    let a = sphere_a(s, ray);
    let num1 = sat_sub(sat_neg(sphere_half_b(s, ray)), sat_sqrt(sphere_disc(s, ray)));
    let num2 = sat_add(sat_neg(sphere_half_b(s, ray)), sat_sqrt(sphere_disc(s, ray)));
    if a > 0 {
        crate::fixed::lemma_sat_div_monotone(num1, num2, a);
    }
}

/// Shrinking the upper bound of the parameter interval can only keep the
/// same accepted hit or drop it: an accepted hit of the narrow interval is
/// the accepted hit of the wide one, and if the narrow interval rejects
/// while the wide one accepts, the wide hit lies beyond the narrow bound.
pub(crate) proof fn lemma_sphere_hit_shrink(s: Sphere, ray: Ray, t_min: int, c: int, t_max: int)
    requires
        c <= t_max,
    ensures
        sphere_hit_s(s, ray, t_min, c) is Some ==> sphere_hit_s(s, ray, t_min, t_max) is Some
            && sphere_hit_s(s, ray, t_min, c) == sphere_hit_s(s, ray, t_min, t_max),
        sphere_hit_s(s, ray, t_min, c) is None && sphere_hit_s(s, ray, t_min, t_max) is Some
            ==> sphere_solution(s, ray, t_min, t_max)->Some_0 > c,
{
    lemma_sphere_roots_ordered(s, ray);
}

/// A ray whose discriminant against a sphere is negative misses it: the
/// intersection query returns nothing for every parameter interval.
pub proof fn lemma_sphere_miss(s: Sphere, ray: Ray, t_min: int, t_max: int)
    requires
        sphere_disc(s, ray) < 0,
    ensures
        sphere_hit_s(s, ray, t_min, t_max) is None,
{
}

/// A ray aimed along -z straight at the center of a sphere hits its
/// surface at exactly the distance to the surface, `t = D - R`, and the
/// normal at the hit point is the outward unit vector from the center to
/// the point. Exact for every center distance `D` and every radius `R`
/// whose square is a whole number of quanta (any multiple of 256).
pub proof fn lemma_sphere_center_shot(
    dist: i64,
    r: i64,
    material: Material,
    t_min: int,
    t_max: int,
)
    requires
        0 < r < dist,
        mag(dist as int) <= 0x1000_0000,
        r % 256 == 0,
        t_min <= dist - r <= t_max,
    ensures
        ({
            let s = Sphere { center: Vec3 { x: 0i64, y: 0i64, z: (-dist) as i64 }, radius: r, material };
            let ray = Ray {
                origin: Vec3 { x: 0i64, y: 0i64, z: 0i64 },
                direction: Vec3 { x: 0i64, y: 0i64, z: -65536i64 },
            };
            let rec = sphere_hit_s(s, ray, t_min, t_max);
            &&& rec is Some
            &&& rec->Some_0.t == dist - r
            &&& rec->Some_0.point == (Vec3 { x: 0i64, y: 0i64, z: (-(dist - r)) as i64 })
            &&& rec->Some_0.normal == (Vec3 { x: 0i64, y: 0i64, z: 65536i64 })
            &&& rec->Some_0.front_face
        }),
{
    let s = Sphere { center: Vec3 { x: 0i64, y: 0i64, z: (-dist) as i64 }, radius: r, material };
    let ray = Ray {
        origin: Vec3 { x: 0i64, y: 0i64, z: 0i64 },
        direction: Vec3 { x: 0i64, y: 0i64, z: -65536i64 },
    };
    let d = dist as int;
    let oc = vsub(ray.origin, s.center);
    assert(oc == (Vec3 { x: 0i64, y: 0i64, z: dist }));
    // a = 1.
    assert((-65536int) * (-65536int) == 4294967296int) by (nonlinear_arith);
    assert(4294967296int / 65536int == 65536int) by (nonlinear_arith);
    assert(0int * 0int == 0int) by (nonlinear_arith);
    assert(sat_mul(0, 0) == 0);
    assert(sat_mul(-65536, -65536) == 65536);
    assert(sphere_a(s, ray) == 65536);
    // half_b = -D.
    assert(0int * (-65536int) == 0int) by (nonlinear_arith);
    lemma_sat_mul_neg_unit(d);
    assert(sphere_half_b(s, ray) == -d);
    // The squares are small and exact enough: disc = R^2 / SCALE exactly.
    lemma_sat_mul_sq_small(d);
    lemma_sat_mul_sq_small(r as int);
    let d2 = sat_mul(d, d);
    let r2 = sat_mul(r as int, r as int);
    assert(sphere_c(s, ray) == d2 - r2);
    crate::fixed::lemma_sat_mul_unit(d2 - r2);
    assert(sat_mul(-d, -d) == d2);
    assert(sphere_disc(s, ray) == r2);
    // With R a multiple of 256, R^2 is a whole number of quanta and its
    // fixed-point square root is exactly R.
    let q = (r as int) / 256;
    vstd::arithmetic::div_mod::lemma_fundamental_div_mod(r as int, 256);
    assert(r as int == 256 * q);
    vstd::arithmetic::div_mod::lemma_div_pos_is_pos(r as int, 256);
    vstd::arithmetic::div_mod::lemma_div_is_ordered(r as int, 0x1000_0000, 256);
    assert(0x1000_0000int / 256int == 0x10_0000int) by (nonlinear_arith);
    assert(0 <= q * q <= 0x100_0000_0000) by (nonlinear_arith)
        requires
            0 <= q <= 0x10_0000,
    ;
    assert((256 * q) * (256 * q) == 65536 * (q * q)) by (nonlinear_arith);
    lemma_div_multiples_vanish_pub(q * q);
    assert(mag((r as int) * (r as int)) == (r as int) * (r as int));
    assert(r2 == q * q);
    assert(r2 * 65536 == (r as int) * (r as int)) by (nonlinear_arith)
        requires
            r2 == q * q,
            r as int == 256 * q,
    ;
    assert((r as int) * (r as int) < ((r as int) + 1) * ((r as int) + 1)) by (nonlinear_arith)
        requires
            r > 0,
    ;
    assert(is_sqrt_floor(r2 * 65536, r as int));
    crate::fixed::lemma_sqrt_floor_is(r2 * 65536, r as int);
    assert(r2 > 0) by {
        assert(q > 0 ==> q * q > 0) by (nonlinear_arith);
    }
    assert(sat_sqrt(r2) == r);
    // The near root is (D - R) / 1 = D - R, inside the interval.
    crate::fixed::lemma_sat_div_unit(d - r);
    assert(sphere_root1(s, ray) == d - r);
    assert(sphere_solution(s, ray, t_min, t_max) == Some(d - r));
    // The hit point is D - R down the axis and the outward normal is +z.
    assert(sat_mul(-65536, d - r) == crate::fixed::sat(-(d - r))) by {
        lemma_sat_mul_neg_unit(d - r);
    }
    let point = ray_at(ray, d - r);
    assert(0int * (d - r) == 0int) by (nonlinear_arith);
    assert(point == (Vec3 { x: 0i64, y: 0i64, z: (-(dist - r)) as i64 }));
    let away = vsub(point, s.center);
    assert(away == (Vec3 { x: 0i64, y: 0i64, z: r }));
    assert(0int * 65536int == 0int) by (nonlinear_arith);
    vstd::arithmetic::mul::lemma_mul_is_commutative(r as int, 65536);
    vstd::arithmetic::div_mod::lemma_div_multiples_vanish(65536, r as int);
    assert(mag((r as int) * 65536) / mag(r as int) == 65536);
    assert(sat_div(r as int, r as int) == 65536);
    assert(vdiv_c(away, r as int) == (Vec3 { x: 0i64, y: 0i64, z: 65536i64 }));
    // Struck from outside: the stored normal is the outward normal.
    lemma_sat_mul_neg_unit(65536);
    assert(vdot(ray.direction, Vec3 { x: 0i64, y: 0i64, z: 65536i64 }) == -65536);
}

/// Truncating division of a multiple of the unit scalar recovers the
/// multiplier.
proof fn lemma_div_multiples_vanish_pub(x: int)
    ensures
        (65536 * x) / 65536 == x,
{
    vstd::arithmetic::div_mod::lemma_div_multiples_vanish(x, 65536);
}

/// A ray traveling straight down the z axis misses a sphere whenever its
/// perpendicular offset from the sphere's center exceeds the radius (in
/// the fixed-point squared comparison): the discriminant is negative, so
/// there is no hit for any parameter interval. The sphere's center is
/// arbitrary; `bx` and `by` are the ray origin's perpendicular offsets
/// from it and `dz` its offset along the ray axis.
pub proof fn lemma_sphere_perpendicular_miss(
    center: Vec3,
    bx: i64,
    by: i64,
    dz: i64,
    r: i64,
    material: Material,
    t_min: int,
    t_max: int,
)
    requires
        mag(center.x as int) <= 0x800_0000,
        mag(center.y as int) <= 0x800_0000,
        mag(center.z as int) <= 0x800_0000,
        mag(bx as int) <= 0x800_0000,
        mag(by as int) <= 0x800_0000,
        mag(dz as int) <= 0x800_0000,
        mag(r as int) <= 0x800_0000,
        sat_mul(bx as int, bx as int) + sat_mul(by as int, by as int) > sat_mul(
            r as int,
            r as int,
        ),
    ensures
        ({
            let s = Sphere { center, radius: r, material };
            let ray = Ray {
                origin: Vec3 {
                    x: (center.x + bx) as i64,
                    y: (center.y + by) as i64,
                    z: (center.z + dz) as i64,
                },
                direction: Vec3 { x: 0i64, y: 0i64, z: -65536i64 },
            };
            &&& sphere_disc(s, ray) < 0
            &&& sphere_hit_s(s, ray, t_min, t_max) is None
        }),
{
    let s = Sphere { center, radius: r, material };
    let ray = Ray {
        origin: Vec3 {
            x: (center.x + bx) as i64,
            y: (center.y + by) as i64,
            z: (center.z + dz) as i64,
        },
        direction: Vec3 { x: 0i64, y: 0i64, z: -65536i64 },
    };
    let oc = vsub(ray.origin, s.center);
    assert(oc == (Vec3 { x: bx, y: by, z: dz }));
    // The direction is the unit -z vector, so a = 1.
    assert((-65536int) * (-65536int) == 4294967296int) by (nonlinear_arith);
    assert(4294967296int / 65536int == 65536int) by (nonlinear_arith);
    assert(0int * 0int == 0int) by (nonlinear_arith);
    assert(sat_mul(0, 0) == 0);
    assert(sat_mul(-65536, -65536) == 65536);
    assert(sphere_a(s, ray) == 65536);
    // half_b = oc . D = -dz exactly.
    assert(bx as int * 0 == 0) by (nonlinear_arith);
    assert(by as int * 0 == 0) by (nonlinear_arith);
    lemma_sat_mul_neg_unit(dz as int);
    assert(sphere_half_b(s, ray) == -(dz as int));
    // The four squares are small, so no sum saturates.
    lemma_sat_mul_sq_small(bx as int);
    lemma_sat_mul_sq_small(by as int);
    lemma_sat_mul_sq_small(dz as int);
    lemma_sat_mul_sq_small(r as int);
    let b2x = sat_mul(bx as int, bx as int);
    let b2y = sat_mul(by as int, by as int);
    let d2 = sat_mul(dz as int, dz as int);
    let r2 = sat_mul(r as int, r as int);
    assert(sphere_c(s, ray) == b2x + b2y + d2 - r2);
    assert(sat_mul(-(dz as int), -(dz as int)) == d2);
    crate::fixed::lemma_sat_mul_unit(b2x + b2y + d2 - r2);
    assert(sphere_disc(s, ray) == crate::fixed::sat(d2 - (b2x + b2y + d2 - r2)));
    assert(sphere_disc(s, ray) == r2 - b2x - b2y);
    lemma_sphere_miss(s, ray, t_min, t_max);
}

} // verus!
