//! The camera: maps normalized viewport coordinates to world-space rays,
//! with an optional lens offset for depth-of-field.
//!
//! The constructor takes the tangent of half the vertical field of view as
//! a fixed-point scalar (callers with an angle in degrees convert before
//! constructing); everything else follows the usual orthonormal-basis
//! derivation, scaled by the focus distance so the focal plane is sharp.

use crate::fixed::{fx_div, fx_mul, sat_div, sat_mul, SCALE};
use crate::ray::Ray;
use crate::utils::random_in_unit_disk;
use crate::vec3::{
    lemma_vadd_zero, lemma_vscale_zero, lemma_vsub_zero, vadd, vcross, vdiv_c, vscale, vsquare,
    vsub, vunit, vwf, Point3, Vec3,
};
use vstd::prelude::*;

verus! {

/// The fixed image aspect ratio (width over height): 3 / 2.
pub const ASPECT_RATIO_FX: i64 = 98304;

#[derive(Clone, Copy, PartialEq, Eq, Structural, Debug)]
pub struct Camera {
    pub origin: Point3,
    pub horizontal: Vec3,
    pub vertical: Vec3,
    pub lower_left_corner: Point3,
    pub u: Vec3,
    pub v: Vec3,
    pub w: Vec3,
    pub lens_radius: i64,
}

/// The full camera derivation from its construction parameters.
pub open spec fn camera_s(
    look_from: Point3,
    look_at: Point3,
    vup: Vec3,
    vfov_half_tan: int,
    aperture: int,
    focus_dist: int,
) -> Camera {
    let viewport_height = sat_mul(2 * SCALE, vfov_half_tan);
    let viewport_width = sat_mul(ASPECT_RATIO_FX as int, viewport_height);
    let w = vunit(vsub(look_from, look_at));
    let u = vunit(vcross(vup, w));
    let v = vcross(w, u);
    let horizontal = vscale(vscale(u, viewport_width), focus_dist);
    let vertical = vscale(vscale(v, viewport_height), focus_dist);
    Camera {
        origin: look_from,
        horizontal,
        vertical,
        lower_left_corner: vsub(
            vsub(vsub(look_from, vdiv_c(horizontal, 2 * SCALE)), vdiv_c(vertical, 2 * SCALE)),
            vscale(w, focus_dist),
        ),
        u,
        v,
        w,
        lens_radius: sat_div(aperture, 2 * SCALE) as i64,
    }
}

/// The ray for viewport coordinates `(s, t)` and a given lens-disk sample:
/// the origin is offset within the lens plane by `lens_radius * disk`, and
/// the direction targets the matching point of the focal plane.
pub open spec fn camera_ray_s(c: Camera, s: int, t: int, disk: Vec3) -> Ray {
    let rd = vscale(disk, c.lens_radius as int);
    let offset = vadd(vscale(c.u, rd.x as int), vscale(c.v, rd.y as int));
    Ray {
        origin: vadd(c.origin, offset),
        direction: vsub(
            vsub(
                vadd(vadd(c.lower_left_corner, vscale(c.horizontal, s)), vscale(c.vertical, t)),
                c.origin,
            ),
            offset,
        ),
    }
}

/// With a zero lens radius the camera degenerates exactly to a pinhole:
/// the lens-disk sample has no effect, the ray starts at the camera origin
/// and aims at the viewport point of the focal plane.
pub proof fn lemma_zero_aperture_pinhole(c: Camera, s: int, t: int, disk: Vec3)
    requires
        c.lens_radius == 0,
        vwf(c.origin),
    ensures
        camera_ray_s(c, s, t, disk) == (Ray {
            origin: c.origin,
            direction: vsub(
                vadd(vadd(c.lower_left_corner, vscale(c.horizontal, s)), vscale(c.vertical, t)),
                c.origin,
            ),
        }),
{
    lemma_vscale_zero(disk);
    lemma_vscale_zero(c.u);
    lemma_vscale_zero(c.v);
    lemma_vadd_zero(c.origin);
    let aim = vsub(
        vadd(vadd(c.lower_left_corner, vscale(c.horizontal, s)), vscale(c.vertical, t)),
        c.origin,
    );
    assert(vwf(aim));
    lemma_vsub_zero(aim);
}

impl Camera {
    /// Derive a camera from eye position, target, up hint, the tangent of
    /// half the vertical field of view, aperture diameter and focus
    /// distance.
    pub fn new(
        look_from: Point3,
        look_at: Point3,
        vup: Vec3,
        vfov_half_tan: i64,
        aperture: i64,
        focus_dist: i64,
    ) -> (r: Self)
        ensures
            r == camera_s(
                look_from,
                look_at,
                vup,
                vfov_half_tan as int,
                aperture as int,
                focus_dist as int,
            ),
    {
        let viewport_height = fx_mul(2 * SCALE, vfov_half_tan);
        let viewport_width = fx_mul(ASPECT_RATIO_FX, viewport_height);
        let w = look_from.subtract(&look_at).unit_vector();
        let u = vup.cross(&w).unit_vector();
        let v = w.cross(&u);
        let origin = look_from;
        let horizontal = u.multiply_constant(viewport_width).multiply_constant(focus_dist);
        let vertical = v.multiply_constant(viewport_height).multiply_constant(focus_dist);
        let lower_left_corner = origin.subtract(&horizontal.divide_constant(2 * SCALE)).subtract(
            &vertical.divide_constant(2 * SCALE),
        ).subtract(&w.multiply_constant(focus_dist));
        let lens_radius = fx_div(aperture, 2 * SCALE);
        Self { origin, horizontal, vertical, lower_left_corner, u, v, w, lens_radius }
    }

    /// The deterministic ray core, given the lens-disk sample.
    pub fn get_ray_with(&self, s: i64, t: i64, disk: &Vec3) -> (r: Ray)
        ensures
            r == camera_ray_s(*self, s as int, t as int, *disk),
    {
        let rd = disk.multiply_constant(self.lens_radius);
        let offset = self.u.multiply_constant(rd.get_x()).add(
            &self.v.multiply_constant(rd.get_y()),
        );
        Ray::new(
            self.origin.add(&offset),
            self.lower_left_corner.add(&self.horizontal.multiply_constant(s)).add(
                &self.vertical.multiply_constant(t),
            ).subtract(&self.origin).subtract(&offset),
        )
    }

    /// The ray for viewport coordinates `(s, t)`, with a fresh random
    /// lens-disk sample for depth-of-field.
    pub fn get_ray(&self, s: i64, t: i64) -> (r: Ray)
        ensures
            exists|d: Vec3|
                vsquare(d) < SCALE && d.z == 0 && r == #[trigger] camera_ray_s(
                    *self,
                    s as int,
                    t as int,
                    d,
                ),
    {
        let d = random_in_unit_disk();
        let r = self.get_ray_with(s, t, &d);
        proof {
            assert(vsquare(d) < SCALE && d.z == 0 && r == camera_ray_s(*self, s as int, t as int, d));
        }
        r
    }
}

} // verus!
