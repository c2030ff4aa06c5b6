//! The recursive light-transport integrator and the per-pixel sampling loop.

use crate::camera::{camera_ray_s, Camera};
use crate::color::{
    acc_sum, color_in_unit, lemma_acc_sum_push, lemma_vmul_black, lemma_vmul_in_unit, Color,
    MultipleSamplesColor,
};
use crate::fixed::{
    fx_add, fx_div, fx_mul, fx_sub, mag, sat_add, sat_div, sat_mul, sat_sub, LIM, SCALE,
};
use crate::hittable_list::{lemma_list_hit_material, list_hit_s, HittableList};
use crate::material::{
    is_scatter_outcome, lemma_scatter_attenuation_in_unit, material_wf, ScatterResult,
};
use crate::ray::Ray;
use crate::sphere::Sphere;
use crate::utils::random_double;
use crate::vec3::{vadd, vmul, vscale, vsquare, vunit, Vec3};
use vstd::prelude::*;

verus! {

/// Lower intersection bound (about 0.001), avoiding self-intersection of
/// scattered rays at the surface they left.
pub const T_MIN: i64 = 66;

/// Upper intersection bound: the whole representable range.
pub const T_MAX: i64 = LIM;

/// The sky gradient returned for rays that escape the scene: a linear
/// blend from white at the horizon to blue at the zenith, keyed by the
/// vertical component of the unit direction mapped from `[-1, 1]` to
/// `[0, 1]`.
pub open spec fn sky_color_s(ray: Ray) -> Color {
    let t = sat_mul(32768, sat_add(vunit(ray.direction).y as int, SCALE as int));
    vadd(
        vscale(Vec3 { x: SCALE, y: SCALE, z: SCALE }, sat_sub(SCALE as int, t)),
        vscale(Vec3 { x: 32768, y: 45875, z: SCALE }, t),
    )
}

/// `chain` records one bounce path of the integrator: the scatter result
/// of each surface interaction in order. The chain is valid when each
/// link is a possible scatter outcome of the hit its ray produces: at an
/// exhausted budget or on a miss nothing more is scattered, and on a hit
/// either the chain ends because the material declined, or its head
/// scatters off this hit and its tail is valid for the scattered ray.
pub open spec fn is_valid_trace(
    objs: Seq<Sphere>,
    ray: Ray,
    depth: nat,
    chain: Seq<ScatterResult>,
) -> bool
    decreases depth,
{
    if depth == 0 {
        chain.len() == 0
    } else {
        match list_hit_s(objs, objs.len() as int, ray, T_MIN as int, T_MAX as int) {
            None => chain.len() == 0,
            Some(rec) => if chain.len() == 0 {
                is_scatter_outcome(rec.material, ray, rec, None)
            } else {
                is_scatter_outcome(rec.material, ray, rec, Some(chain[0])) && is_valid_trace(
                    objs,
                    chain[0].ray,
                    (depth - 1) as nat,
                    chain.drop_first(),
                )
            },
        }
    }
}

/// The color the integrator computes along a given bounce path: black at
/// an exhausted budget, the sky gradient on a miss, black when the chain
/// ends at a hit (the material declined, full absorption), and otherwise
/// the head's attenuation multiplied componentwise by the color of the
/// rest of the path.
pub open spec fn trace_color(objs: Seq<Sphere>, ray: Ray, depth: nat, chain: Seq<ScatterResult>) -> Color
    decreases depth,
{
    if depth == 0 {
        Vec3 { x: 0i64, y: 0i64, z: 0i64 }
    } else {
        match list_hit_s(objs, objs.len() as int, ray, T_MIN as int, T_MAX as int) {
            None => sky_color_s(ray),
            Some(rec) => if chain.len() == 0 {
                Vec3 { x: 0i64, y: 0i64, z: 0i64 }
            } else {
                vmul(chain[0].color, trace_color(objs, chain[0].ray, (depth - 1) as nat, chain.drop_first()))
            },
        }
    }
}

/// Every material in the scene has an in-range albedo.
pub open spec fn scene_wf(objs: Seq<Sphere>) -> bool {
    forall|i: int| 0 <= i < objs.len() ==> #[trigger] material_wf(objs[i].material)
}

/// The recursive light-transport estimate along one ray.
///
/// The result is the color of some valid bounce path: an exhausted budget
/// yields black; a miss yields the sky gradient exactly; a hit yields the
/// scatter attenuation multiplied componentwise by the recursive estimate
/// of the scattered ray, or black when the material declines. Which path
/// is taken is random; that it is a valid path, and that the result is
/// exactly that path's color, is not.
pub fn ray_color(ray: &Ray, world: &HittableList, depth: usize) -> (r: Color)
    ensures
        exists|chain: Seq<ScatterResult>|
            #[trigger] is_valid_trace(world.objects@, *ray, depth as nat, chain) && r
                == trace_color(world.objects@, *ray, depth as nat, chain),
        depth == 0 ==> r == (Vec3 { x: 0i64, y: 0i64, z: 0i64 }),
        depth > 0 && list_hit_s(
            world.objects@,
            world.objects@.len() as int,
            *ray,
            T_MIN as int,
            T_MAX as int,
        ) is None ==> r == sky_color_s(*ray),
    decreases depth,
{
    if depth == 0 {
        proof {
            let chain = Seq::<ScatterResult>::empty();
            assert(is_valid_trace(world.objects@, *ray, depth as nat, chain) && (Vec3 {
                x: 0i64,
                y: 0i64,
                z: 0i64,
            }) == trace_color(world.objects@, *ray, depth as nat, chain));
        }
        return Vec3::new(0, 0, 0);
    }
    if let Some(res) = world.hit(ray, T_MIN, T_MAX) {
        let answer = if let Some(scatter_result) = res.get_material().scatter(ray, &res) {
            let rest = ray_color(scatter_result.get_ray(), world, depth - 1);
            let product = scatter_result.get_color().multiply(&rest);
            proof {
                let sub = choose|chain: Seq<ScatterResult>|
                    #[trigger] is_valid_trace(
                        world.objects@,
                        scatter_result.ray,
                        (depth - 1) as nat,
                        chain,
                    ) && rest == trace_color(
                        world.objects@,
                        scatter_result.ray,
                        (depth - 1) as nat,
                        chain,
                    );
                let chain = seq![scatter_result] + sub;
                assert(chain[0] == scatter_result);
                assert(chain.drop_first() =~= sub);
                assert(is_valid_trace(world.objects@, *ray, depth as nat, chain) && product
                    == trace_color(world.objects@, *ray, depth as nat, chain));
            }
            product
        } else {
            proof {
                let chain = Seq::<ScatterResult>::empty();
                assert(is_valid_trace(world.objects@, *ray, depth as nat, chain) && (Vec3 {
                    x: 0i64,
                    y: 0i64,
                    z: 0i64,
                }) == trace_color(world.objects@, *ray, depth as nat, chain));
            }
            Vec3::new(0, 0, 0)
        };
        return answer;
    }
    let unit_direction = ray.get_direction().unit_vector();
    let t = fx_mul(32768, fx_add(unit_direction.get_y(), SCALE));
    let sky = Vec3::new(SCALE, SCALE, SCALE).multiply_constant(fx_sub(SCALE, t)).add(
        &Vec3::new(32768, 45875, SCALE).multiply_constant(t),
    );
    proof {
        let chain = Seq::<ScatterResult>::empty();
        assert(is_valid_trace(world.objects@, *ray, depth as nat, chain) && sky == trace_color(
            world.objects@,
            *ray,
            depth as nat,
            chain,
        ));
    }
    sky
}

/// For a ray whose fixed-point unit direction has its vertical component
/// within one, the sky gradient's channels all lie in `[0, 1]`. (A
/// degenerate direction whose normalization overshoots the unit interval
/// can push the blend factor, and with it a channel, out of range.)
pub proof fn lemma_sky_color_in_unit(ray: Ray)
    requires
        mag(vunit(ray.direction).y as int) <= SCALE,
    ensures
        color_in_unit(sky_color_s(ray)),
{
    let x = sat_add(vunit(ray.direction).y as int, SCALE as int);
    assert(0 <= x <= 2 * SCALE);
    assert(32768 * x >= 0) by (nonlinear_arith)
        requires
            x >= 0,
    ;
    vstd::arithmetic::mul::lemma_mul_upper_bound(32768, 32768, x, 2 * (SCALE as int));
    assert(32768int * 131072int == 4294967296int) by (nonlinear_arith);
    assert(65536int * 65536int == 4294967296int) by (nonlinear_arith);
    vstd::arithmetic::div_mod::lemma_div_multiples_vanish(65536, 65536);
    vstd::arithmetic::div_mod::lemma_div_is_ordered(32768 * x, 4294967296, SCALE as int);
    vstd::arithmetic::div_mod::lemma_div_pos_is_pos(32768 * x, SCALE as int);
    let t = sat_mul(32768, x);
    assert(0 <= t <= SCALE);
    crate::fixed::lemma_sat_mul_unit(sat_sub(SCALE as int, t));
    crate::fixed::lemma_sat_mul_unit(t);
    crate::fixed::lemma_sat_mul_unit_range(32768, t);
    crate::fixed::lemma_sat_mul_unit_range(45875, t);
}

/// With remaining depth 1, every hit is black: whether the material
/// declines or scatters, the rest of the path has an exhausted budget,
/// and an attenuation times black is black. This is the uniform color of
/// a silhouette rendered at depth 1.
pub proof fn lemma_depth_one_hit_black(objs: Seq<Sphere>, ray: Ray, chain: Seq<ScatterResult>)
    requires
        is_valid_trace(objs, ray, 1, chain),
        list_hit_s(objs, objs.len() as int, ray, T_MIN as int, T_MAX as int) is Some,
    ensures
        trace_color(objs, ray, 1, chain) == (Vec3 { x: 0i64, y: 0i64, z: 0i64 }),
{
    if chain.len() > 0 {
        assert(trace_color(objs, chain[0].ray, 0nat, chain.drop_first()) == (Vec3 {
            x: 0i64,
            y: 0i64,
            z: 0i64,
        }));
        lemma_vmul_black(chain[0].color);
    }
}

/// Every sky leaf reached along the path has a non-degenerate direction:
/// the vertical component of its fixed-point unit direction is within
/// one. (Rays that hit, decline or exhaust the budget impose nothing.)
pub open spec fn trace_skies_in_unit(
    objs: Seq<Sphere>,
    ray: Ray,
    depth: nat,
    chain: Seq<ScatterResult>,
) -> bool
    decreases depth,
{
    if depth == 0 {
        true
    } else {
        match list_hit_s(objs, objs.len() as int, ray, T_MIN as int, T_MAX as int) {
            None => mag(vunit(ray.direction).y as int) <= SCALE,
            Some(rec) => if chain.len() == 0 {
                true
            } else {
                trace_skies_in_unit(objs, chain[0].ray, (depth - 1) as nat, chain.drop_first())
            },
        }
    }
}

/// With a well-formed scene, the color of every valid bounce path whose
/// sky leaf (if any) is non-degenerate lies in the color range `[0, 1]`:
/// black and the in-range sky are in range, and each attenuation step
/// preserves the range because the scatter attenuation of a scene
/// material is in range.
pub proof fn lemma_trace_color_in_unit(
    objs: Seq<Sphere>,
    ray: Ray,
    depth: nat,
    chain: Seq<ScatterResult>,
)
    requires
        scene_wf(objs),
        is_valid_trace(objs, ray, depth, chain),
        trace_skies_in_unit(objs, ray, depth, chain),
    ensures
        color_in_unit(trace_color(objs, ray, depth, chain)),
    decreases depth,
{
    if depth > 0 {
        match list_hit_s(objs, objs.len() as int, ray, T_MIN as int, T_MAX as int) {
            None => {
                lemma_sky_color_in_unit(ray);
            },
            Some(rec) => {
                if chain.len() > 0 {
                    lemma_trace_color_in_unit(
                        objs,
                        chain[0].ray,
                        (depth - 1) as nat,
                        chain.drop_first(),
                    );
                    lemma_list_hit_material(
                        objs,
                        objs.len() as int,
                        ray,
                        T_MIN as int,
                        T_MAX as int,
                    );
                    let m = choose|m: int|
                        0 <= m < objs.len() && rec.material == #[trigger] objs[m].material;
                    assert(material_wf(rec.material));
                    lemma_scatter_attenuation_in_unit(rec.material, ray, rec, Some(chain[0]));
                    lemma_vmul_in_unit(
                        chain[0].color,
                        trace_color(objs, chain[0].ray, (depth - 1) as nat, chain.drop_first()),
                    );
                }
            },
        }
    }
}

/// One color the jittered sampler may produce for pixel (row `i`, column
/// `j`): the trace color of some valid bounce path of the camera ray for
/// the viewport coordinates `(j + jitter) / (width - 1)`,
/// `(i + jitter) / (height - 1)`, with both jitters uniform in `[0, 1)`
/// and some in-disk lens sample.
pub open spec fn is_pixel_sample(
    cam: Camera,
    objs: Seq<Sphere>,
    i: int,
    j: int,
    width: int,
    height: int,
    depth: nat,
    color: Color,
) -> bool {
    exists|ju: int, jv: int, d: Vec3, chain: Seq<ScatterResult>|
        #![trigger is_valid_trace(
            objs,
            camera_ray_s(
                cam,
                sat_div(j * (SCALE as int) + ju, (width - 1) * (SCALE as int)),
                sat_div(i * (SCALE as int) + jv, (height - 1) * (SCALE as int)),
                d,
            ),
            depth,
            chain,
        )]
        0 <= ju < SCALE && 0 <= jv < SCALE && vsquare(d) < SCALE && d.z == 0 && is_valid_trace(
            objs,
            camera_ray_s(
                cam,
                sat_div(j * (SCALE as int) + ju, (width - 1) * (SCALE as int)),
                sat_div(i * (SCALE as int) + jv, (height - 1) * (SCALE as int)),
                d,
            ),
            depth,
            chain,
        ) && color == trace_color(
            objs,
            camera_ray_s(
                cam,
                sat_div(j * (SCALE as int) + ju, (width - 1) * (SCALE as int)),
                sat_div(i * (SCALE as int) + jv, (height - 1) * (SCALE as int)),
                d,
            ),
            depth,
            chain,
        )
}

/// Accumulate `samples` jittered camera rays for the pixel in column `j` of
/// row `i` of a `width` by `height` image: the accumulator holds exactly
/// `samples` samples, and its sum is the fold of a sequence of colors each
/// of which is an integrator outcome for a jittered camera ray of this
/// pixel.
pub fn sample_pixel(
    camera: &Camera,
    world: &HittableList,
    i: usize,
    j: usize,
    width: usize,
    height: usize,
    samples: usize,
    depth: usize,
) -> (r: MultipleSamplesColor)
    requires
        2 <= width <= 32768,
        2 <= height <= 32768,
        i < height,
        j < width,
        samples < usize::MAX,
    ensures
        r.samples_count == samples,
        exists|cols: Seq<Vec3>|
            #![trigger acc_sum(cols)]
            cols.len() == samples && r.color_sum == acc_sum(cols) && forall|n: int|
                0 <= n < cols.len() ==> is_pixel_sample(
                    *camera,
                    world.objects@,
                    i as int,
                    j as int,
                    width as int,
                    height as int,
                    depth as nat,
                    #[trigger] cols[n],
                ),
{
    let mut color = MultipleSamplesColor::new();
    let ghost mut taken: Seq<Vec3> = Seq::empty();
    let mut k: usize = 0;
    while k < samples
        invariant
            k <= samples,
            color.samples_count == k,
            taken.len() == k,
            color.color_sum == acc_sum(taken),
            forall|n: int|
                0 <= n < taken.len() ==> is_pixel_sample(
                    *camera,
                    world.objects@,
                    i as int,
                    j as int,
                    width as int,
                    height as int,
                    depth as nat,
                    #[trigger] taken[n],
                ),
            samples < usize::MAX,
            2 <= width <= 32768,
            2 <= height <= 32768,
            i < height,
            j < width,
        decreases samples - k,
    {
        let ju = random_double();
        let jv = random_double();
        let u = fx_div((j as i64) * SCALE + ju, ((width - 1) as i64) * SCALE);
        let v = fx_div((i as i64) * SCALE + jv, ((height - 1) as i64) * SCALE);
        let ray = camera.get_ray(u, v);
        let pixel = ray_color(&ray, world, depth);
        color.add(&pixel);
        proof {
            let d = choose|d: Vec3|
                vsquare(d) < SCALE && d.z == 0 && ray == #[trigger] camera_ray_s(
                    *camera,
                    u as int,
                    v as int,
                    d,
                );
            let chain = choose|chain: Seq<ScatterResult>|
                #[trigger] is_valid_trace(world.objects@, ray, depth as nat, chain) && pixel
                    == trace_color(world.objects@, ray, depth as nat, chain);
            assert(ray == camera_ray_s(
                *camera,
                sat_div((j as int) * (SCALE as int) + ju, ((width as int) - 1) * (SCALE as int)),
                sat_div((i as int) * (SCALE as int) + jv, ((height as int) - 1) * (SCALE as int)),
                d,
            ));
            assert(is_pixel_sample(
                *camera,
                world.objects@,
                i as int,
                j as int,
                width as int,
                height as int,
                depth as nat,
                pixel,
            ));
            lemma_acc_sum_push(taken, pixel);
            taken = taken.push(pixel);
        }
        k = k + 1;
    }
    proof {
        assert(taken.len() == samples && color.color_sum == acc_sum(taken));
    }
    color
}

} // verus!
