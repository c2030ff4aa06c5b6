use raytracer::camera::Camera;
use raytracer::color::{color_to_i, MultipleSamplesColor};
use raytracer::fixed::{fx_div, SCALE};
use raytracer::hittable_list::HittableList;
use raytracer::material::{Lambertian, Material};
use raytracer::ray::Ray;
use raytracer::render::{ray_color, sample_pixel, T_MAX, T_MIN};
use raytracer::sphere::Sphere;
use raytracer::vec3::Vec3;

#[test]
fn channel_mapping_endpoints() {
    // 0 maps to 0 and 1 maps to 255 through clamp-and-scale.
    assert_eq!(color_to_i(0), 0);
    assert_eq!(color_to_i(SCALE), 255);
    // Mid-gray 0.5 maps to floor(0.5 * 256) = 128.
    assert_eq!(color_to_i(32768), 128);
    // Negative input clamps to 0; an over-bright input clamps to 255.
    assert_eq!(color_to_i(-5 * SCALE), 0);
    assert_eq!(color_to_i(7 * SCALE), 255);
}

#[test]
fn gamma_corrected_output_endpoints() {
    // A black sample finalizes to (0, 0, 0).
    let mut acc = MultipleSamplesColor::new();
    acc.add(&Vec3::new(0, 0, 0));
    assert_eq!(acc.output_rgb(), (0, 0, 0));
    // A full-white sample finalizes to (255, 255, 255).
    let mut acc2 = MultipleSamplesColor::new();
    acc2.add(&Vec3::new(SCALE, SCALE, SCALE));
    assert_eq!(acc2.output_rgb(), (255, 255, 255));
    // Four full-white samples still average to full white.
    let mut acc3 = MultipleSamplesColor::new();
    for _ in 0..4 {
        acc3.add(&Vec3::new(SCALE, SCALE, SCALE));
    }
    assert_eq!(acc3.samples_count, 4);
    assert_eq!(acc3.output_rgb(), (255, 255, 255));
}

#[test]
fn gamma_is_square_root() {
    // A quarter-intensity sample finalizes to sqrt(0.25) = 0.5 per channel.
    let mut acc = MultipleSamplesColor::new();
    acc.add(&Vec3::new(SCALE / 4, SCALE / 4, SCALE / 4));
    assert_eq!(acc.output_rgb(), (128, 128, 128));
}

#[test]
fn accumulation_is_order_independent() {
    let samples = [
        Vec3::new(SCALE, 0, 32768),
        Vec3::new(12345, SCALE, 1),
        Vec3::new(0, 1, 2),
        Vec3::new(54321, 4444, SCALE),
    ];
    let mut forward = MultipleSamplesColor::new();
    for s in samples.iter() {
        forward.add(s);
    }
    let mut backward = MultipleSamplesColor::new();
    for s in samples.iter().rev() {
        backward.add(s);
    }
    let mut shuffled = MultipleSamplesColor::new();
    for i in [2usize, 0, 3, 1] {
        shuffled.add(&samples[i]);
    }
    assert_eq!(forward.color_sum, backward.color_sum);
    assert_eq!(forward.color_sum, shuffled.color_sum);
    assert_eq!(forward.output_rgb(), backward.output_rgb());
    assert_eq!(forward.output_rgb(), shuffled.output_rgb());
}

#[test]
fn depth_zero_is_black() {
    let world = HittableList::new();
    let ray = Ray::new(Vec3::new(0, 0, 0), Vec3::new(0, 0, -SCALE));
    assert_eq!(ray_color(&ray, &world, 0), Vec3::new(0, 0, 0));
}

#[test]
fn miss_is_the_sky_gradient() {
    // An empty scene: a horizontal ray has unit y = 0, so the blend factor
    // is 0.5 and the color is the white-blue midpoint.
    let world = HittableList::new();
    let ray = Ray::new(Vec3::new(0, 0, 0), Vec3::new(0, 0, -SCALE));
    assert_eq!(ray_color(&ray, &world, 5), Vec3::new(49152, 55705, SCALE));
    // A straight-up ray has blend factor 1: pure zenith blue.
    let up = Ray::new(Vec3::new(0, 0, 0), Vec3::new(0, SCALE, 0));
    assert_eq!(ray_color(&up, &world, 5), Vec3::new(32768, 45875, SCALE));
    // A straight-down ray has blend factor 0: pure horizon white.
    let down = Ray::new(Vec3::new(0, 0, 0), Vec3::new(0, -SCALE, 0));
    assert_eq!(ray_color(&down, &world, 5), Vec3::new(SCALE, SCALE, SCALE));
}

#[test]
fn depth_one_hit_is_black() {
    // With depth 1 every hit scatters into an exhausted budget: black.
    let mut world = HittableList::new();
    world.add(Sphere::new(
        Vec3::new(0, 0, 0),
        SCALE,
        Material::Lambertian(Lambertian::new(Vec3::new(32768, 32768, 32768))),
    ));
    let ray = Ray::new(Vec3::new(0, 0, 4 * SCALE), Vec3::new(0, 0, -SCALE));
    assert_eq!(ray_color(&ray, &world, 1), Vec3::new(0, 0, 0));
}

fn pinhole_scene() -> (Camera, HittableList) {
    let mut world = HittableList::new();
    world.add(Sphere::new(
        Vec3::new(0, 0, 0),
        SCALE,
        Material::Lambertian(Lambertian::new(Vec3::new(32768, 32768, 32768))),
    ));
    // Pinhole camera four units up +z looking down -z, 90 degree field of
    // view (half tangent 1), zero aperture, focus distance 1.
    let camera = Camera::new(
        Vec3::new(0, 0, 4 * SCALE),
        Vec3::new(0, 0, 0),
        Vec3::new(0, SCALE, 0),
        SCALE,
        0,
        SCALE,
    );
    (camera, world)
}

#[test]
fn end_to_end_disc_and_sky() {
    // A single unit sphere at the origin, rendered at depth 1 on an
    // 11 x 8 grid: the sphere's projected silhouette is uniformly black and
    // everything else is the sky gradient, whose adjacent rows differ by
    // less than one per-row gradient step.
    let (camera, world) = pinhole_scene();
    let width: i64 = 11;
    let height: i64 = 8;
    let mut image: Vec<Vec<Vec3>> = Vec::new();
    for i in 0..height {
        let mut row: Vec<Vec3> = Vec::new();
        for j in 0..width {
            // Pixel centers, no jitter: (j + 1/2) / (width - 1) style
            // coordinates via exact fixed-point division.
            let u = fx_div(j * SCALE, (width - 1) * SCALE);
            let v = fx_div(i * SCALE, (height - 1) * SCALE);
            let ray = camera.get_ray(u, v);
            row.push(ray_color(&ray, &world, 1));
        }
        image.push(row);
    }
    let black = Vec3::new(0, 0, 0);
    // The center of the silhouette is black (hit at depth 1).
    assert_eq!(image[3][5], black);
    assert_eq!(image[4][5], black);
    // Far columns miss the sphere: sky, never black.
    for i in 0..height as usize {
        assert_ne!(image[i][0], black);
        assert_ne!(image[i][10], black);
    }
    // Background columns form a smooth vertical gradient.
    let step = SCALE / (height - 1) + 1;
    for col in [0usize, 1, 9, 10] {
        for i in 0..(height as usize - 1) {
            let a = image[i][col];
            let b = image[i + 1][col];
            assert!((a.x - b.x).abs() < step, "x step at {} {}", i, col);
            assert!((a.y - b.y).abs() < step, "y step at {} {}", i, col);
            assert!((a.z - b.z).abs() < step, "z step at {} {}", i, col);
        }
    }
}

#[test]
fn sample_pixel_counts_samples() {
    let (camera, world) = pinhole_scene();
    let acc = sample_pixel(&camera, &world, 2, 3, 11, 8, 7, 2);
    assert_eq!(acc.samples_count, 7);
    let (r, g, b) = acc.output_rgb();
    assert!(r <= 255 && g <= 255 && b <= 255);
}

#[test]
fn intersection_interval_constants_are_ordered() {
    assert!(0 < T_MIN && T_MIN < SCALE);
    assert!(T_MAX > SCALE);
}
