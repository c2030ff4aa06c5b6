use raytracer::fixed::SCALE;
use raytracer::hittable::HitRecord;
use raytracer::material::dielectric::reflectance;
use raytracer::material::{Dielectric, Lambertian, Material, Metal, ScatterResult};
use raytracer::ray::Ray;
use raytracer::utils::{reflect, refract};
use raytracer::vec3::Vec3;

fn gray() -> Material {
    Material::Lambertian(Lambertian::new(Vec3::new(32768, 32768, 32768)))
}

#[test]
fn reflect_is_the_mirror_formula() {
    // v - 2 (v . n) n for a flat-on arrival: straight back up.
    let v = Vec3::new(0, 0, -SCALE);
    let n = Vec3::new(0, 0, SCALE);
    assert_eq!(reflect(&v, &n), Vec3::new(0, 0, SCALE));
    // A 45-degree arrival in the x-z plane reflects across the normal.
    let v2 = Vec3::new(SCALE, 0, -SCALE);
    assert_eq!(reflect(&v2, &n), Vec3::new(SCALE, 0, SCALE));
}

#[test]
fn metal_zero_fuzz_scatters_exact_mirror() {
    // Flat-on reflection with fuzz 0: the perturbation sample is ignored
    // and the scattered direction is exactly the mirror direction.
    let metal = Metal::new(Vec3::new(45875, 39321, 32768), 0);
    let ray = Ray::new(Vec3::new(0, 0, SCALE), Vec3::new(0, 0, -SCALE));
    let hit = HitRecord::new(
        Vec3::new(0, 0, 0),
        Vec3::new(0, 0, SCALE),
        SCALE,
        &ray,
        Material::Metal(metal),
    );
    let sample = Vec3::new(12345, -321, 7777);
    let out: ScatterResult = metal
        .scatter_with(&ray, &hit, &sample)
        .expect("mirror reflection leaves the surface");
    assert_eq!(out.get_ray().get_direction(), Vec3::new(0, 0, SCALE));
    assert_eq!(out.get_ray().get_origin(), Vec3::new(0, 0, 0));
    assert_eq!(out.get_color(), Vec3::new(45875, 39321, 32768));
}

#[test]
fn metal_declines_when_reflection_grazes() {
    // A grazing arrival reflects parallel to the surface: the dot product
    // with the normal is not positive, so the scatter is declined.
    let metal = Metal::new(Vec3::new(SCALE, SCALE, SCALE), 0);
    let ray = Ray::new(Vec3::new(0, 0, SCALE), Vec3::new(SCALE, 0, 0));
    let hit = HitRecord::new(
        Vec3::new(0, 0, 0),
        Vec3::new(0, 0, SCALE),
        SCALE,
        &ray,
        Material::Metal(metal),
    );
    let sample = Vec3::new(0, 0, 0);
    assert!(metal.scatter_with(&ray, &hit, &sample).is_none());
}

#[test]
fn metal_fuzz_is_clamped_to_unit() {
    assert_eq!(Metal::new(Vec3::new(0, 0, 0), 5 * SCALE).fuzz, SCALE);
    assert_eq!(Metal::new(Vec3::new(0, 0, 0), -3).fuzz, 0);
    assert_eq!(Metal::new(Vec3::new(0, 0, 0), 300).fuzz, 300);
}

#[test]
fn lambertian_scatters_normal_plus_sample() {
    let lam = Lambertian::new(Vec3::new(13107, 26214, 39321));
    let ray = Ray::new(Vec3::new(0, 0, SCALE), Vec3::new(0, 0, -SCALE));
    let hit = HitRecord::new(
        Vec3::new(0, 0, 0),
        Vec3::new(0, 0, SCALE),
        SCALE,
        &ray,
        Material::Lambertian(lam),
    );
    let sample = Vec3::new(SCALE, 0, 0);
    let out = lam.scatter_with(&hit, &sample);
    assert_eq!(out.get_ray().get_direction(), Vec3::new(SCALE, 0, SCALE));
    assert_eq!(out.get_color(), Vec3::new(13107, 26214, 39321));
}

#[test]
fn lambertian_near_zero_sum_falls_back_to_normal() {
    // A sample that exactly cancels the normal would give a degenerate
    // direction; the scatter falls back to the normal itself.
    let lam = Lambertian::new(Vec3::new(32768, 32768, 32768));
    let ray = Ray::new(Vec3::new(0, 0, SCALE), Vec3::new(0, 0, -SCALE));
    let hit = HitRecord::new(
        Vec3::new(0, 0, 0),
        Vec3::new(0, 0, SCALE),
        SCALE,
        &ray,
        Material::Lambertian(lam),
    );
    let cancel = Vec3::new(0, 0, -SCALE);
    let out = lam.scatter_with(&hit, &cancel);
    assert_eq!(out.get_ray().get_direction(), Vec3::new(0, 0, SCALE));
}

#[test]
fn lambertian_always_scatters() {
    let lam = Lambertian::new(Vec3::new(32768, 32768, 32768));
    let ray = Ray::new(Vec3::new(0, 0, SCALE), Vec3::new(0, 0, -SCALE));
    let hit = HitRecord::new(
        Vec3::new(0, 0, 0),
        Vec3::new(0, 0, SCALE),
        SCALE,
        &ray,
        Material::Lambertian(lam),
    );
    for _ in 0..32 {
        let out = lam.scatter(&ray, &hit).expect("diffuse always scatters");
        assert_eq!(out.get_color(), Vec3::new(32768, 32768, 32768));
        assert_eq!(out.get_ray().get_origin(), Vec3::new(0, 0, 0));
    }
}

#[test]
fn refract_matched_medium_keeps_direction() {
    // Refraction ratio 1: no bending at all for a flat-on arrival.
    let u = Vec3::new(0, 0, -SCALE);
    let n = Vec3::new(0, 0, SCALE);
    assert_eq!(refract(&u, &n, SCALE), Vec3::new(0, 0, -SCALE));
}

#[test]
fn schlick_reflectance_r0_vanishes_at_matched_medium() {
    // With ratio 1 the base reflectance r0 is 0: at cos = 1 the whole
    // reflectance is 0.
    assert_eq!(reflectance(SCALE, SCALE), 0);
    // At glass (ratio 1.5) and cos = 1 only r0 remains: ((0.5/2.5))^2 = 0.04.
    let glass = reflectance(SCALE, 98304);
    assert!(glass > 0);
    assert!((glass - 2621).abs() <= 4);
}

#[test]
fn dielectric_matched_medium_refracts_straight_through() {
    // Index 1.0, flat-on arrival, draw 0: the reflectance is 0 so the draw
    // never forces a reflection and the ray passes unbent, fully white.
    let glass = Dielectric::new(SCALE);
    let ray = Ray::new(Vec3::new(0, 0, SCALE), Vec3::new(0, 0, -SCALE));
    let hit = HitRecord::new(
        Vec3::new(0, 0, 0),
        Vec3::new(0, 0, SCALE),
        SCALE,
        &ray,
        Material::Dielectric(glass),
    );
    for draw in [0i64, 1, 32768, SCALE - 1] {
        let out = glass.scatter_with(&ray, &hit, draw);
        assert_eq!(out.get_ray().get_direction(), Vec3::new(0, 0, -SCALE));
        assert_eq!(out.get_color(), Vec3::new(SCALE, SCALE, SCALE));
    }
}

#[test]
fn dielectric_always_scatters() {
    let glass = Dielectric::new(98304);
    let ray = Ray::new(Vec3::new(0, 0, SCALE), Vec3::new(0, 0, -SCALE));
    let hit = HitRecord::new(
        Vec3::new(0, 0, 0),
        Vec3::new(0, 0, SCALE),
        SCALE,
        &ray,
        Material::Dielectric(glass),
    );
    for _ in 0..32 {
        let out = glass.scatter(&ray, &hit).expect("dielectric always scatters");
        assert_eq!(out.get_color(), Vec3::new(SCALE, SCALE, SCALE));
    }
}

#[test]
fn material_dispatch_matches_variants() {
    let ray = Ray::new(Vec3::new(0, 0, SCALE), Vec3::new(0, 0, -SCALE));
    let hit = HitRecord::new(Vec3::new(0, 0, 0), Vec3::new(0, 0, SCALE), SCALE, &ray, gray());
    assert!(gray().scatter(&ray, &hit).is_some());
    let glass = Material::Dielectric(Dielectric::new(98304));
    assert!(glass.scatter(&ray, &hit).is_some());
}
