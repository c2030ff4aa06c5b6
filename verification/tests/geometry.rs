use raytracer::fixed::{LIM, SCALE};
use raytracer::hittable::HitRecord;
use raytracer::hittable_list::HittableList;
use raytracer::material::{Lambertian, Material};
use raytracer::ray::Ray;
use raytracer::sphere::Sphere;
use raytracer::vec3::Vec3;

fn gray() -> Material {
    Material::Lambertian(Lambertian::new(Vec3::new(32768, 32768, 32768)))
}

#[test]
fn front_face_from_outside() {
    // Ray direction against the outward normal: front face, normal kept.
    let ray = Ray::new(Vec3::new(0, 0, 0), Vec3::new(0, 0, -SCALE));
    let outward = Vec3::new(0, 0, SCALE);
    let rec = HitRecord::new(Vec3::new(0, 0, -SCALE), outward, SCALE, &ray, gray());
    assert!(rec.get_front_face());
    assert_eq!(rec.get_normal(), outward);
}

#[test]
fn front_face_from_inside() {
    // Ray direction along the outward normal: back face, normal flipped.
    let ray = Ray::new(Vec3::new(0, 0, 0), Vec3::new(0, 0, -SCALE));
    let outward = Vec3::new(0, 0, -SCALE);
    let rec = HitRecord::new(Vec3::new(0, 0, -SCALE), outward, SCALE, &ray, gray());
    assert!(!rec.get_front_face());
    assert_eq!(rec.get_normal(), Vec3::new(0, 0, SCALE));
}

#[test]
fn ray_at_evaluates_the_parameter() {
    let ray = Ray::new(Vec3::new(SCALE, 0, 0), Vec3::new(0, 0, -SCALE));
    assert_eq!(ray.at(2 * SCALE), Vec3::new(SCALE, 0, -2 * SCALE));
    assert_eq!(ray.get_origin(), Vec3::new(SCALE, 0, 0));
    assert_eq!(ray.get_direction(), Vec3::new(0, 0, -SCALE));
}

#[test]
fn sphere_center_shot_hits_at_distance_to_surface() {
    // Unit sphere centered three units down -z, ray aimed at its center:
    // the hit parameter is the distance to the surface (2) and the normal
    // is parallel to (hit point - center).
    let s = Sphere::new(Vec3::new(0, 0, -3 * SCALE), SCALE, gray());
    let ray = Ray::new(Vec3::new(0, 0, 0), Vec3::new(0, 0, -SCALE));
    let rec = s.hit(&ray, 0, LIM).expect("must hit");
    assert_eq!(rec.get_t(), 2 * SCALE);
    assert_eq!(rec.get_point(), Vec3::new(0, 0, -2 * SCALE));
    assert_eq!(rec.get_normal(), Vec3::new(0, 0, SCALE));
    assert!(rec.get_front_face());
}

#[test]
fn sphere_inner_hit_takes_larger_root() {
    // From the center of the sphere the smaller root is behind the origin,
    // so the larger root (the far surface, distance 1) is taken.
    let s = Sphere::new(Vec3::new(0, 0, 0), SCALE, gray());
    let ray = Ray::new(Vec3::new(0, 0, 0), Vec3::new(0, 0, -SCALE));
    let rec = s.hit(&ray, 66, LIM).expect("must hit");
    assert_eq!(rec.get_t(), SCALE);
    // Struck from inside: back face, normal flipped to point against the ray.
    assert!(!rec.get_front_face());
    assert_eq!(rec.get_normal(), Vec3::new(0, 0, SCALE));
}

#[test]
fn sphere_miss_beyond_radius_for_any_range() {
    // Perpendicular offset of two units against a unit sphere: no hit, for
    // several parameter intervals.
    let s = Sphere::new(Vec3::new(0, 0, 0), SCALE, gray());
    let ray = Ray::new(Vec3::new(2 * SCALE, 0, 3 * SCALE), Vec3::new(0, 0, -SCALE));
    assert!(s.hit(&ray, 0, LIM).is_none());
    assert!(s.hit(&ray, -LIM, LIM).is_none());
    assert!(s.hit(&ray, 66, 10 * SCALE).is_none());
    assert!(s.hit(&ray, 5, 6).is_none());
}

#[test]
fn sphere_miss_with_offset_center() {
    // The ray passes the center at perpendicular distance two (along y)
    // against a unit sphere centered five units down -z: no hit.
    let s = Sphere::new(Vec3::new(0, 0, -5 * SCALE), SCALE, gray());
    let ray = Ray::new(Vec3::new(0, 2 * SCALE, 0), Vec3::new(0, 0, -SCALE));
    assert!(s.hit(&ray, 0, LIM).is_none());
    assert!(s.hit(&ray, -LIM, LIM).is_none());
    assert!(s.hit(&ray, 66, 100 * SCALE).is_none());
}

#[test]
fn sphere_out_of_range_interval_is_rejected() {
    // The geometric hit is at t = 2; an interval that excludes it misses.
    let s = Sphere::new(Vec3::new(0, 0, -3 * SCALE), SCALE, gray());
    let ray = Ray::new(Vec3::new(0, 0, 0), Vec3::new(0, 0, -SCALE));
    assert!(s.hit(&ray, 0, SCALE).is_none());
    assert!(s.hit(&ray, 5 * SCALE, 6 * SCALE).is_none());
}

#[test]
fn hollow_sphere_negative_radius_flips_normal() {
    // A negative radius flips the outward normal through the division.
    let s = Sphere::new(Vec3::new(0, 0, -3 * SCALE), -SCALE, gray());
    let ray = Ray::new(Vec3::new(0, 0, 0), Vec3::new(0, 0, -SCALE));
    let rec = s.hit(&ray, 0, LIM).expect("must hit");
    assert_eq!(rec.get_t(), 2 * SCALE);
    assert!(!rec.get_front_face());
    assert_eq!(rec.get_normal(), Vec3::new(0, 0, SCALE));
}

#[test]
fn list_returns_nearest_hit_regardless_of_order() {
    let near = Sphere::new(Vec3::new(0, 0, -2 * SCALE), SCALE, gray());
    let far = Sphere::new(Vec3::new(0, 0, -5 * SCALE), SCALE, gray());
    let ray = Ray::new(Vec3::new(0, 0, 0), Vec3::new(0, 0, -SCALE));

    let mut world = HittableList::new();
    world.add(near);
    world.add(far);
    let rec = world.hit(&ray, 66, LIM).expect("must hit");
    assert_eq!(rec.get_t(), SCALE);

    let mut reversed = HittableList::new();
    reversed.add(far);
    reversed.add(near);
    let rec2 = reversed.hit(&ray, 66, LIM).expect("must hit");
    assert_eq!(rec2.get_t(), SCALE);
}

#[test]
fn empty_and_cleared_list_never_hits() {
    let ray = Ray::new(Vec3::new(0, 0, 0), Vec3::new(0, 0, -SCALE));
    let mut world = HittableList::new();
    assert!(world.hit(&ray, 0, LIM).is_none());
    world.add(Sphere::new(Vec3::new(0, 0, -2 * SCALE), SCALE, gray()));
    assert!(world.hit(&ray, 0, LIM).is_some());
    world.clear();
    assert!(world.hit(&ray, 0, LIM).is_none());
}
