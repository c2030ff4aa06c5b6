use raytracer::fixed::SCALE;
use raytracer::utils::{
    random_double, random_in_hemisphere, random_in_range, random_in_unit_disk,
    random_in_unit_sphere, random_unit_vector, random_vec3, random_vec_in_range,
};
use raytracer::vec3::Vec3;

#[test]
fn random_double_stays_in_unit_interval() {
    for _ in 0..256 {
        let r = random_double();
        assert!((0..SCALE).contains(&r));
    }
}

#[test]
fn random_in_range_respects_bounds() {
    for _ in 0..256 {
        let r = random_in_range(-3 * SCALE, 7 * SCALE);
        assert!((-3 * SCALE..7 * SCALE).contains(&r));
    }
    // A one-quantum range pins the sample completely.
    assert_eq!(random_in_range(5, 6), 5);
}

#[test]
fn random_vectors_respect_bounds() {
    for _ in 0..64 {
        let v = random_vec3();
        assert!((0..SCALE).contains(&v.get_x()));
        assert!((0..SCALE).contains(&v.get_y()));
        assert!((0..SCALE).contains(&v.get_z()));
        let w = random_vec_in_range(-SCALE, SCALE);
        assert!((-SCALE..SCALE).contains(&w.get_x()));
        assert!((-SCALE..SCALE).contains(&w.get_y()));
        assert!((-SCALE..SCALE).contains(&w.get_z()));
    }
}

#[test]
fn unit_sphere_and_disk_samples_are_inside() {
    for _ in 0..64 {
        let s = random_in_unit_sphere();
        assert!(s.square() < SCALE);
        let d = random_in_unit_disk();
        assert!(d.square() < SCALE);
        assert_eq!(d.get_z(), 0);
    }
}

#[test]
fn hemisphere_samples_do_not_oppose_the_normal() {
    let n = Vec3::new(0, 0, SCALE);
    for _ in 0..64 {
        let h = random_in_hemisphere(&n);
        assert!(h.dot(&n) >= 0);
        assert!(h.square() < SCALE);
    }
}

#[test]
fn random_unit_vectors_have_bounded_length() {
    // Normalizing an in-sphere sample gives a length close to one; the
    // truncation overshoot for a tiny sample stays well below a factor of
    // two.
    for _ in 0..64 {
        let u = random_unit_vector();
        assert!(u.length() < 2 * SCALE);
    }
}
