use raytracer::fixed::{fx_add, fx_div, fx_mag, fx_mul, fx_neg, fx_sqrt, fx_sub, LIM, SCALE};
use raytracer::utils::degrees_to_radians;
use raytracer::vec3::Vec3;

#[test]
fn scalar_arithmetic_exact_values() {
    // 1.5 * 0.5 == 0.75
    assert_eq!(fx_mul(98304, 32768), 49152);
    // 1 / 2 == 0.5
    assert_eq!(fx_div(65536, 131072), 32768);
    // Truncation toward zero on both signs.
    assert_eq!(fx_mul(3, 3), 0);
    assert_eq!(fx_mul(-3, 3), 0);
    // Saturation at the window edge.
    assert_eq!(fx_add(LIM, LIM), LIM);
    assert_eq!(fx_sub(-LIM, LIM), -LIM);
    assert_eq!(fx_neg(i64::MIN), LIM);
    // Division by zero yields zero by definition.
    assert_eq!(fx_div(12345, 0), 0);
    assert_eq!(fx_mag(-42), 42);
}

#[test]
fn scalar_square_roots() {
    // sqrt(4) == 2, sqrt(1) == 1, sqrt(0) == 0
    assert_eq!(fx_sqrt(4 * SCALE), 2 * SCALE);
    assert_eq!(fx_sqrt(SCALE), SCALE);
    assert_eq!(fx_sqrt(0), 0);
    assert_eq!(fx_sqrt(-SCALE), 0);
    // sqrt(2) rounded down: 92681^2 <= 2 * 2^32 < 92682^2
    assert_eq!(fx_sqrt(2 * SCALE), 92681);
}

#[test]
fn degrees_to_radians_half_turn_is_pi() {
    // 180 degrees is pi radians exactly (pi = 205887 quanta).
    assert_eq!(degrees_to_radians(180 * SCALE), 205887);
    assert_eq!(degrees_to_radians(0), 0);
}

#[test]
fn vector_componentwise_operations() {
    let a = Vec3::new(SCALE, 2 * SCALE, -SCALE);
    let b = Vec3::new(32768, -SCALE, 4 * SCALE);
    assert_eq!(a.add(&b), Vec3::new(98304, SCALE, 3 * SCALE));
    assert_eq!(a.subtract(&b), Vec3::new(32768, 3 * SCALE, -5 * SCALE));
    assert_eq!(a.multiply(&b), Vec3::new(32768, -2 * SCALE, -4 * SCALE));
    assert_eq!(a.negative(), Vec3::new(-SCALE, -2 * SCALE, SCALE));
    assert_eq!(a.add_constant(100), Vec3::new(SCALE + 100, 2 * SCALE + 100, -SCALE + 100));
    assert_eq!(a.multiply_constant(32768), Vec3::new(32768, SCALE, -32768));
    assert_eq!(a.divide_constant(2 * SCALE), Vec3::new(32768, SCALE, -32768));
    assert_eq!(a.dot(&b), 32768 - 2 * SCALE - 4 * SCALE);
    assert_eq!(Vec3::empty(), Vec3::new(0, 0, 0));
}

#[test]
fn vector_length_and_unit() {
    // A 3-4-0 triangle: length 5.
    let v = Vec3::new(3 * SCALE, 4 * SCALE, 0);
    assert_eq!(v.square(), 25 * SCALE);
    assert_eq!(v.length(), 5 * SCALE);
    assert_eq!(v.unit_vector(), Vec3::new(39321, 52428, 0));
    // Unit of an axis vector is itself.
    assert_eq!(Vec3::new(0, 0, -SCALE).unit_vector(), Vec3::new(0, 0, -SCALE));
    // The zero vector has length zero and normalizes to zero.
    assert_eq!(Vec3::empty().length(), 0);
    assert_eq!(Vec3::empty().unit_vector(), Vec3::empty());
}

#[test]
fn vector_near_zero_and_cross() {
    assert!(Vec3::new(0, 0, 0).near_zero());
    assert!(!Vec3::new(1, 0, 0).near_zero());
    let x = Vec3::new(SCALE, 0, 0);
    let y = Vec3::new(0, SCALE, 0);
    let z = Vec3::new(0, 0, SCALE);
    assert_eq!(x.cross(&y), z);
    assert_eq!(y.cross(&z), x);
    assert_eq!(y.cross(&x), z.negative());
}
