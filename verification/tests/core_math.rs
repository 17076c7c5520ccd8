use raytracer::fx::{fx_div, fx_mul, fx_sqrt, HALF, SCALE};
use raytracer::rand::Rand;
use raytracer::ray3::Ray3;
use raytracer::vec3::{cross, dot, reflect, unit_vector, Vec3};

#[test]
fn fx_mul_rounds_toward_zero() {
    assert_eq!(fx_mul(SCALE, SCALE), SCALE);
    assert_eq!(fx_mul(HALF, HALF), 16384);
    assert_eq!(fx_mul(-HALF, HALF), -16384);
    assert_eq!(fx_mul(1, 1), 0);
    assert_eq!(fx_mul(-3, 30000), -1);
}

#[test]
fn fx_div_rounds_toward_zero() {
    assert_eq!(fx_div(SCALE, 2 * SCALE), HALF);
    assert_eq!(fx_div(-SCALE, 2 * SCALE), -HALF);
    assert_eq!(fx_div(SCALE, 3 * SCALE), 21845);
}

#[test]
fn fx_sqrt_exact_squares() {
    assert_eq!(fx_sqrt(0), 0);
    assert_eq!(fx_sqrt(SCALE), SCALE);
    assert_eq!(fx_sqrt(4 * SCALE), 2 * SCALE);
    assert_eq!(fx_sqrt(16384), HALF);
}

#[test]
fn vector_componentwise_ops() {
    let a = Vec3::new(SCALE, 2 * SCALE, -SCALE);
    let b = Vec3::new(HALF, -SCALE, 3 * SCALE);
    let s = a.add(&b);
    assert_eq!((s.x(), s.y(), s.z()), (SCALE + HALF, SCALE, 2 * SCALE));
    let d = a.sub(&b);
    assert_eq!((d.x(), d.y(), d.z()), (HALF, 3 * SCALE, -4 * SCALE));
    let m = a.mul(&b);
    assert_eq!((m.x(), m.y(), m.z()), (HALF, -2 * SCALE, -3 * SCALE));
    let sc = a.scale(HALF);
    assert_eq!((sc.x(), sc.y(), sc.z()), (HALF, SCALE, -HALF));
    let dv = a.div(2 * SCALE);
    assert_eq!((dv.x(), dv.y(), dv.z()), (HALF, SCALE, -HALF));
    let n = b.neg();
    assert_eq!((n.x(), n.y(), n.z()), (-HALF, SCALE, -3 * SCALE));
}

#[test]
fn dot_and_cross_products() {
    let x = Vec3::new(SCALE, 0, 0);
    let y = Vec3::new(0, SCALE, 0);
    assert_eq!(dot(&x, &y), 0);
    assert_eq!(x.dot(&x), SCALE);
    let z = cross(&x, &y);
    assert_eq!((z.x(), z.y(), z.z()), (0, 0, SCALE));
    let w = x.cross(&y);
    assert_eq!((w.x(), w.y(), w.z()), (0, 0, SCALE));
}

#[test]
fn length_of_pythagorean_vector() {
    let v = Vec3::new(3 * SCALE, 4 * SCALE, 0);
    assert_eq!(v.length_squared(), 25 * SCALE);
    assert_eq!(v.length(), 5 * SCALE);
}

#[test]
fn unit_vector_of_axis_is_exact() {
    let v = Vec3::new(0, 0, -2 * SCALE);
    let u = unit_vector(&v);
    assert_eq!((u.x(), u.y(), u.z()), (0, 0, -SCALE));
}

#[test]
fn unit_vector_has_length_one_within_tolerance() {
    let cases = [
        Vec3::new(3 * SCALE, 4 * SCALE, 0),
        Vec3::new(SCALE, SCALE, SCALE),
        Vec3::new(-7 * SCALE, 2 * SCALE, 5 * SCALE),
        Vec3::new(100 * SCALE, -3 * SCALE, 14 * SCALE),
    ];
    for v in cases.iter() {
        let u = v.unit_vector();
        let len = u.length();
        assert!(
            (len - SCALE).abs() <= 16,
            "length of unit vector was {len}"
        );
    }
    // Quantization grows for inputs far below one unit; the result is still
    // close on the coarser scale of its own magnitude.
    let tiny = Vec3::new(1000, -2000, 3000);
    let len = tiny.unit_vector().length();
    assert!((len - SCALE).abs() <= 256, "length of unit vector was {len}");
}

#[test]
fn near_zero_uses_magnitude() {
    assert!(Vec3::new(0, 0, 0).near_zero());
    assert!(!Vec3::new(-5 * SCALE, 0, 0).near_zero());
    assert!(!Vec3::new(-1, 0, 0).near_zero());
    assert!(!Vec3::new(0, 0, 2).near_zero());
}

#[test]
fn reflect_about_vertical_normal() {
    let v = Vec3::new(SCALE, -SCALE, 0);
    let n = Vec3::new(0, SCALE, 0);
    let r = reflect(&v, &n);
    assert_eq!((r.x(), r.y(), r.z()), (SCALE, SCALE, 0));
    assert_eq!(r.length(), v.length());
}

#[test]
fn ray_construction_normalizes_direction() {
    let ray = Ray3::new(Vec3::new(0, 0, 0), Vec3::new(0, 0, -4 * SCALE));
    let d = ray.direction();
    assert_eq!((d.x(), d.y(), d.z()), (0, 0, -SCALE));
    let p = ray.at(HALF);
    assert_eq!((p.x(), p.y(), p.z()), (0, 0, -HALF));
    let o = ray.origin();
    assert_eq!((o.x(), o.y(), o.z()), (0, 0, 0));
}

#[test]
fn empty_ray_is_well_formed() {
    let ray = Ray3::empty_new();
    let d = ray.direction();
    assert_eq!((d.x(), d.y(), d.z()), (0, 0, SCALE));
}

#[test]
fn sampler_is_deterministic_per_seed() {
    let mut a = Rand::new_with_seed(42);
    let mut b = Rand::new_with_seed(42);
    for _ in 0..32 {
        assert_eq!(a.next(), b.next());
    }
    let mut c = Rand::new_with_seed(43);
    let mut d = Rand::new_with_seed(42);
    let mut differed = false;
    for _ in 0..32 {
        if c.next() != d.next() {
            differed = true;
        }
    }
    assert!(differed);
}

#[test]
fn sampler_draws_stay_in_range() {
    let mut r = Rand::new();
    for _ in 0..256 {
        let v = r.next();
        assert!(0 <= v && v < SCALE);
    }
    let mut r2 = Rand::new_with_seed(7);
    for _ in 0..256 {
        let v = r2.next_with_range(-HALF, HALF);
        assert!(-HALF <= v && v <= HALF);
    }
}

#[test]
fn random_unit_vector_is_usable_direction() {
    let mut r = Rand::new_with_seed(11);
    for _ in 0..16 {
        let u = Vec3::random_unit_vector(&mut r);
        let ls = u.length_squared();
        assert!(SCALE / 2 <= ls && ls <= 8 * SCALE);
    }
}

#[test]
fn hemisphere_sample_faces_normal() {
    let n = Vec3::new(0, SCALE, 0);
    let mut r = Rand::new_with_seed(5);
    for _ in 0..16 {
        let u = Vec3::random_on_hemisphere(&n, &mut r);
        assert!(u.dot(&n) >= 0);
    }
}

#[test]
fn random_vector_in_range() {
    let mut r = Rand::new_with_seed(9);
    let v = Vec3::random_with_randomizer_and_range(&mut r, -SCALE, SCALE);
    for c in [v.x(), v.y(), v.z()] {
        assert!(-SCALE <= c && c <= SCALE);
    }
    let w = Vec3::random(&mut r);
    for c in [w.x(), w.y(), w.z()] {
        assert!(0 <= c && c < SCALE);
    }
}
