use pathtracer::scalar::{LIMIT, ONE};
use pathtracer::utilities::{
    black, blue, degrees_to_radians, gray, green, linear_to_gamma, red, sky_blue, unit, white,
    zero, Interval, PI,
};
use pathtracer::vec3::{quantize, Color, Ray, Vec3, NEAR_ZERO};

fn fx(x: f64) -> i64 {
    (x * 1e9).round() as i64
}

fn v(x: f64, y: f64, z: f64) -> Vec3 {
    Vec3::new(fx(x), fx(y), fx(z))
}

#[test]
fn components_come_back_as_given() {
    let a = Vec3::new(1, -2, 3);
    assert_eq!((a.x(), a.y(), a.z()), (1, -2, 3));
    assert_eq!(a, Vec3 { x: 1, y: -2, z: 3 });
}

#[test]
fn vectors_add_subtract_and_scale_by_component() {
    let a = v(1.0, 2.0, 3.0);
    let b = v(4.0, -5.0, 6.0);
    assert_eq!(a.add(b), v(5.0, -3.0, 9.0));
    assert_eq!(a.sub(b), v(-3.0, 7.0, -3.0));
    assert_eq!(a.mul(b), v(4.0, -10.0, 18.0));
    assert_eq!(a.scale(fx(-1.5)), v(-1.5, -3.0, -4.5));
    assert_eq!(a.div(fx(2.0)), v(0.5, 1.0, 1.5));
    assert_eq!(a.offset(fx(0.5)), v(1.5, 2.5, 3.5));
    assert_eq!(a.neg(), v(-1.0, -2.0, -3.0));
}

#[test]
fn dot_product_sums_the_component_products() {
    assert_eq!(Vec3::dot(&v(1.0, 2.0, 3.0), &v(4.0, -5.0, 6.0)), fx(12.0));
    assert_eq!(Vec3::dot(&v(1.0, 0.0, 0.0), &v(0.0, 1.0, 0.0)), 0);
    // the sum is clamped once, after the three products were added
    let big = Vec3::new(LIMIT, LIMIT, 0);
    assert_eq!(Vec3::dot(&big, &Vec3::new(ONE, -ONE, 0)), 0);
    assert_eq!(Vec3::dot(&big, &Vec3::new(ONE, ONE, 0)), LIMIT);
}

#[test]
fn cross_product_is_perpendicular_to_both() {
    assert_eq!(Vec3::cross(&v(1.0, 0.0, 0.0), &v(0.0, 1.0, 0.0)), v(0.0, 0.0, 1.0));
    assert_eq!(Vec3::cross(&v(0.0, 1.0, 0.0), &v(0.0, 0.0, 1.0)), v(1.0, 0.0, 0.0));
    let a = v(1.0, 2.0, 3.0);
    let b = v(4.0, 5.0, 6.0);
    let c = Vec3::cross(&a, &b);
    assert_eq!(c, v(-3.0, 6.0, -3.0));
    assert_eq!(Vec3::dot(&a, &c), 0);
    assert_eq!(Vec3::dot(&b, &c), 0);
}

#[test]
fn norm_of_a_three_four_five_triangle() {
    let a = v(3.0, 4.0, 0.0);
    assert_eq!(a.norm_squared(), fx(25.0));
    assert_eq!(a.norm(), fx(5.0));
    assert_eq!(a.normalized(), v(0.6, 0.8, 0.0));
    assert_eq!(v(1.0, 2.0, 3.0).norm_squared(), fx(14.0));
}

#[test]
fn normalizing_a_vector_without_length_gives_zero() {
    assert_eq!(zero().normalized(), zero());
    // too short for its squared length to be told from zero
    assert_eq!(Vec3::new(1, 0, 0).normalized(), zero());
    assert_eq!(zero(), Vec3::new(0, 0, 0));
}

#[test]
fn reflection_mirrors_at_the_normal() {
    let n = v(0.0, 1.0, 0.0);
    assert_eq!(v(1.0, -1.0, 0.0).reflect(&n), v(1.0, 1.0, 0.0));
    assert_eq!(v(0.0, -1.0, 0.0).reflect(&n), v(0.0, 1.0, 0.0));
    // a vector along the surface is left alone
    assert_eq!(v(1.0, 0.0, 0.0).reflect(&n), v(1.0, 0.0, 0.0));
    let d = v(1.0, -1.0, 0.0).normalized();
    assert_eq!(d.reflect(&n), Vec3::new(707_106_781, 707_106_781, 0));
}

#[test]
fn refraction_follows_snell() {
    let n = v(0.0, 1.0, 0.0);
    // straight down goes straight on
    assert_eq!(v(0.0, -1.0, 0.0).refract(&n, 666_666_667), v(0.0, -1.0, 0.0));
    // at 45 degrees into glass the ray bends toward the normal
    let d = v(1.0, -1.0, 0.0).normalized();
    let out = d.refract(&n, 666_666_666);
    assert_eq!(out, Vec3::new(471_404_520, -881_917_104, 0));
    // with equal indices the ray is not bent, up to rounding
    let same = d.refract(&n, ONE);
    assert!((same.x - d.x).abs() <= 2 && (same.y - d.y).abs() <= 2 && same.z == 0);
}

#[test]
fn near_zero_asks_every_component() {
    assert_eq!(NEAR_ZERO, 10);
    assert!(zero().near_zero());
    assert!(Vec3::new(9, -9, 9).near_zero());
    assert!(!Vec3::new(10, 0, 0).near_zero());
    assert!(!Vec3::new(0, -10, 0).near_zero());
    assert!(!Vec3::new(0, 0, 10).near_zero());
}

#[test]
fn random_vectors_have_components_in_the_unit_range() {
    let mut seen = Vec::new();
    for _ in 0..200 {
        let r = Vec3::random_vec();
        for c in [r.x, r.y, r.z] {
            assert!(0 <= c && c < ONE);
        }
        seen.push(r);
    }
    assert!(seen.iter().any(|r| *r != seen[0]));
}

#[test]
fn outward_vectors_never_point_against_the_normal() {
    let normals = [v(0.0, 0.0, -1.0), v(0.0, 1.0, 0.0), v(-0.6, -0.8, 0.0), v(1.0, 1.0, 1.0)];
    for n in normals.iter() {
        for _ in 0..200 {
            let r = Vec3::random_outwards(n);
            assert!(Vec3::dot(&r, n) >= 0);
        }
    }
    let draw = v(0.5, 0.25, 0.75);
    assert_eq!(Vec3::outwards(draw, &v(0.0, 0.0, 1.0)), draw);
    assert_eq!(Vec3::outwards(draw, &v(0.0, 0.0, -1.0)), draw.neg());
    // a draw along the surface is turned round as well
    assert_eq!(Vec3::outwards(v(0.5, 0.0, 0.0), &v(0.0, 1.0, 0.0)), v(-0.5, 0.0, 0.0));
}

#[test]
fn a_ray_is_evaluated_at_its_parameter() {
    let r = Ray::new(v(1.0, 2.0, 3.0), v(0.0, 0.0, -1.0));
    assert_eq!(r.origin(), v(1.0, 2.0, 3.0));
    assert_eq!(r.dir(), v(0.0, 0.0, -1.0));
    assert_eq!(r.at(fx(2.5)), v(1.0, 2.0, 0.5));
    assert_eq!(r.at(0), r.origin());
    assert_eq!(r.at(fx(-1.0)), v(1.0, 2.0, 4.0));
}

#[test]
fn intervals_test_open_and_closed() {
    let iv = Interval::new(fx(0.001), fx(10.0));
    assert_eq!((iv.min(), iv.max()), (fx(0.001), fx(10.0)));
    assert!(iv.surrounds(fx(5.0)));
    assert!(!iv.surrounds(fx(0.001)));
    assert!(!iv.surrounds(fx(10.0)));
    assert!(iv.contains(fx(0.001)));
    assert!(iv.contains(fx(10.0)));
    assert!(!iv.contains(fx(10.0) + 1));
    assert!(!iv.contains(fx(0.001) - 1));
}

#[test]
fn clamp_saturates_at_the_ends() {
    let iv = unit();
    assert_eq!(iv, Interval { min: 0, max: ONE });
    assert_eq!(iv.clamp(fx(-0.5)), 0);
    assert_eq!(iv.clamp(fx(1.5)), ONE);
    assert_eq!(iv.clamp(fx(0.25)), fx(0.25));
    assert_eq!(iv.clamp(0), 0);
    assert_eq!(iv.clamp(ONE), ONE);
}

#[test]
fn named_colours() {
    assert_eq!(white(), v(1.0, 1.0, 1.0));
    assert_eq!(black(), v(0.0, 0.0, 0.0));
    assert_eq!(gray(), v(0.8, 0.8, 0.8));
    assert_eq!(red(), v(1.0, 0.0, 0.0));
    assert_eq!(green(), v(0.0, 1.0, 0.0));
    assert_eq!(blue(), v(0.0, 0.0, 1.0));
    assert_eq!(sky_blue(), v(0.5, 0.7, 1.0));
}

#[test]
fn gamma_is_the_square_root_of_positive_light() {
    assert_eq!(linear_to_gamma(0), 0);
    assert_eq!(linear_to_gamma(ONE), ONE);
    assert_eq!(linear_to_gamma(fx(0.25)), fx(0.5));
    assert_eq!(linear_to_gamma(fx(0.5)), 707_106_781);
    assert_eq!(linear_to_gamma(fx(-0.25)), 0);
    assert_eq!(linear_to_gamma(4 * ONE), 2 * ONE);
}

#[test]
fn channels_quantize_to_eight_bits() {
    let c: Color = v(0.0, 0.5, 1.0);
    assert_eq!((c.r(), c.g(), c.b()), (0, 127, 255));
    assert_eq!(quantize(fx(0.999)), 255);
    assert_eq!(quantize(996_093_750), 254);
    assert_eq!(quantize(3_906_235), 0);
    assert_eq!(quantize(3_906_266), 1);
}

#[test]
fn light_out_of_range_is_clamped() {
    let c: Color = v(-1.0, 2.5, 1000.0);
    assert_eq!((c.r(), c.g(), c.b()), (0, 255, 255));
    let extreme: Color = Vec3::new(i64::MIN, LIMIT, -1);
    assert_eq!((extreme.r(), extreme.g(), extreme.b()), (0, 255, 0));
}

#[test]
fn no_light_encodes_to_zero_and_full_light_to_255() {
    assert_eq!(quantize(linear_to_gamma(0)), 0);
    assert_eq!(quantize(linear_to_gamma(ONE)), 255);
    assert_eq!(quantize(linear_to_gamma(fx(0.5))), 181);
    for x in [i64::MIN, -ONE, -1, 0, 1, ONE / 3, ONE, ONE + 1, 50 * ONE, LIMIT] {
        let q = quantize(linear_to_gamma(x));
        assert!(0 <= q && q <= 255);
        assert_eq!(q, quantize(linear_to_gamma(unit().clamp(x))));
    }
}

#[test]
fn degrees_turn_into_radians() {
    assert_eq!(PI, 3_141_592_654);
    assert_eq!(degrees_to_radians(fx(180.0)), PI);
    assert_eq!(degrees_to_radians(fx(80.0)), 1_396_263_401);
    assert_eq!(degrees_to_radians(0), 0);
}
