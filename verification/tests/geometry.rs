use pathtracer::hittable::{
    not_hit, HitRecord, Hittable, HittableList, Primitive, Sphere, Triangle, PARALLEL,
};
use pathtracer::material::Material;
use pathtracer::scalar::{LIMIT, ONE};
use pathtracer::utilities::{gray, green, red, Interval};
use pathtracer::vec3::{Ray, Vec3};

fn fx(x: f64) -> i64 {
    (x * 1e9).round() as i64
}

fn v(x: f64, y: f64, z: f64) -> Vec3 {
    Vec3::new(fx(x), fx(y), fx(z))
}

fn forward() -> Interval {
    Interval::new(fx(0.001), LIMIT)
}

fn matte(c: Vec3) -> Material {
    Material::Lambertian { albedo: c }
}

fn down_z(x: f64, y: f64) -> Ray {
    Ray::new(v(x, y, 0.0), v(0.0, 0.0, -1.0))
}

#[test]
fn the_record_of_a_miss_is_inert() {
    let miss = not_hit();
    assert!(!miss.has_hit());
    assert!(!miss.front_face());
    assert_eq!(miss.point(), v(0.0, 0.0, 0.0));
    assert_eq!(miss.normal(), v(0.0, 0.0, 0.0));
    assert_eq!(miss.t, 0);
    assert_eq!(miss.material(), Material::Void);
}

#[test]
fn sphere_hit_prefers_the_nearer_root() {
    let s = Sphere::new(v(0.0, 0.0, -1.0), fx(0.5), matte(gray()));
    let rec = s.hit(&down_z(0.0, 0.0), forward());
    assert!(rec.has_hit());
    assert_eq!(rec.t, fx(0.5));
    assert_eq!(rec.point(), v(0.0, 0.0, -0.5));
    assert_eq!(rec.normal(), v(0.0, 0.0, 1.0));
    assert!(rec.front_face());
    assert_eq!(rec.material(), matte(gray()));
}

#[test]
fn sphere_hit_point_lies_on_the_sphere() {
    let s = Sphere::new(v(0.0, 0.0, -5.0), ONE, matte(gray()));
    let rec = s.hit(&down_z(0.0, 0.5), forward());
    assert!(rec.has_hit());
    assert_eq!(rec.t, 4_133_974_597);
    assert_eq!(rec.point(), Vec3::new(0, 500_000_000, -4_133_974_597));
    assert_eq!(rec.normal(), Vec3::new(0, 500_000_000, 866_025_403));
    let distance = rec.point().sub(s.center).norm();
    assert!((distance - s.radius).abs() <= 2);
}

#[test]
fn sphere_hit_takes_the_farther_root_when_the_nearer_is_outside() {
    let s = Sphere::new(v(0.0, 0.0, -1.0), fx(0.5), matte(gray()));
    let rec = s.hit(&down_z(0.0, 0.0), Interval::new(fx(1.0), LIMIT));
    assert!(rec.has_hit());
    assert_eq!(rec.t, fx(1.5));
    assert_eq!(rec.point(), v(0.0, 0.0, -1.5));
    // the ray leaves the sphere there: the normal is turned against it
    assert!(!rec.front_face());
    assert_eq!(rec.normal(), v(0.0, 0.0, 1.0));
}

#[test]
fn sphere_hit_excludes_the_ends_of_the_interval() {
    let s = Sphere::new(v(0.0, 0.0, -1.0), fx(0.5), matte(gray()));
    let r = down_z(0.0, 0.0);
    assert!(!s.hit(&r, Interval::new(fx(2.0), LIMIT)).has_hit());
    assert!(!s.hit(&r, Interval::new(fx(0.001), fx(0.5))).has_hit());
    assert!(!s.hit(&r, Interval::new(fx(0.5), fx(1.5))).has_hit());
    assert_eq!(s.hit(&r, Interval::new(fx(0.5), fx(1.5) + 1)).t, fx(1.5));
    assert_eq!(s.hit(&r, Interval::new(fx(0.5) - 1, fx(1.5))).t, fx(0.5));
    assert_eq!(s.hit(&r, Interval::new(fx(2.0), LIMIT)), not_hit());
}

#[test]
fn a_ray_pointing_away_from_a_sphere_misses_it() {
    let s = Sphere::new(v(0.0, 0.0, 1.0), fx(0.5), matte(gray()));
    assert!(!s.hit(&down_z(0.0, 0.0), forward()).has_hit());
    assert!(!s.hit(&down_z(0.0, 0.0), Interval::new(0, LIMIT)).has_hit());
    let far = Sphere::new(v(3.0, -4.0, 12.0), fx(2.0), matte(gray()));
    for d in [v(-3.0, 4.0, -12.0), v(0.0, 0.0, -1.0), v(-1.0, 0.0, 0.0), v(0.0, 1.0, -0.1)] {
        let r = Ray::new(v(0.0, 0.0, 0.0), d);
        assert!(!far.hit(&r, forward()).has_hit());
        assert!(!far.hit(&r, Interval::new(0, fx(1000.0))).has_hit());
    }
    // only an interval that reaches behind the origin finds the sphere there
    let rec = s.hit(&down_z(0.0, 0.0), Interval::new(fx(-10.0), LIMIT));
    assert!(rec.has_hit());
    assert_eq!(rec.t, fx(-1.5));
}

#[test]
fn a_ray_from_inside_a_sphere_hits_its_back_face() {
    let s = Sphere::new(v(0.0, 0.0, 0.0), ONE, matte(gray()));
    let rec = s.hit(&down_z(0.0, 0.0), forward());
    assert!(rec.has_hit());
    assert_eq!(rec.t, ONE);
    assert!(!rec.front_face());
    assert_eq!(rec.normal(), v(0.0, 0.0, 1.0));
}

#[test]
fn a_ray_past_a_sphere_misses_it() {
    let s = Sphere::new(v(0.0, 0.0, -5.0), ONE, matte(gray()));
    assert_eq!(s.hit(&down_z(0.0, 2.0), forward()), not_hit());
    // a ray that only touches the sphere hits it once
    let rec = s.hit(&down_z(0.0, 1.0), forward());
    assert!(rec.has_hit());
    assert_eq!(rec.t, fx(5.0));
}

#[test]
fn a_direction_need_not_have_unit_length() {
    let s = Sphere::new(v(0.0, 0.0, -5.0), ONE, matte(gray()));
    let r = Ray::new(v(0.0, 0.0, 0.0), v(0.0, 0.0, -2.0));
    let rec = s.hit(&r, forward());
    assert_eq!(rec.t, fx(2.0));
    assert_eq!(rec.point(), v(0.0, 0.0, -4.0));
}

#[test]
fn a_ray_without_direction_hits_nothing() {
    let s = Sphere::new(v(0.0, 0.0, 0.0), ONE, matte(gray()));
    let r = Ray::new(v(0.0, 0.0, 0.0), v(0.0, 0.0, 0.0));
    assert_eq!(s.hit(&r, Interval::new(-ONE, LIMIT)), not_hit());
    let tr = Triangle::new(v(-1.0, -1.0, -2.0), v(1.0, -1.0, -2.0), v(0.0, 1.0, -2.0), matte(red()));
    assert_eq!(tr.hit(&r, Interval::new(-ONE, LIMIT)), not_hit());
}

#[test]
fn a_triangle_keeps_the_normal_and_offset_of_its_plane() {
    let tr = Triangle::new(v(-1.0, -1.0, -2.0), v(1.0, -1.0, -2.0), v(0.0, 1.0, -2.0), matte(red()));
    assert_eq!(tr.normal, v(0.0, 0.0, 1.0));
    assert_eq!(tr.d, fx(-2.0));
    assert_eq!((tr.a, tr.b, tr.c), (v(-1.0, -1.0, -2.0), v(1.0, -1.0, -2.0), v(0.0, 1.0, -2.0)));
    assert_eq!(tr.material, matte(red()));
    assert_eq!(PARALLEL, 10);
}

#[test]
fn a_point_inside_the_triangle_is_accepted() {
    let tr = Triangle::new(v(0.0, 0.0, -1.0), v(1.0, 0.0, -1.0), v(0.0, 1.0, -1.0), matte(red()));
    let rec = tr.hit(&down_z(0.25, 0.25), forward());
    assert!(rec.has_hit());
    assert_eq!(rec.t, ONE);
    assert_eq!(rec.point(), v(0.25, 0.25, -1.0));
    assert_eq!(rec.normal(), v(0.0, 0.0, 1.0));
    assert!(rec.front_face());
    assert_eq!(rec.material(), matte(red()));
    let wide = Triangle::new(v(-1.0, -1.0, -2.0), v(1.0, -1.0, -2.0), v(0.0, 1.0, -2.0), matte(red()));
    assert!(wide.hit(&down_z(0.0, 0.0), forward()).has_hit());
    assert!(wide.hit(&down_z(-0.9, -0.9), forward()).has_hit());
}

#[test]
fn a_point_with_a_negative_weight_is_rejected() {
    let tr = Triangle::new(v(0.0, 0.0, -1.0), v(1.0, 0.0, -1.0), v(0.0, 1.0, -1.0), matte(red()));
    assert_eq!(tr.hit(&down_z(-0.25, 0.25), forward()), not_hit());
    assert_eq!(tr.hit(&down_z(0.25, -0.25), forward()), not_hit());
    // the third weight is negative where the other two add up to more than one
    assert_eq!(tr.hit(&down_z(0.75, 0.75), forward()), not_hit());
    let wide = Triangle::new(v(-1.0, -1.0, -2.0), v(1.0, -1.0, -2.0), v(0.0, 1.0, -2.0), matte(red()));
    assert!(!wide.hit(&down_z(2.0, 0.0), forward()).has_hit());
    assert!(!wide.hit(&down_z(0.0, 1.1), forward()).has_hit());
}

#[test]
fn a_point_on_an_edge_is_accepted() {
    let wide = Triangle::new(v(-1.0, -1.0, -2.0), v(1.0, -1.0, -2.0), v(0.0, 1.0, -2.0), matte(red()));
    let rec = wide.hit(&down_z(0.0, -1.0), forward());
    assert!(rec.has_hit());
    assert_eq!(rec.point(), v(0.0, -1.0, -2.0));
}

#[test]
fn triangle_hit_includes_the_ends_of_the_interval() {
    let tr = Triangle::new(v(-1.0, -1.0, -2.0), v(1.0, -1.0, -2.0), v(0.0, 1.0, -2.0), matte(red()));
    let r = down_z(0.0, 0.0);
    assert!(tr.hit(&r, Interval::new(fx(0.001), fx(2.0))).has_hit());
    assert!(tr.hit(&r, Interval::new(fx(2.0), fx(3.0))).has_hit());
    assert!(!tr.hit(&r, Interval::new(fx(0.001), fx(2.0) - 1)).has_hit());
    assert!(!tr.hit(&r, Interval::new(fx(2.0) + 1, fx(3.0))).has_hit());
}

#[test]
fn a_ray_along_the_plane_misses_the_triangle() {
    let tr = Triangle::new(v(-1.0, -1.0, -2.0), v(1.0, -1.0, -2.0), v(0.0, 1.0, -2.0), matte(red()));
    let r = Ray::new(v(0.0, 0.0, 0.0), v(1.0, 0.0, 0.0));
    assert_eq!(tr.hit(&r, forward()), not_hit());
    let in_plane = Ray::new(v(-5.0, 0.0, -2.0), v(1.0, 0.0, 0.0));
    assert_eq!(tr.hit(&in_plane, forward()), not_hit());
}

#[test]
fn a_triangle_without_area_is_never_hit() {
    let flat = Triangle::new(v(0.0, 0.0, -1.0), v(1.0, 0.0, -1.0), v(2.0, 0.0, -1.0), matte(red()));
    assert_eq!(flat.normal, v(0.0, 0.0, 0.0));
    assert_eq!(flat.hit(&down_z(0.5, 0.0), forward()), not_hit());
    let point = Triangle::new(v(0.0, 0.0, -1.0), v(0.0, 0.0, -1.0), v(0.0, 0.0, -1.0), matte(red()));
    assert_eq!(point.hit(&down_z(0.0, 0.0), forward()), not_hit());
    // a plane normal set by hand does not make such a triangle hittable
    let forged = Triangle { normal: v(0.0, 0.0, 1.0), d: fx(-1.0), ..flat };
    assert_eq!(forged.hit(&down_z(0.5, 0.0), forward()), not_hit());
}

#[test]
fn the_stored_normal_is_turned_against_the_ray() {
    let tr = Triangle::new(v(-1.0, -1.0, -2.0), v(1.0, -1.0, -2.0), v(0.0, 1.0, -2.0), matte(red()));
    let front = tr.hit(&down_z(0.0, 0.0), forward());
    assert!(front.front_face());
    assert_eq!(front.normal(), v(0.0, 0.0, 1.0));
    let from_behind = Ray::new(v(0.0, 0.0, -4.0), v(0.0, 0.0, 1.0));
    let back = tr.hit(&from_behind, forward());
    assert!(back.has_hit());
    assert!(!back.front_face());
    assert_eq!(back.normal(), v(0.0, 0.0, -1.0));
    assert_eq!(back.t, fx(2.0));
}

#[test]
fn front_face_is_the_sign_of_the_dot_product() {
    let outward = [v(0.0, 0.0, 1.0), v(0.0, 0.0, -1.0), v(0.6, 0.0, 0.8), v(1.0, 0.0, 0.0)];
    let dirs = [v(0.0, 0.0, -1.0), v(0.0, 0.0, 1.0), v(0.3, -0.2, 0.1), v(0.0, 1.0, 0.0)];
    for n in outward.iter() {
        for d in dirs.iter() {
            let r = Ray::new(v(0.0, 0.0, 0.0), *d);
            let mut rec: HitRecord = not_hit();
            rec.set_face_normal(&r, n);
            assert_eq!(rec.front_face(), Vec3::dot(d, n) < 0);
            assert!(Vec3::dot(d, &rec.normal()) <= 0);
            assert_eq!(rec.normal(), if rec.front_face() { *n } else { n.neg() });
            assert!(!rec.has_hit());
        }
    }
}

fn three_along_z() -> [Primitive; 3] {
    [
        Primitive::Sphere(Sphere::new(v(0.0, 0.0, -2.0), fx(0.5), matte(red()))),
        Primitive::Triangle(Triangle::new(
            v(-1.0, -1.0, -4.0),
            v(1.0, -1.0, -4.0),
            v(0.0, 1.0, -4.0),
            matte(green()),
        )),
        Primitive::Sphere(Sphere::new(v(0.0, 0.0, -7.0), ONE, matte(gray()))),
    ]
}

#[test]
fn the_scene_returns_the_nearest_hit_whatever_the_order() {
    let p = three_along_z();
    let orders = [[0, 1, 2], [0, 2, 1], [1, 0, 2], [1, 2, 0], [2, 0, 1], [2, 1, 0]];
    for order in orders.iter() {
        let mut world = HittableList::new();
        for &k in order.iter() {
            world.add(p[k]);
        }
        let rec = world.hit(&down_z(0.0, 0.0), forward());
        assert!(rec.has_hit());
        assert_eq!(rec.t, fx(1.5));
        assert_eq!(rec.material(), matte(red()));
        assert_eq!(rec, p[0].hit(&down_z(0.0, 0.0), forward()));
    }
}

#[test]
fn the_scene_skips_what_lies_before_the_interval() {
    let p = three_along_z();
    let mut world = HittableList::new();
    world.add(p[2]);
    world.add(p[0]);
    world.add(p[1]);
    let past_first = world.hit(&down_z(0.0, 0.0), Interval::new(fx(3.0), LIMIT));
    assert_eq!(past_first.t, fx(4.0));
    assert_eq!(past_first.material(), matte(green()));
    let past_second = world.hit(&down_z(0.0, 0.0), Interval::new(fx(4.5), LIMIT));
    assert_eq!(past_second.t, fx(6.0));
    assert_eq!(past_second.material(), matte(gray()));
    assert_eq!(world.hit(&down_z(0.0, 0.0), Interval::new(fx(8.5), LIMIT)), not_hit());
    assert_eq!(world.hit(&down_z(0.0, 3.0), forward()), not_hit());
}

#[test]
fn the_empty_scene_is_never_hit() {
    let world = HittableList::new();
    assert_eq!(world.objects.len(), 0);
    assert_eq!(world.hit(&down_z(0.0, 0.0), forward()), not_hit());
}

#[test]
fn surfaces_stay_in_the_order_in_which_they_were_added() {
    let p = three_along_z();
    let mut world = HittableList::new();
    world.add(p[1]);
    world.add(p[2]);
    world.add(p[0]);
    assert_eq!(world.objects, vec![p[1], p[2], p[0]]);
}

#[test]
fn a_primitive_answers_as_the_surface_it_holds() {
    let s = Sphere::new(v(0.0, 0.0, -2.0), fx(0.5), matte(red()));
    let tr = Triangle::new(v(-1.0, -1.0, -4.0), v(1.0, -1.0, -4.0), v(0.0, 1.0, -4.0), matte(green()));
    let r = down_z(0.1, 0.1);
    assert_eq!(Primitive::Sphere(s).hit(&r, forward()), s.hit(&r, forward()));
    assert_eq!(Primitive::Triangle(tr).hit(&r, forward()), tr.hit(&r, forward()));
}

#[test]
fn of_two_surfaces_at_one_distance_a_later_triangle_wins_and_a_later_sphere_does_not() {
    let tr = Triangle::new(v(-1.0, -1.0, -2.0), v(1.0, -1.0, -2.0), v(0.0, 1.0, -2.0), matte(green()));
    let s = Sphere::new(v(0.0, 0.0, -3.0), ONE, matte(red()));
    let r = down_z(0.0, 0.0);
    assert_eq!(tr.hit(&r, forward()).t, fx(2.0));
    assert_eq!(s.hit(&r, forward()).t, fx(2.0));
    let mut sphere_first = HittableList::new();
    sphere_first.add(Primitive::Sphere(s));
    sphere_first.add(Primitive::Triangle(tr));
    assert_eq!(sphere_first.hit(&r, forward()).material(), matte(green()));
    let mut triangle_first = HittableList::new();
    triangle_first.add(Primitive::Triangle(tr));
    triangle_first.add(Primitive::Sphere(s));
    assert_eq!(triangle_first.hit(&r, forward()).material(), matte(green()));
    assert_eq!(triangle_first.hit(&r, forward()).t, sphere_first.hit(&r, forward()).t);
}
