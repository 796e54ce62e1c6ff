//! Surfaces a ray can hit, and the scene that finds the nearest of them.

use vstd::prelude::*;
use crate::material::Material;
use crate::scalar::{
    fx_abs, fx_add, fx_div, fx_mul, fx_sqrt, fx_sub, lemma_div_monotone, lemma_mul_nonnegative,
    lemma_sqrt_below_square, lemma_sqrt_range, s_abs, s_add, s_div, s_mul, s_sqrt, s_sub, ONE,
};
use crate::utilities::{contained, surrounded, Interval};
use crate::vec3::{
    lemma_dot_neg, lemma_norm_squared_nonnegative, ray_at, v_cross, v_div, v_dot, v_neg,
    v_norm_squared, v_normalized, v_sub, Ray, Vec3,
};

verus! {

/// The outcome of testing a ray against a surface.
#[derive(Clone, Copy, Debug, PartialEq, Eq, Structural)]
pub struct HitRecord {
    /// Whether the ray hit; the other fields count only when it did.
    pub has_hit: bool,
    /// Where the ray met the surface.
    pub point: Vec3,
    /// The surface normal at that point, turned against the ray.
    pub normal: Vec3,
    /// The ray parameter of the point.
    pub t: i64,
    /// Whether the ray came from outside the surface.
    pub front_face: bool,
    /// The material of the surface.
    pub material: Material,
}

/// The record of a miss.
pub open spec fn not_hit_spec() -> HitRecord {
    HitRecord {
        has_hit: false,
        point: Vec3 { x: 0, y: 0, z: 0 },
        normal: Vec3 { x: 0, y: 0, z: 0 },
        t: 0,
        front_face: false,
        material: Material::Void,
    }
}

/// The record of a miss.
#[verifier::when_used_as_spec(not_hit_spec)]
pub fn not_hit() -> (rec: HitRecord)
    ensures
        rec == not_hit_spec(),
{
    HitRecord {
        has_hit: false,
        point: Vec3 { x: 0, y: 0, z: 0 },
        normal: Vec3 { x: 0, y: 0, z: 0 },
        t: 0,
        front_face: false,
        material: Material::Void,
    }
}

/// Whether a ray in direction `dir` meets a surface with outward normal
/// `outward` from outside.
pub open spec fn faces_front(dir: Vec3, outward: Vec3) -> bool {
    v_dot(dir, outward) < 0
}

/// `rec` with its normal set from `outward`, turned against the ray `r`.
pub open spec fn with_face_normal(rec: HitRecord, r: Ray, outward: Vec3) -> HitRecord {
    HitRecord {
        front_face: faces_front(r.dir, outward),
        normal: if faces_front(r.dir, outward) { outward } else { v_neg(outward) },
        ..rec
    }
}

/// The stored normal never points along the ray.
pub proof fn lemma_normal_against_ray(rec: HitRecord, r: Ray, outward: Vec3)
    ensures
        with_face_normal(rec, r, outward).front_face == (v_dot(r.dir, outward) < 0),
        v_dot(r.dir, with_face_normal(rec, r, outward).normal) <= 0,
{
    lemma_dot_neg(r.dir, outward);
}

impl HitRecord {
    /// Records on which side the ray `r` met the surface and stores the
    /// normal turned against it.
    pub fn set_face_normal(&mut self, r: &Ray, outward_normal: &Vec3)
        ensures
            *final(self) == with_face_normal(*old(self), *r, *outward_normal),
            final(self).front_face == (v_dot(r.dir, *outward_normal) < 0),
            v_dot(r.dir, final(self).normal) <= 0,
    {
        proof {
            lemma_normal_against_ray(*self, *r, *outward_normal);
        }
        self.front_face = Vec3::dot(&r.dir(), outward_normal) < 0;
        if self.front_face {
            self.normal = *outward_normal;
        } else {
            self.normal = outward_normal.neg();
        }
    }

    pub fn has_hit(&self) -> (r: bool)
        ensures
            r == self.has_hit,
    {
        self.has_hit
    }

    pub fn front_face(&self) -> (r: bool)
        ensures
            r == self.front_face,
    {
        self.front_face
    }

    pub fn point(&self) -> (r: Vec3)
        ensures
            r == self.point,
    {
        self.point
    }

    pub fn normal(&self) -> (r: Vec3)
        ensures
            r == self.normal,
    {
        self.normal
    }

    pub fn material(&self) -> (r: Material)
        ensures
            r == self.material,
    {
        self.material
    }
}

/// Anything a ray can be tested against.
pub trait Hittable {
    /// What the ray `r` sees of the surface within the interval `ray_t`.
    spec fn seen(&self, r: Ray, ray_t: Interval) -> HitRecord;

    /// Tests the ray against the surface within the interval `ray_t`.
    fn hit(&self, r: &Ray, ray_t: Interval) -> (rec: HitRecord)
        ensures
            rec == self.seen(*r, ray_t),
    ;
}

/// A sphere.
#[derive(Clone, Copy, Debug, PartialEq, Eq, Structural)]
pub struct Sphere {
    pub center: Vec3,
    pub radius: i64,
    pub material: Material,
}

/// The coefficient `a` of the sphere's quadratic: the squared length of the
/// ray's direction.
pub open spec fn sphere_a(r: Ray) -> i64 {
    v_norm_squared(r.dir)
}

/// The coefficient `h`: the direction's dot product with the way from the
/// ray's origin to the centre.
pub open spec fn sphere_h(s: Sphere, r: Ray) -> i64 {
    v_dot(r.dir, v_sub(s.center, r.origin))
}

/// The coefficient `c`: the squared distance from the ray's origin to the
/// centre, less the squared radius. It is positive where the origin lies
/// outside the sphere.
pub open spec fn sphere_c(s: Sphere, r: Ray) -> i64 {
    s_sub(v_norm_squared(v_sub(s.center, r.origin)), s_mul(s.radius, s.radius))
}

/// The reduced discriminant `h * h - a * c`.
pub open spec fn sphere_discriminant(s: Sphere, r: Ray) -> i64 {
    s_sub(s_mul(sphere_h(s, r), sphere_h(s, r)), s_mul(sphere_a(r), sphere_c(s, r)))
}

/// The smaller root `(h - sqrt(disc)) / a`.
pub open spec fn sphere_near_root(s: Sphere, r: Ray) -> i64 {
    s_div(s_sub(sphere_h(s, r), s_sqrt(sphere_discriminant(s, r))), sphere_a(r))
}

/// The larger root `(h + sqrt(disc)) / a`.
pub open spec fn sphere_far_root(s: Sphere, r: Ray) -> i64 {
    s_div(s_add(sphere_h(s, r), s_sqrt(sphere_discriminant(s, r))), sphere_a(r))
}

/// The record of the sphere hit at ray parameter `t`.
pub open spec fn sphere_record(s: Sphere, r: Ray, t: i64) -> HitRecord {
    with_face_normal(
        HitRecord {
            has_hit: true,
            point: ray_at(r, t),
            normal: Vec3 { x: 0, y: 0, z: 0 },
            t,
            front_face: false,
            material: s.material,
        },
        r,
        v_div(v_sub(ray_at(r, t), s.center), s.radius),
    )
}

/// What a ray sees of a sphere within the open interval `ray_t`: the nearer
/// root where it lies inside, else the farther one, else nothing. A ray
/// whose direction has no length sees nothing.
pub open spec fn sphere_hit(s: Sphere, r: Ray, ray_t: Interval) -> HitRecord {
    if sphere_a(r) == 0 || sphere_discriminant(s, r) < 0 {
        not_hit()
    } else if surrounded(ray_t, sphere_near_root(s, r)) {
        sphere_record(s, r, sphere_near_root(s, r))
    } else if surrounded(ray_t, sphere_far_root(s, r)) {
        sphere_record(s, r, sphere_far_root(s, r))
    } else {
        not_hit()
    }
}

/// The nearer root of the sphere's quadratic does not exceed the farther one.
pub proof fn lemma_sphere_roots_ordered(s: Sphere, r: Ray)
    requires
        sphere_a(r) != 0,
    ensures
        sphere_near_root(s, r) <= sphere_far_root(s, r),
{
    let h = sphere_h(s, r);
    let q = s_sqrt(sphere_discriminant(s, r));
    lemma_sqrt_range(sphere_discriminant(s, r));
    lemma_norm_squared_nonnegative(r.dir);
    lemma_div_monotone(s_sub(h, q), s_add(h, q), sphere_a(r));
}

/// Where both roots of the sphere's quadratic lie inside the interval, the
/// hit is at the nearer one, at the point of the ray with that parameter.
pub proof fn lemma_sphere_nearest_root(s: Sphere, r: Ray, ray_t: Interval)
    requires
        sphere_a(r) != 0,
        sphere_discriminant(s, r) >= 0,
        surrounded(ray_t, sphere_near_root(s, r)),
        surrounded(ray_t, sphere_far_root(s, r)),
    ensures
        sphere_hit(s, r, ray_t).has_hit,
        sphere_hit(s, r, ray_t).t == sphere_near_root(s, r),
        sphere_hit(s, r, ray_t).t <= sphere_far_root(s, r),
        sphere_hit(s, r, ray_t).point == ray_at(r, sphere_near_root(s, r)),
        sphere_hit(s, r, ray_t).material == s.material,
{
    lemma_sphere_roots_ordered(s, r);
}

/// A ray that starts outside a sphere and points away from it misses the
/// sphere, whatever interval of parameters from zero up is asked for.
pub proof fn lemma_sphere_behind_ray(s: Sphere, r: Ray, ray_t: Interval)
    requires
        sphere_c(s, r) > 0,
        sphere_h(s, r) <= 0,
        ray_t.min >= 0,
    ensures
        !sphere_hit(s, r, ray_t).has_hit,
{
    let a = sphere_a(r);
    let h = sphere_h(s, r);
    let c = sphere_c(s, r);
    let dis = sphere_discriminant(s, r);
    lemma_norm_squared_nonnegative(r.dir);
    if a != 0 && dis >= 0 {
        lemma_mul_nonnegative(a, c);
        lemma_sqrt_below_square(dis, h);
        let q = s_sqrt(dis);
        lemma_sqrt_range(dis);
        assert(q <= -h);
        lemma_div_monotone(s_add(h, q), 0, a);
        lemma_div_monotone(s_sub(h, q), 0, a);
        assert(sphere_far_root(s, r) <= 0);
        assert(sphere_near_root(s, r) <= 0);
    }
}

impl Sphere {
    /// The sphere round `center` with the given radius and material.
    pub fn new(center: Vec3, radius: i64, material: Material) -> (s: Sphere)
        ensures
            s == (Sphere { center, radius, material }),
    {
        Sphere { center, radius, material }
    }

}

impl Hittable for Sphere {
    open spec fn seen(&self, r: Ray, ray_t: Interval) -> HitRecord {
        sphere_hit(*self, r, ray_t)
    }

    /// Tests the ray against the sphere within the open interval `ray_t`.
    fn hit(&self, r: &Ray, ray_t: Interval) -> (rec: HitRecord) {
        let oc: Vec3 = self.center.sub(r.origin());
        let a: i64 = r.dir().norm_squared();
        let h: i64 = Vec3::dot(&r.dir(), &oc);
        let c: i64 = fx_sub(oc.norm_squared(), fx_mul(self.radius, self.radius));
        let dis: i64 = fx_sub(fx_mul(h, h), fx_mul(a, c));

        if a == 0 || dis < 0 {
            return not_hit();
        }
        let dis_sqrt: i64 = fx_sqrt(dis);
        let mut root: i64 = fx_div(fx_sub(h, dis_sqrt), a);
        if !ray_t.surrounds(root) {
            root = fx_div(fx_add(h, dis_sqrt), a);
            if !ray_t.surrounds(root) {
                return not_hit();
            }
        }
        let mut hr: HitRecord = HitRecord {
            has_hit: true,
            point: r.at(root),
            normal: Vec3 { x: 0, y: 0, z: 0 },
            t: root,
            front_face: false,
            material: self.material,
        };
        let outward_normal: Vec3 = hr.point.sub(self.center).div(self.radius);
        hr.set_face_normal(r, &outward_normal);
        hr
    }
}

/// A triangle, with the normal and offset of its plane kept beside the
/// corners.
#[derive(Clone, Copy, Debug, PartialEq, Eq, Structural)]
pub struct Triangle {
    pub a: Vec3,
    pub b: Vec3,
    pub c: Vec3,
    /// The unit normal of the plane through the corners.
    pub normal: Vec3,
    /// The plane's offset: `normal . p == d` for the points `p` of the plane.
    pub d: i64,
    pub material: Material,
}

/// The smallest magnitude of `normal . direction` at which a ray is not
/// taken as parallel to the plane: `1e-8`.
pub const PARALLEL: i64 = 10;

/// The unit normal of the plane through `a`, `b` and `c`.
pub open spec fn plane_normal(a: Vec3, b: Vec3, c: Vec3) -> Vec3 {
    v_normalized(v_cross(v_sub(b, a), v_sub(c, a)))
}

/// The triangle with the given corners and material.
pub open spec fn triangle_of(a: Vec3, b: Vec3, c: Vec3, material: Material) -> Triangle {
    Triangle {
        a,
        b,
        c,
        normal: plane_normal(a, b, c),
        d: v_dot(plane_normal(a, b, c), a),
        material,
    }
}

/// The ray parameter at which `r` meets the plane of `tr`.
pub open spec fn plane_t(tr: Triangle, r: Ray) -> i64 {
    s_div(s_sub(tr.d, v_dot(tr.normal, r.origin)), v_dot(tr.normal, r.dir))
}

/// The denominator of the barycentric weights: zero for a triangle without
/// area.
pub open spec fn bary_den(tr: Triangle) -> i64 {
    let v0 = v_sub(tr.c, tr.a);
    let v1 = v_sub(tr.b, tr.a);
    s_sub(s_mul(v_dot(v0, v0), v_dot(v1, v1)), s_mul(v_dot(v0, v1), v_dot(v0, v1)))
}

/// The barycentric weight of corner `c` at the point `p`.
pub open spec fn bary_u(tr: Triangle, p: Vec3) -> i64 {
    let v0 = v_sub(tr.c, tr.a);
    let v1 = v_sub(tr.b, tr.a);
    let v2 = v_sub(p, tr.a);
    s_div(
        s_sub(s_mul(v_dot(v1, v1), v_dot(v0, v2)), s_mul(v_dot(v0, v1), v_dot(v1, v2))),
        bary_den(tr),
    )
}

/// The barycentric weight of corner `b` at the point `p`.
pub open spec fn bary_v(tr: Triangle, p: Vec3) -> i64 {
    let v0 = v_sub(tr.c, tr.a);
    let v1 = v_sub(tr.b, tr.a);
    let v2 = v_sub(p, tr.a);
    s_div(
        s_sub(s_mul(v_dot(v0, v0), v_dot(v1, v2)), s_mul(v_dot(v0, v1), v_dot(v0, v2))),
        bary_den(tr),
    )
}

/// Whether the point `p` of the triangle's plane lies in the triangle: both
/// weights are at least zero and their sum is at most one. No point lies in
/// a triangle without area.
pub open spec fn inside_triangle(tr: Triangle, p: Vec3) -> bool {
    bary_den(tr) != 0 && bary_u(tr, p) >= 0 && bary_v(tr, p) >= 0 && s_add(
        bary_u(tr, p),
        bary_v(tr, p),
    ) <= ONE
}

/// Whether the ray `r` meets the plane of `tr` within the closed interval
/// `ray_t`: it is not parallel to the plane and the parameter lies inside.
pub open spec fn meets_plane(tr: Triangle, r: Ray, ray_t: Interval) -> bool {
    s_abs(v_dot(tr.normal, r.dir)) >= PARALLEL && contained(ray_t, plane_t(tr, r))
}

/// The record of the triangle hit by `r`.
pub open spec fn triangle_record(tr: Triangle, r: Ray) -> HitRecord {
    with_face_normal(
        HitRecord {
            has_hit: true,
            point: ray_at(r, plane_t(tr, r)),
            normal: tr.normal,
            t: plane_t(tr, r),
            front_face: true,
            material: tr.material,
        },
        r,
        tr.normal,
    )
}

/// What a ray sees of a triangle within the closed interval `ray_t`.
pub open spec fn triangle_hit(tr: Triangle, r: Ray, ray_t: Interval) -> HitRecord {
    if meets_plane(tr, r, ray_t) && inside_triangle(tr, ray_at(r, plane_t(tr, r))) {
        triangle_record(tr, r)
    } else {
        not_hit()
    }
}

/// A point whose weights all lie strictly between zero and one is in the
/// triangle, and a point with a negative weight is not. The third weight is
/// one less the other two.
pub proof fn lemma_triangle_containment(tr: Triangle, r: Ray, ray_t: Interval)
    requires
        meets_plane(tr, r, ray_t),
    ensures
        ({
            let p = ray_at(r, plane_t(tr, r));
            let u = bary_u(tr, p);
            let v = bary_v(tr, p);
            &&& (0 < u < ONE && 0 < v < ONE && 0 < ONE - u - v < ONE) ==> triangle_hit(
                tr,
                r,
                ray_t,
            ) == triangle_record(tr, r)
            &&& (u < 0 || v < 0 || ONE - u - v < 0) ==> !triangle_hit(tr, r, ray_t).has_hit
        }),
{
}

impl Triangle {
    /// The triangle with the given corners and material; the plane's normal
    /// and offset are worked out once, here.
    pub fn new(a: Vec3, b: Vec3, c: Vec3, material: Material) -> (tr: Triangle)
        ensures
            tr == triangle_of(a, b, c, material),
    {
        let n: Vec3 = Vec3::cross(&b.sub(a), &c.sub(a));
        let normal: Vec3 = n.normalized();
        Triangle { a, b, c, normal, d: Vec3::dot(&normal, &a), material }
    }

}

impl Hittable for Triangle {
    open spec fn seen(&self, r: Ray, ray_t: Interval) -> HitRecord {
        triangle_hit(*self, r, ray_t)
    }

    /// Tests the ray against the triangle within the closed interval `ray_t`.
    fn hit(&self, r: &Ray, ray_t: Interval) -> (rec: HitRecord) {
        let denom_ray: i64 = Vec3::dot(&self.normal, &r.dir());
        if fx_abs(denom_ray) < PARALLEL {
            return not_hit();
        }
        let t: i64 = fx_div(fx_sub(self.d, Vec3::dot(&self.normal, &r.origin())), denom_ray);
        if !ray_t.contains(t) {
            return not_hit();
        }
        let p: Vec3 = r.at(t);

        let v0: Vec3 = self.c.sub(self.a);
        let v1: Vec3 = self.b.sub(self.a);
        let v2: Vec3 = p.sub(self.a);
        let d00: i64 = Vec3::dot(&v0, &v0);
        let d01: i64 = Vec3::dot(&v0, &v1);
        let d02: i64 = Vec3::dot(&v0, &v2);
        let d11: i64 = Vec3::dot(&v1, &v1);
        let d12: i64 = Vec3::dot(&v1, &v2);
        let den: i64 = fx_sub(fx_mul(d00, d11), fx_mul(d01, d01));
        if den == 0 {
            return not_hit();
        }
        let u: i64 = fx_div(fx_sub(fx_mul(d11, d02), fx_mul(d01, d12)), den);
        let v: i64 = fx_div(fx_sub(fx_mul(d00, d12), fx_mul(d01, d02)), den);
        if !(u >= 0 && v >= 0 && fx_add(u, v) <= ONE) {
            return not_hit();
        }
        let mut hr: HitRecord = HitRecord {
            has_hit: true,
            point: p,
            normal: self.normal,
            t,
            front_face: true,
            material: self.material,
        };
        hr.set_face_normal(r, &self.normal);
        hr
    }
}

/// One surface of a scene.
#[derive(Clone, Copy, Debug, PartialEq, Eq, Structural)]
pub enum Primitive {
    Sphere(Sphere),
    Triangle(Triangle),
}

/// What a ray sees of one surface.
#[verifier::opaque]
pub open spec fn primitive_hit(p: Primitive, r: Ray, ray_t: Interval) -> HitRecord {
    match p {
        Primitive::Sphere(s) => sphere_hit(s, r, ray_t),
        Primitive::Triangle(tr) => triangle_hit(tr, r, ray_t),
    }
}

/// Whether a hit at parameter `t` stays a hit when the interval's upper end
/// is lowered to `upper`: a sphere asks for `t < upper`, a triangle for
/// `t <= upper`.
pub open spec fn within_upper(p: Primitive, t: i64, upper: i64) -> bool {
    match p {
        Primitive::Sphere(_) => t < upper,
        Primitive::Triangle(_) => t <= upper,
    }
}

impl Hittable for Primitive {
    open spec fn seen(&self, r: Ray, ray_t: Interval) -> HitRecord {
        primitive_hit(*self, r, ray_t)
    }

    fn hit(&self, r: &Ray, ray_t: Interval) -> (rec: HitRecord) {
        proof {
            reveal(primitive_hit);
        }
        match self {
            Primitive::Sphere(s) => s.hit(r, ray_t),
            Primitive::Triangle(tr) => tr.hit(r, ray_t),
        }
    }
}

/// The material of a surface.
pub open spec fn material_of(p: Primitive) -> Material {
    match p {
        Primitive::Sphere(s) => s.material,
        Primitive::Triangle(tr) => tr.material,
    }
}

/// The record of a hit carries the material of the surface that was hit,
/// and a parameter inside the interval asked for.
pub proof fn lemma_hit_record(p: Primitive, r: Ray, ray_t: Interval)
    requires
        primitive_hit(p, r, ray_t).has_hit,
    ensures
        primitive_hit(p, r, ray_t).material == material_of(p),
        contained(ray_t, primitive_hit(p, r, ray_t).t),
{
    reveal(primitive_hit);
}

/// Lowering the upper end of the interval changes what a ray sees of a
/// surface in one way only: a hit above the new end becomes a miss.
pub proof fn lemma_narrowed_interval(p: Primitive, r: Ray, ray_t: Interval, upper: i64)
    requires
        upper <= ray_t.max,
    ensures
        ({
            let full = primitive_hit(p, r, ray_t);
            let narrow = primitive_hit(p, r, Interval { min: ray_t.min, max: upper });
            &&& narrow == if full.has_hit && within_upper(p, full.t, upper) {
                full
            } else {
                not_hit()
            }
            &&& full.has_hit ==> within_upper(p, full.t, ray_t.max)
        }),
{
    reveal(primitive_hit);
    match p {
        Primitive::Sphere(s) => {
            if sphere_a(r) != 0 {
                lemma_sphere_roots_ordered(s, r);
            }
        },
        Primitive::Triangle(tr) => {},
    }
}

/// The record kept after the surfaces of `objs` were tested in order, each
/// against the interval that ends at the nearest hit so far.
pub open spec fn scan(objs: Seq<Primitive>, r: Ray, ray_t: Interval) -> HitRecord
    decreases objs.len(),
{
    if objs.len() == 0 {
        not_hit()
    } else {
        let before = scan(objs.drop_last(), r, ray_t);
        let upper = if before.has_hit { before.t } else { ray_t.max };
        let rec = primitive_hit(objs.last(), r, Interval { min: ray_t.min, max: upper });
        if rec.has_hit { rec } else { before }
    }
}

/// The scan keeps the nearest hit: its record is what one of the surfaces
/// shows in the whole interval, and no surface shows a hit at a smaller
/// parameter.
pub proof fn lemma_scan_nearest(objs: Seq<Primitive>, r: Ray, ray_t: Interval)
    ensures
        forall|i: int|
            0 <= i < objs.len() && (#[trigger] primitive_hit(objs[i], r, ray_t)).has_hit ==> scan(
                objs,
                r,
                ray_t,
            ).has_hit && scan(objs, r, ray_t).t <= primitive_hit(objs[i], r, ray_t).t,
        scan(objs, r, ray_t).has_hit ==> exists|i: int|
            0 <= i < objs.len() && scan(objs, r, ray_t) == #[trigger] primitive_hit(
                objs[i],
                r,
                ray_t,
            ),
        scan(objs, r, ray_t).has_hit ==> scan(objs, r, ray_t).t <= ray_t.max,
    decreases objs.len(),
{
    if objs.len() > 0 {
        let front = objs.drop_last();
        lemma_scan_nearest(front, r, ray_t);
        let before = scan(front, r, ray_t);
        let upper = if before.has_hit { before.t } else { ray_t.max };
        let last = objs.last();
        lemma_narrowed_interval(last, r, ray_t, upper);
        let res = scan(objs, r, ray_t);
        assert forall|i: int|
            0 <= i < objs.len() && (#[trigger] primitive_hit(objs[i], r, ray_t)).has_hit implies res.has_hit
            && res.t <= primitive_hit(objs[i], r, ray_t).t by {
            if i < objs.len() - 1 {
                assert(front[i] == objs[i]);
            }
        }
        if res.has_hit {
            if primitive_hit(last, r, Interval { min: ray_t.min, max: upper }).has_hit {
                assert(res == primitive_hit(objs[objs.len() - 1], r, ray_t));
            } else {
                let i = choose|i: int|
                    0 <= i < front.len() && before == #[trigger] primitive_hit(front[i], r, ray_t);
                assert(front[i] == objs[i]);
                assert(res == primitive_hit(objs[i], r, ray_t));
            }
        }
    }
}

/// The scan finds a hit exactly where some surface shows one.
pub proof fn lemma_scan_hits_iff(objs: Seq<Primitive>, r: Ray, ray_t: Interval)
    ensures
        scan(objs, r, ray_t).has_hit <==> exists|i: int|
            0 <= i < objs.len() && (#[trigger] primitive_hit(objs[i], r, ray_t)).has_hit,
{
    lemma_scan_nearest(objs, r, ray_t);
}

/// The order in which the surfaces were added decides neither whether the
/// scan finds a hit nor how near that hit is.
pub proof fn lemma_scan_order_free(a: Seq<Primitive>, b: Seq<Primitive>, r: Ray, ray_t: Interval)
    requires
        a.to_multiset() == b.to_multiset(),
    ensures
        scan(a, r, ray_t).has_hit == scan(b, r, ray_t).has_hit,
        scan(a, r, ray_t).has_hit ==> scan(a, r, ray_t).t == scan(b, r, ray_t).t,
{
    lemma_scan_nearest(a, r, ray_t);
    lemma_scan_nearest(b, r, ray_t);
    let ra = scan(a, r, ray_t);
    let rb = scan(b, r, ray_t);
    if ra.has_hit {
        let i = choose|i: int| 0 <= i < a.len() && ra == #[trigger] primitive_hit(a[i], r, ray_t);
        assert(a.contains(a[i]));
        vstd::seq_lib::to_multiset_contains(a, a[i]);
        vstd::seq_lib::to_multiset_contains(b, a[i]);
        assert(b.contains(a[i]));
        let j = choose|j: int| 0 <= j < b.len() && b[j] == a[i];
        assert(primitive_hit(b[j], r, ray_t).has_hit);
    }
    if rb.has_hit {
        let i = choose|i: int| 0 <= i < b.len() && rb == #[trigger] primitive_hit(b[i], r, ray_t);
        assert(b.contains(b[i]));
        vstd::seq_lib::to_multiset_contains(b, b[i]);
        vstd::seq_lib::to_multiset_contains(a, b[i]);
        assert(a.contains(b[i]));
        let j = choose|j: int| 0 <= j < a.len() && a[j] == b[i];
        assert(primitive_hit(a[j], r, ray_t).has_hit);
    }
}

/// A scene: surfaces in the order in which they were added.
pub struct HittableList {
    pub objects: Vec<Primitive>,
}

impl View for HittableList {
    type V = Seq<Primitive>;

    open spec fn view(&self) -> Seq<Primitive> {
        self.objects@
    }
}

impl HittableList {
    /// The empty scene.
    pub fn new() -> (list: HittableList)
        ensures
            list@ == Seq::<Primitive>::empty(),
    {
        HittableList { objects: Vec::new() }
    }

    /// Adds a surface at the end of the scene.
    pub fn add(&mut self, obj: Primitive)
        ensures
            final(self)@ == old(self)@.push(obj),
    {
        self.objects.push(obj);
    }
}

impl Hittable for HittableList {
    open spec fn seen(&self, r: Ray, ray_t: Interval) -> HitRecord {
        scan(self@, r, ray_t)
    }

    /// Tests the ray against every surface of the scene and keeps the
    /// nearest hit.
    fn hit(&self, r: &Ray, ray_t: Interval) -> (rec: HitRecord) {
        let mut hr: HitRecord = not_hit();
        let mut closest_so_far: i64 = ray_t.max();
        let n: usize = self.objects.len();
        let mut i: usize = 0;
        while i < n
            invariant
                0 <= i <= n,
                n == self.objects.len(),
                hr == scan(self@.take(i as int), *r, ray_t),
                closest_so_far == if hr.has_hit { hr.t } else { ray_t.max },
            decreases n - i,
        {
            let obj_hr: HitRecord = self.objects[i].hit(r, Interval::new(ray_t.min(), closest_so_far));
            proof {
                let next = self@.take(i as int + 1);
                assert(next.drop_last() == self@.take(i as int));
                assert(next.last() == self@[i as int]);
            }
            if obj_hr.has_hit {
                closest_so_far = obj_hr.t;
                hr = obj_hr;
            }
            i += 1;
        }
        proof {
            assert(self@.take(n as int) == self@);
        }
        hr
    }
}

} // verus!
