//! Surface materials and how each scatters an incoming ray.
//!
//! Every rule exists twice: as a function of the random numbers it uses,
//! with an exact contract, and as a function that draws those numbers.

use vstd::prelude::*;
use crate::hittable::HitRecord;
use crate::random::random_unit;
use crate::scalar::{
    fx_add, fx_div, fx_min, fx_mul, fx_sqrt, fx_sub, s_add, s_div, s_min, s_mul, s_sqrt, s_sub,
    ONE,
};
use crate::utilities::white;
use crate::vec3::{
    is_unit_draw, v_add, v_dot, v_near_zero, v_neg, v_normalized, v_outwards, v_reflect,
    v_refract, v_scale, Color, Ray, Vec3,
};

verus! {

/// What a surface is made of.
#[derive(Clone, Copy, Debug, PartialEq, Eq, Structural)]
pub enum Material {
    /// No material: what the record of a miss carries.
    Void,
    /// A diffuse surface that keeps `albedo` of the light.
    Lambertian { albedo: Color },
    /// A mirror that keeps `albedo` of the light, blurred by `fuzz`.
    Metal { albedo: Color, fuzz: i64 },
    /// A clear medium such as glass.
    Dielectric { refraction_index: i64 },
    /// A surface that emits `intensity` and ends the path.
    LightSource { intensity: Color },
}

/// What becomes of a ray at a surface.
#[derive(Clone, Copy, Debug, PartialEq, Eq, Structural)]
pub enum Scatter {
    /// The path goes on along `ray`, its light weighted by `attenuation`.
    Bounce { ray: Ray, attenuation: Color },
    /// The path ends at a light of this radiance.
    Emit { radiance: Color },
}

/// The random numbers that one scattering uses.
#[derive(Clone, Copy, Debug, PartialEq, Eq, Structural)]
pub struct Sample {
    /// A vector with components in `[0, ONE)`.
    pub dir: Vec3,
    /// A scalar in `[0, ONE)`.
    pub pick: i64,
}

/// Whether `s` is in the range of what is drawn.
pub open spec fn is_sample(s: Sample) -> bool {
    is_unit_draw(s.dir) && 0 <= s.pick < ONE
}

/// No scattering: the ray goes on unchanged and keeps all of its light.
pub open spec fn void_scatter(r: Ray) -> (Ray, Color) {
    (r, white())
}

/// Diffuse scattering: from the hit point along the normal plus the draw
/// turned outward, scaled to unit length; along the normal itself where
/// that sum vanishes.
pub open spec fn lambertian_scatter(albedo: Color, hr: HitRecord, draw: Vec3) -> (Ray, Color) {
    let d = v_normalized(v_add(hr.normal, v_outwards(draw, hr.normal)));
    (Ray { origin: hr.point, dir: if v_near_zero(d) { hr.normal } else { d } }, albedo)
}

/// Mirror scattering: from the hit point along the unit reflection of the
/// incoming direction, plus `fuzz` times the unit vector of the draw.
pub open spec fn metal_scatter(albedo: Color, fuzz: i64, r: Ray, hr: HitRecord, draw: Vec3) -> (
    Ray,
    Color,
) {
    (
        Ray {
            origin: hr.point,
            dir: v_add(
                v_normalized(v_reflect(r.dir, hr.normal)),
                v_scale(v_normalized(draw), fuzz),
            ),
        },
        albedo,
    )
}

/// The fifth power of a scalar.
pub open spec fn s_pow5(x: i64) -> i64 {
    s_mul(s_mul(s_mul(s_mul(x, x), x), x), x)
}

/// Schlick's approximation of the share of light that a clear surface
/// reflects: `r0 + (1 - r0) (1 - cos)^5` with `r0 = ((1 - ri) / (1 + ri))^2`.
pub open spec fn schlick(cos: i64, ri: i64) -> i64 {
    let q = s_div(s_sub(ONE, ri), s_add(ONE, ri));
    let r0 = s_mul(q, q);
    s_add(r0, s_mul(s_sub(ONE, r0), s_pow5(s_sub(ONE, cos))))
}

/// The ratio of refraction indices that a ray meets: the reciprocal of the
/// medium's index on the way in, the index itself on the way out.
pub open spec fn index_ratio(refraction_index: i64, hr: HitRecord) -> i64 {
    if hr.front_face { s_div(ONE, refraction_index) } else { refraction_index }
}

/// The cosine of the angle between the reversed ray and the normal, capped
/// at one.
pub open spec fn incidence_cos(r: Ray, hr: HitRecord) -> i64 {
    s_min(v_dot(v_neg(r.dir), hr.normal), ONE)
}

/// Whether a clear surface reflects the ray: Snell's law has no solution
/// (total internal reflection), or Schlick's share exceeds the draw.
pub open spec fn dielectric_reflects(refraction_index: i64, r: Ray, hr: HitRecord, pick: i64) -> bool {
    let ri = index_ratio(refraction_index, hr);
    let cos = incidence_cos(r, hr);
    let sin = s_sqrt(s_sub(ONE, s_mul(cos, cos)));
    s_mul(ri, sin) > ONE || schlick(cos, ri) > pick
}

/// Scattering at a clear surface: the ray is reflected or refracted, and
/// keeps all of its light.
pub open spec fn dielectric_scatter(refraction_index: i64, r: Ray, hr: HitRecord, pick: i64) -> (
    Ray,
    Color,
) {
    (
        Ray {
            origin: hr.point,
            dir: if dielectric_reflects(refraction_index, r, hr, pick) {
                v_reflect(r.dir, hr.normal)
            } else {
                v_refract(r.dir, hr.normal, index_ratio(refraction_index, hr))
            },
        },
        white(),
    )
}

/// A `Bounce` made of a ray and its attenuation.
pub open spec fn bounce(pair: (Ray, Color)) -> Scatter {
    Scatter::Bounce { ray: pair.0, attenuation: pair.1 }
}

/// What the material `m` makes of the ray `r` at the hit `hr`, given the
/// random numbers `s`.
pub open spec fn scatter_of(m: Material, r: Ray, hr: HitRecord, s: Sample) -> Scatter {
    match m {
        Material::Void => bounce(void_scatter(r)),
        Material::Lambertian { albedo } => bounce(lambertian_scatter(albedo, hr, s.dir)),
        Material::Metal { albedo, fuzz } => bounce(metal_scatter(albedo, fuzz, r, hr, s.dir)),
        Material::Dielectric { refraction_index } => bounce(
            dielectric_scatter(refraction_index, r, hr, s.pick),
        ),
        Material::LightSource { intensity } => Scatter::Emit { radiance: intensity },
    }
}

/// The material that scatters nothing.
#[derive(Clone, Copy, Debug, PartialEq, Eq, Structural)]
pub struct VoidMaterial {}

impl VoidMaterial {
    pub fn new() -> (m: VoidMaterial)
        ensures
            m == (VoidMaterial {  }),
    {
        VoidMaterial {  }
    }

    /// Hands the ray back unchanged, with white attenuation.
    pub fn scatter(&self, r: &Ray, hr: &HitRecord) -> (out: (Ray, Color))
        ensures
            out == void_scatter(*r),
    {
        (*r, white())
    }
}

/// A diffuse material.
#[derive(Clone, Copy, Debug, PartialEq, Eq, Structural)]
pub struct Lambertian {
    pub albedo: Color,
}

impl Lambertian {
    pub fn new(albedo: Color) -> (m: Lambertian)
        ensures
            m == (Lambertian { albedo }),
    {
        Lambertian { albedo }
    }

    /// Scatters diffusely, using `draw` as the random vector.
    pub fn scatter_with(&self, hr: &HitRecord, draw: Vec3) -> (out: (Ray, Color))
        ensures
            out == lambertian_scatter(self.albedo, *hr, draw),
    {
        let normal: Vec3 = hr.normal();
        let mut scatter_direction: Vec3 = normal.add(Vec3::outwards(draw, &normal)).normalized();
        if scatter_direction.near_zero() {
            scatter_direction = normal;
        }
        (Ray::new(hr.point(), scatter_direction), self.albedo)
    }

    /// Scatters diffusely in a random direction on the side of the normal.
    pub fn scatter(&self, r: &Ray, hr: &HitRecord) -> (out: (Ray, Color))
        ensures
            exists|draw: Vec3|
                is_unit_draw(draw) && out == #[trigger] lambertian_scatter(self.albedo, *hr, draw),
            out.1 == self.albedo,
    {
        let draw: Vec3 = Vec3::random_vec();
        self.scatter_with(hr, draw)
    }
}

/// A reflective material.
#[derive(Clone, Copy, Debug, PartialEq, Eq, Structural)]
pub struct Metal {
    pub albedo: Color,
    pub fuzz: i64,
}

impl Metal {
    pub fn new(albedo: Color, fuzz: i64) -> (m: Metal)
        ensures
            m == (Metal { albedo, fuzz }),
    {
        Metal { albedo, fuzz }
    }

    /// Reflects the ray, using `draw` as the random vector of the blur.
    pub fn scatter_with(&self, r: &Ray, hr: &HitRecord, draw: Vec3) -> (out: (Ray, Color))
        ensures
            out == metal_scatter(self.albedo, self.fuzz, *r, *hr, draw),
    {
        let reflect_dir: Vec3 = r.dir().reflect(&hr.normal());
        (
            Ray::new(hr.point(), reflect_dir.normalized().add(draw.normalized().scale(self.fuzz))),
            self.albedo,
        )
    }

    /// Reflects the ray with a random blur.
    pub fn scatter(&self, r: &Ray, hr: &HitRecord) -> (out: (Ray, Color))
        ensures
            exists|draw: Vec3|
                is_unit_draw(draw) && out == #[trigger] metal_scatter(
                    self.albedo,
                    self.fuzz,
                    *r,
                    *hr,
                    draw,
                ),
            out.1 == self.albedo,
    {
        let draw: Vec3 = Vec3::random_vec();
        self.scatter_with(r, hr, draw)
    }
}

/// A clear, refractive material.
#[derive(Clone, Copy, Debug, PartialEq, Eq, Structural)]
pub struct Dielectric {
    pub refraction_index: i64,
}

impl Dielectric {
    pub fn new(refraction_index: i64) -> (m: Dielectric)
        ensures
            m == (Dielectric { refraction_index }),
    {
        Dielectric { refraction_index }
    }

    /// Schlick's approximation of the reflected share of light.
    pub fn reflectance(cos: i64, refraction_index: i64) -> (r: i64)
        ensures
            r == schlick(cos, refraction_index),
    {
        let q: i64 = fx_div(fx_sub(ONE, refraction_index), fx_add(ONE, refraction_index));
        let r0: i64 = fx_mul(q, q);
        let k: i64 = fx_sub(ONE, cos);
        let k5: i64 = fx_mul(fx_mul(fx_mul(fx_mul(k, k), k), k), k);
        fx_add(r0, fx_mul(fx_sub(ONE, r0), k5))
    }

    /// Reflects or refracts the ray, using `pick` as the random number that
    /// is held against the reflected share.
    pub fn scatter_with(&self, r: &Ray, hr: &HitRecord, pick: i64) -> (out: (Ray, Color))
        ensures
            out == dielectric_scatter(self.refraction_index, *r, *hr, pick),
    {
        let ri: i64 = if hr.front_face() {
            fx_div(ONE, self.refraction_index)
        } else {
            self.refraction_index
        };
        let cos_theta: i64 = fx_min(Vec3::dot(&r.dir().neg(), &hr.normal()), ONE);
        let sin_theta: i64 = fx_sqrt(fx_sub(ONE, fx_mul(cos_theta, cos_theta)));
        let cannot_refract: bool = fx_mul(ri, sin_theta) > ONE;
        let direction: Vec3 = if cannot_refract || Dielectric::reflectance(cos_theta, ri) > pick {
            r.dir().reflect(&hr.normal())
        } else {
            r.dir().refract(&hr.normal(), ri)
        };
        (Ray::new(hr.point(), direction), white())
    }

    /// Reflects or refracts the ray, at random in the proportion that
    /// Schlick's approximation gives.
    pub fn scatter(&self, r: &Ray, hr: &HitRecord) -> (out: (Ray, Color))
        ensures
            exists|pick: i64|
                0 <= pick < ONE && out == #[trigger] dielectric_scatter(
                    self.refraction_index,
                    *r,
                    *hr,
                    pick,
                ),
            out.1 == white(),
    {
        let pick: i64 = random_unit();
        self.scatter_with(r, hr, pick)
    }
}

impl Material {
    /// What the material makes of the ray `r` at the hit `hr`, given the
    /// random numbers `s`.
    pub fn scatter_with(&self, r: &Ray, hr: &HitRecord, s: Sample) -> (out: Scatter)
        ensures
            out == scatter_of(*self, *r, *hr, s),
    {
        match self {
            Material::Void => {
                let (ray, attenuation) = VoidMaterial::new().scatter(r, hr);
                Scatter::Bounce { ray, attenuation }
            },
            Material::Lambertian { albedo } => {
                let (ray, attenuation) = Lambertian::new(*albedo).scatter_with(hr, s.dir);
                Scatter::Bounce { ray, attenuation }
            },
            Material::Metal { albedo, fuzz } => {
                let (ray, attenuation) = Metal::new(*albedo, *fuzz).scatter_with(r, hr, s.dir);
                Scatter::Bounce { ray, attenuation }
            },
            Material::Dielectric { refraction_index } => {
                let (ray, attenuation) = Dielectric::new(*refraction_index).scatter_with(
                    r,
                    hr,
                    s.pick,
                );
                Scatter::Bounce { ray, attenuation }
            },
            Material::LightSource { intensity } => Scatter::Emit { radiance: *intensity },
        }
    }

    /// Scatters the ray `r` at the hit `hr`, drawing the random numbers
    /// that the material needs.
    pub fn scatter(&self, r: &Ray, hr: &HitRecord) -> (out: Scatter)
        ensures
            exists|s: Sample| is_sample(s) && out == #[trigger] scatter_of(*self, *r, *hr, s),
    {
        let s: Sample = Sample::random();
        self.scatter_with(r, hr, s)
    }
}

impl Sample {
    /// Draws the random numbers for one scattering.
    pub fn random() -> (s: Sample)
        ensures
            is_sample(s),
    {
        let dir: Vec3 = Vec3::random_vec();
        let pick: i64 = random_unit();
        Sample { dir, pick }
    }
}

} // verus!
