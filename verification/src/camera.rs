//! The camera: the viewport derived from its settings, the rays through the
//! pixels, and the colour that each ray brings back.

use vstd::prelude::*;
use crate::hittable::{
    lemma_hit_record, lemma_scan_hits_iff, lemma_scan_nearest, material_of, primitive_hit, scan,
    HitRecord, Hittable, HittableList, Primitive,
};
use crate::material::{is_sample, scatter_of, Material, Sample, Scatter};
use crate::ppm::{frame, frame_text};
use crate::random::random_unit;
use crate::scalar::{
    fx_add, fx_div, fx_mul, fx_sub, fx_whole, lemma_mul_shrinks, lemma_mul_value, s_abs, s_add,
    s_div, s_mul, s_sub, s_whole, LIMIT, ONE,
};
use crate::utilities::{black, gamma_of, linear_to_gamma, sky_blue, white, Interval};
use crate::vec3::{
    v_add, v_cross, v_div, v_mul, v_norm, v_normalized, v_scale, v_sub, Color, Ray, Vec3,
};

verus! {

/// Why a camera cannot be made from the settings given.
#[derive(Clone, Copy, Debug, PartialEq, Eq, Structural)]
pub enum ConfigError {
    /// The image width is zero or negative.
    ImageWidth,
    /// The aspect ratio is zero or negative.
    AspectRatio,
    /// The number of samples per pixel is zero or negative.
    SamplesPerPixel,
    /// The width divided by the aspect ratio leaves no row at all.
    ImageHeight,
}

/// A camera. Every field after `look_at` is derived from those before it.
#[derive(Clone, Copy, Debug, PartialEq, Eq, Structural)]
pub struct Camera {
    pub image_width: i32,
    pub aspect_ratio: i64,
    pub samples_per_pixel: i32,
    pub max_depth: i32,
    /// The tangent of half the vertical field of view.
    pub half_fov_tan: i64,
    pub origin: Vec3,
    pub look_at: Vec3,
    pub vup: Vec3,
    pub focal_length: i64,
    pub viewport_height: i64,
    pub viewport_width: i64,
    pub image_height: i32,
    pub pixel_du: Vec3,
    pub pixel_dv: Vec3,
    pub pixel_origin: Vec3,
    pub pixel_sample_scale: i64,
    pub u: Vec3,
    pub v: Vec3,
    pub w: Vec3,
}

/// The number of rows of an image: the width divided by the aspect ratio,
/// rounded down, and at most `i32::MAX`; none where the width or the aspect
/// ratio is not positive.
pub open spec fn image_height_of(image_width: i32, aspect_ratio: i64) -> i32 {
    let rows = (image_width * ONE) / (aspect_ratio as int);
    if image_width <= 0 || aspect_ratio <= 0 {
        0
    } else if rows > i32::MAX {
        i32::MAX
    } else {
        rows as i32
    }
}

/// What is wrong with the settings, if anything; the first fault in the
/// order width, aspect ratio, samples, height.
pub open spec fn config_fault(image_width: i32, aspect_ratio: i64, samples_per_pixel: i32) -> Option<
    ConfigError,
> {
    if image_width <= 0 {
        Some(ConfigError::ImageWidth)
    } else if aspect_ratio <= 0 {
        Some(ConfigError::AspectRatio)
    } else if samples_per_pixel <= 0 {
        Some(ConfigError::SamplesPerPixel)
    } else if image_height_of(image_width, aspect_ratio) <= 0 {
        Some(ConfigError::ImageHeight)
    } else {
        None
    }
}

/// The camera that the settings describe: it looks from `origin` to
/// `look_at` with `(0, 1, 0)` as the upward direction.
pub open spec fn camera_of(
    image_width: i32,
    aspect_ratio: i64,
    samples_per_pixel: i32,
    max_depth: i32,
    half_fov_tan: i64,
    origin: Vec3,
    look_at: Vec3,
) -> Camera {
    let vup = Vec3 { x: 0, y: ONE, z: 0 };
    let image_height = image_height_of(image_width, aspect_ratio);
    let focal_length = v_norm(v_sub(origin, look_at));
    let viewport_height = s_mul(s_mul((2 * ONE) as i64, half_fov_tan), focal_length);
    let viewport_width = s_mul(
        viewport_height,
        s_div(s_whole(image_width), s_whole(image_height)),
    );
    let w = v_normalized(v_sub(origin, look_at));
    let u = v_normalized(v_cross(vup, w));
    let v = v_cross(w, u);
    let viewport_u = v_scale(u, viewport_width);
    let viewport_v = v_scale(v_scale(v, viewport_height), (-ONE) as i64);
    let pixel_du = v_div(viewport_u, s_whole(image_width));
    let pixel_dv = v_div(viewport_v, s_whole(image_height));
    let upper_left = v_sub(
        v_sub(v_sub(origin, v_scale(w, focal_length)), v_div(viewport_u, (2 * ONE) as i64)),
        v_div(viewport_v, (2 * ONE) as i64),
    );
    Camera {
        image_width,
        aspect_ratio,
        samples_per_pixel,
        max_depth,
        half_fov_tan,
        origin,
        look_at,
        vup,
        focal_length,
        viewport_height,
        viewport_width,
        image_height,
        pixel_du,
        pixel_dv,
        pixel_origin: v_add(upper_left, v_div(v_add(pixel_du, pixel_dv), (2 * ONE) as i64)),
        pixel_sample_scale: s_div(ONE, s_whole(samples_per_pixel)),
        u,
        v,
        w,
    }
}

/// The fault in words.
pub open spec fn message_of(e: ConfigError) -> Seq<char> {
    match e {
        ConfigError::ImageWidth => "the image width must be positive"@,
        ConfigError::AspectRatio => "the aspect ratio must be positive"@,
        ConfigError::SamplesPerPixel => "the number of samples per pixel must be positive"@,
        ConfigError::ImageHeight => "the image has no rows: the aspect ratio exceeds the width"@,
    }
}

impl ConfigError {
    /// The fault in words.
    pub fn message(&self) -> (text: &'static str)
        ensures
            text@ == message_of(*self),
    {
        match self {
            ConfigError::ImageWidth => "the image width must be positive",
            ConfigError::AspectRatio => "the aspect ratio must be positive",
            ConfigError::SamplesPerPixel => "the number of samples per pixel must be positive",
            ConfigError::ImageHeight => "the image has no rows: the aspect ratio exceeds the width",
        }
    }
}

/// The number of rows of an image of the given width and aspect ratio.
pub fn image_height(image_width: i32, aspect_ratio: i64) -> (rows: i32)
    ensures
        rows == image_height_of(image_width, aspect_ratio),
        rows >= 0,
{
    if image_width <= 0 || aspect_ratio <= 0 {
        return 0;
    }
    let rows: i64 = ((image_width as i64) * 1_000_000_000) / aspect_ratio;
    assert(rows >= 0) by (nonlinear_arith)
        requires
            rows == (image_width * 1_000_000_000) / (aspect_ratio as int),
            image_width > 0,
            aspect_ratio > 0,
    ;
    if rows > 0x7fff_ffff {
        0x7fff_ffff
    } else {
        rows as i32
    }
}

impl Camera {
    /// Makes the camera that the settings describe, or says what is wrong
    /// with them. `half_fov_tan` is the tangent of half the vertical field
    /// of view.
    pub fn new(
        image_width: i32,
        aspect_ratio: i64,
        samples_per_pixel: i32,
        max_depth: i32,
        half_fov_tan: i64,
        origin: Vec3,
        look_at: Vec3,
    ) -> (res: Result<Camera, ConfigError>)
        ensures
            match res {
                Ok(camera) => config_fault(image_width, aspect_ratio, samples_per_pixel).is_none()
                    && camera == camera_of(
                    image_width,
                    aspect_ratio,
                    samples_per_pixel,
                    max_depth,
                    half_fov_tan,
                    origin,
                    look_at,
                ),
                Err(e) => config_fault(image_width, aspect_ratio, samples_per_pixel) == Some(e),
            },
    {
        if image_width <= 0 {
            return Err(ConfigError::ImageWidth);
        }
        if aspect_ratio <= 0 {
            return Err(ConfigError::AspectRatio);
        }
        if samples_per_pixel <= 0 {
            return Err(ConfigError::SamplesPerPixel);
        }
        let image_height: i32 = image_height(image_width, aspect_ratio);
        if image_height <= 0 {
            return Err(ConfigError::ImageHeight);
        }
        let vup: Vec3 = Vec3::new(0, ONE, 0);
        let focal_length: i64 = origin.sub(look_at).norm();
        let viewport_height: i64 = fx_mul(fx_mul(2_000_000_000, half_fov_tan), focal_length);
        let viewport_width: i64 = fx_mul(
            viewport_height,
            fx_div(fx_whole(image_width), fx_whole(image_height)),
        );
        let w: Vec3 = origin.sub(look_at).normalized();
        let u: Vec3 = Vec3::cross(&vup, &w).normalized();
        let v: Vec3 = Vec3::cross(&w, &u);
        let viewport_u: Vec3 = u.scale(viewport_width);
        let viewport_v: Vec3 = v.scale(viewport_height).scale(-1_000_000_000);
        let pixel_du: Vec3 = viewport_u.div(fx_whole(image_width));
        let pixel_dv: Vec3 = viewport_v.div(fx_whole(image_height));
        let viewport_upper_left: Vec3 = origin.sub(w.scale(focal_length)).sub(
            viewport_u.div(2_000_000_000),
        ).sub(viewport_v.div(2_000_000_000));
        let pixel_origin: Vec3 = viewport_upper_left.add(
            pixel_du.add(pixel_dv).div(2_000_000_000),
        );
        Ok(
            Camera {
                image_width,
                aspect_ratio,
                samples_per_pixel,
                max_depth,
                half_fov_tan,
                origin,
                look_at,
                vup,
                focal_length,
                viewport_height,
                viewport_width,
                image_height,
                pixel_du,
                pixel_dv,
                pixel_origin,
                pixel_sample_scale: fx_div(ONE, fx_whole(samples_per_pixel)),
                u,
                v,
                w,
            },
        )
    }
}

/// The smallest ray parameter at which a hit counts: `0.001`. It keeps a
/// scattered ray from hitting the surface it starts on.
pub const EPSILON: i64 = 1_000_000;

/// The parameters at which a ray may hit: from `EPSILON` up, without bound.
pub open spec fn trace_interval() -> Interval {
    Interval { min: EPSILON, max: LIMIT }
}

/// The colour of the sky in direction `dir`: white blended into sky blue
/// by `lambda = (dir.y + 1) / 2`.
pub open spec fn sky(dir: Vec3) -> Color {
    let lambda = s_mul((ONE / 2) as i64, s_add(dir.y, ONE));
    v_add(v_scale(white(), s_sub(ONE, lambda)), v_scale(sky_blue(), lambda))
}

/// The colour that the ray `r` brings back from the scene `world` with
/// `depth` bounces left, where the k-th scattering uses `draws[k]`: black
/// when no bounce is left, the sky where the ray hits nothing, the radiance
/// of a light, and else the colour of the scattered ray times the
/// attenuation.
pub open spec fn trace(world: Seq<Primitive>, r: Ray, depth: int, draws: Seq<Sample>) -> Color
    decreases depth,
{
    if depth <= 0 {
        black()
    } else {
        let hr = scan(world, r, trace_interval());
        if hr.has_hit {
            match scatter_of(hr.material, r, hr, draws[0]) {
                Scatter::Bounce { ray, attenuation } => v_mul(
                    trace(world, ray, depth - 1, draws.drop_first()),
                    attenuation,
                ),
                Scatter::Emit { radiance } => radiance,
            }
        } else {
            sky(r.dir)
        }
    }
}

/// Whether `draws` holds a sample in range for each of `depth` bounces.
pub open spec fn are_draws(draws: Seq<Sample>, depth: int) -> bool {
    draws.len() == (if depth > 0 { depth } else { 0 }) && forall|k: int|
        0 <= k < draws.len() ==> is_sample(#[trigger] draws[k])
}

/// Whether `c` is a colour that the ray may bring back: the colour of the
/// path under some draws.
pub open spec fn is_ray_color(world: Seq<Primitive>, r: Ray, depth: int, c: Color) -> bool {
    exists|draws: Seq<Sample>| are_draws(draws, depth) && c == #[trigger] trace(world, r, depth, draws)
}

/// With no bounce left a ray brings back black.
pub proof fn lemma_trace_exhausted(world: Seq<Primitive>, r: Ray, depth: int, draws: Seq<Sample>)
    requires
        depth <= 0,
    ensures
        trace(world, r, depth, draws) == black(),
{
}

/// A ray that hits nothing brings back the sky in its direction, whatever
/// is drawn; so does every ray in an empty scene.
pub proof fn lemma_trace_sky(world: Seq<Primitive>, r: Ray, depth: int, draws: Seq<Sample>)
    requires
        depth > 0,
        world.len() == 0 || !scan(world, r, trace_interval()).has_hit,
    ensures
        trace(world, r, depth, draws) == sky(r.dir),
{
    lemma_scan_hits_iff(world, r, trace_interval());
}

/// Whether the material neither emits light nor gives back more than it
/// receives: it is no light, and each channel of its albedo lies in
/// `[0, ONE]`.
pub open spec fn keeps_energy(m: Material) -> bool {
    match m {
        Material::Void => true,
        Material::Lambertian { albedo } => is_albedo(albedo),
        Material::Metal { albedo, fuzz } => is_albedo(albedo),
        Material::Dielectric { refraction_index } => true,
        Material::LightSource { intensity } => false,
    }
}

/// Whether each channel lies in `[0, ONE]`.
pub open spec fn is_albedo(c: Color) -> bool {
    0 <= c.x <= ONE && 0 <= c.y <= ONE && 0 <= c.z <= ONE
}

/// Whether no channel of `c` has a larger magnitude than the same channel
/// of `than`.
pub open spec fn no_brighter(c: Color, than: Color) -> bool {
    s_abs(c.x) <= s_abs(than.x) && s_abs(c.y) <= s_abs(than.y) && s_abs(c.z) <= s_abs(than.z)
}

/// In a scene without lights whose materials have albedos in `[0, ONE]`,
/// no path amplifies light: what a ray brings back is in no channel
/// brighter than the sky is in some direction.
pub proof fn lemma_energy_conserved(world: Seq<Primitive>, r: Ray, depth: int, draws: Seq<Sample>)
    requires
        forall|i: int| 0 <= i < world.len() ==> keeps_energy(material_of(#[trigger] world[i])),
    ensures
        exists|dir: Vec3| no_brighter(trace(world, r, depth, draws), #[trigger] sky(dir)),
    decreases depth,
{
    if depth <= 0 {
        assert(no_brighter(black(), sky(r.dir)));
    } else {
        let hr = scan(world, r, trace_interval());
        if hr.has_hit {
            lemma_scan_nearest(world, r, trace_interval());
            let i = choose|i: int|
                0 <= i < world.len() && hr == #[trigger] primitive_hit(world[i], r, trace_interval());
            lemma_hit_record(world[i], r, trace_interval());
            assert(keeps_energy(hr.material));
            match scatter_of(hr.material, r, hr, draws[0]) {
                Scatter::Bounce { ray, attenuation } => {
                    assert(is_albedo(attenuation));
                    let deeper = trace(world, ray, depth - 1, draws.drop_first());
                    lemma_energy_conserved(world, ray, depth - 1, draws.drop_first());
                    let dir = choose|dir: Vec3| no_brighter(deeper, #[trigger] sky(dir));
                    lemma_mul_shrinks(deeper.x, attenuation.x);
                    lemma_mul_shrinks(deeper.y, attenuation.y);
                    lemma_mul_shrinks(deeper.z, attenuation.z);
                    assert(no_brighter(v_mul(deeper, attenuation), sky(dir)));
                },
                Scatter::Emit { radiance } => {},
            }
        } else {
            assert(no_brighter(sky(r.dir), sky(r.dir)));
        }
    }
}

/// Looking in a direction whose height lies in `[-ONE, ONE]`, as that of a
/// unit vector does, the sky has every channel in `[0, ONE]`.
pub proof fn lemma_sky_range(dir: Vec3)
    requires
        -ONE <= dir.y <= ONE,
    ensures
        is_albedo(sky(dir)),
{
    let t = s_add(dir.y, ONE);
    let lambda = s_mul((ONE / 2) as i64, t);
    assert(0 <= t <= 2 * ONE);
    lemma_mul_value(500_000_000, t);
    assert(lambda == t / 2);
    let rest = s_sub(ONE, lambda);
    assert(0 <= rest <= ONE);
    lemma_mul_value(ONE, rest);
    lemma_mul_value(500_000_000, lambda);
    lemma_mul_value(700_000_000, lambda);
    lemma_mul_value(ONE, lambda);
    assert(s_mul(ONE, rest) == rest);
    assert(s_mul(500_000_000, lambda) == lambda / 2);
    assert(s_mul(700_000_000, lambda) == (7 * lambda) / 10);
    assert(s_mul(ONE, lambda) == lambda);
}

/// The ray from the camera through the pixel in column `i` and row `j`,
/// moved off the pixel's centre by `offset` pixels.
pub open spec fn ray_through(camera: Camera, i: i32, j: i32, offset: Vec3) -> Ray {
    let pixel_sample = v_add(
        v_add(camera.pixel_origin, v_scale(camera.pixel_du, s_add(s_whole(i), offset.x))),
        v_scale(camera.pixel_dv, s_add(s_whole(j), offset.y)),
    );
    Ray { origin: camera.origin, dir: v_normalized(v_sub(pixel_sample, camera.origin)) }
}

/// Whether `offset` lies in the unit square round the pixel's centre.
pub open spec fn is_jitter(offset: Vec3) -> bool {
    -ONE / 2 <= offset.x < ONE / 2 && -ONE / 2 <= offset.y < ONE / 2 && offset.z == 0
}

/// A random offset in the unit square round a pixel's centre.
pub fn random_unit_square() -> (offset: Vec3)
    ensures
        is_jitter(offset),
{
    let x: i64 = random_unit();
    let y: i64 = random_unit();
    Vec3::new(x - 500_000_000, y - 500_000_000, 0)
}

/// The colour of the sky in direction `dir`.
pub fn sky_color(dir: Vec3) -> (c: Color)
    ensures
        c == sky(dir),
{
    let lambda: i64 = fx_mul(500_000_000, fx_add(dir.y(), ONE));
    white().scale(fx_sub(ONE, lambda)).add(sky_blue().scale(lambda))
}

impl Camera {
    /// The ray through the pixel in column `i` and row `j`, moved off the
    /// pixel's centre by `offset`.
    pub fn ray_at_offset(&self, i: i32, j: i32, offset: Vec3) -> (r: Ray)
        ensures
            r == ray_through(*self, i, j, offset),
    {
        let pixel_sample: Vec3 = self.pixel_origin.add(
            self.pixel_du.scale(fx_add(fx_whole(i), offset.x())),
        ).add(self.pixel_dv.scale(fx_add(fx_whole(j), offset.y())));
        let ray_dir: Vec3 = pixel_sample.sub(self.origin).normalized();
        Ray::new(self.origin, ray_dir)
    }

    /// A ray through a random point of the pixel in column `i` and row `j`.
    pub fn get_ray(&self, i: i32, j: i32) -> (r: Ray)
        ensures
            exists|offset: Vec3| is_jitter(offset) && r == #[trigger] ray_through(*self, i, j, offset),
    {
        let offset: Vec3 = random_unit_square();
        self.ray_at_offset(i, j, offset)
    }

    /// The colour that the ray `r` brings back from `world` with `depth`
    /// bounces left, every scattering drawing its own random numbers.
    pub fn ray_color(&self, r: &Ray, world: &HittableList, depth: i32) -> (c: Color)
        ensures
            is_ray_color(world@, *r, depth as int, c),
            depth <= 0 ==> c == black(),
            depth > 0 && !scan(world@, *r, trace_interval()).has_hit ==> c == sky(r.dir),
        decreases depth,
    {
        if depth <= 0 {
            proof {
                let draws = Seq::<Sample>::empty();
                assert(are_draws(draws, depth as int));
                assert(black() == trace(world@, *r, depth as int, draws));
            }
            return black();
        }
        let hr: HitRecord = world.hit(r, Interval::new(EPSILON, LIMIT));
        if hr.has_hit() {
            let s: Sample = Sample::random();
            match hr.material().scatter_with(r, &hr, s) {
                Scatter::Bounce { ray, attenuation } => {
                    let deeper: Color = self.ray_color(&ray, world, depth - 1);
                    proof {
                        let rest = choose|draws: Seq<Sample>|
                            are_draws(draws, depth - 1) && deeper == #[trigger] trace(
                                world@,
                                ray,
                                depth - 1,
                                draws,
                            );
                        let draws = seq![s] + rest;
                        assert(draws.drop_first() == rest);
                        assert(draws[0] == s);
                        assert(are_draws(draws, depth as int));
                        assert(v_mul(deeper, attenuation) == trace(world@, *r, depth as int, draws));
                    }
                    deeper.mul(attenuation)
                },
                Scatter::Emit { radiance } => {
                    proof {
                        let draws = Seq::new(depth as nat, |k: int| s);
                        assert(are_draws(draws, depth as int));
                        assert(radiance == trace(world@, *r, depth as int, draws));
                    }
                    radiance
                },
            }
        } else {
            proof {
                let s = Sample { dir: Vec3 { x: 0, y: 0, z: 0 }, pick: 0 };
                let draws = Seq::new(depth as nat, |k: int| s);
                assert(are_draws(draws, depth as int));
                assert(sky(r.dir) == trace(world@, *r, depth as int, draws));
            }
            sky_color(r.dir())
        }
    }
}

/// A size as a count: zero for a negative one.
pub open spec fn extent(n: i32) -> nat {
    if n < 0 { 0 } else { n as nat }
}

/// The sum of the colours of `cs`, added up in order.
pub open spec fn sum_colors(cs: Seq<Color>) -> Color
    decreases cs.len(),
{
    if cs.len() == 0 {
        black()
    } else {
        v_add(sum_colors(cs.drop_last()), cs.last())
    }
}

/// The colour of a pixel whose samples add up to `sum`: the mean of the
/// samples, gamma-encoded channel by channel.
pub open spec fn shade(camera: Camera, sum: Color) -> Color {
    let mean = v_scale(sum, camera.pixel_sample_scale);
    Vec3 { x: gamma_of(mean.x), y: gamma_of(mean.y), z: gamma_of(mean.z) }
}

/// Whether `c` is a colour that one sample of the pixel in column `i` and
/// row `j` may have: what a ray through a point of the pixel may bring back.
pub open spec fn is_sample_color(camera: Camera, world: Seq<Primitive>, i: i32, j: i32, c: Color) -> bool {
    exists|offset: Vec3|
        is_jitter(offset) && is_ray_color(
            world,
            #[trigger] ray_through(camera, i, j, offset),
            camera.max_depth as int,
            c,
        )
}

/// Whether `p` is a colour that the pixel in column `i` and row `j` may
/// have: the shade of as many samples as the camera takes.
#[verifier::opaque]
pub open spec fn is_pixel_color(camera: Camera, world: Seq<Primitive>, i: i32, j: i32, p: Color) -> bool {
    exists|cs: Seq<Color>|
        cs.len() == extent(camera.samples_per_pixel) && (forall|k: int|
            0 <= k < cs.len() ==> is_sample_color(camera, world, i, j, #[trigger] cs[k])) && p
            == shade(camera, #[trigger] sum_colors(cs))
}

/// Whether `pixels` holds the first `rows` rows of an image of `world`, in
/// row-major order from the top row.
pub open spec fn is_rows(camera: Camera, world: Seq<Primitive>, pixels: Seq<Color>, rows: nat) -> bool {
    pixels.len() == extent(camera.image_width) * rows && forall|k: int|
        0 <= k < pixels.len() ==> is_pixel_color(
            camera,
            world,
            (k % camera.image_width as int) as i32,
            (k / camera.image_width as int) as i32,
            #[trigger] pixels[k],
        )
}

/// Whether the image is to be written out after row `j`, when it has been
/// written out `k - 1` times before: after each tenth of the rows, and
/// after the last row.
pub open spec fn is_flush_due(camera: Camera, j: i32, k: i32) -> bool {
    j >= (extent(camera.image_height) / 10) * k || j == camera.image_height - 1
}

impl Camera {
    /// The colour of a pixel whose samples add up to `sum`.
    pub fn shade(&self, sum: Color) -> (p: Color)
        ensures
            p == shade(*self, sum),
    {
        let mean: Color = sum.scale(self.pixel_sample_scale);
        Vec3::new(linear_to_gamma(mean.x()), linear_to_gamma(mean.y()), linear_to_gamma(mean.z()))
    }

    /// Renders the pixel in column `i` and row `j`.
    pub fn pixel_color(&self, i: i32, j: i32, world: &HittableList) -> (p: Color)
        ensures
            is_pixel_color(*self, world@, i, j, p),
    {
        let mut color: Color = black();
        let ghost mut cs: Seq<Color> = Seq::empty();
        let mut k: i32 = 0;
        while k < self.samples_per_pixel
            invariant
                0 <= k <= extent(self.samples_per_pixel),
                cs.len() == k,
                color == sum_colors(cs),
                forall|n: int| 0 <= n < cs.len() ==> is_sample_color(*self, world@, i, j, #[trigger] cs[n]),
            decreases self.samples_per_pixel - k,
        {
            let offset: Vec3 = random_unit_square();
            let r: Ray = self.ray_at_offset(i, j, offset);
            let c: Color = self.ray_color(&r, world, self.max_depth);
            proof {
                assert(is_ray_color(world@, ray_through(*self, i, j, offset), self.max_depth as int, c));
                assert(is_sample_color(*self, world@, i, j, c));
                let next = cs.push(c);
                assert(next.drop_last() == cs);
                cs = next;
            }
            color = color.add(c);
            k += 1;
        }
        proof {
            reveal(is_pixel_color);
            assert(shade(*self, color) == shade(*self, sum_colors(cs)));
        }
        self.shade(color)
    }

    /// Renders row `j` and appends its pixels, from left to right, to
    /// `pixels`.
    pub fn append_row(&self, world: &HittableList, j: i32, pixels: &mut Vec<Color>)
        ensures
            final(pixels)@.len() == old(pixels)@.len() + extent(self.image_width),
            final(pixels)@.take(old(pixels)@.len() as int) == old(pixels)@,
            forall|i: int|
                0 <= i < extent(self.image_width) ==> is_pixel_color(
                    *self,
                    world@,
                    i as i32,
                    j,
                    #[trigger] final(pixels)@[old(pixels)@.len() + i],
                ),
    {
        let ghost start = pixels@;
        let mut i: i32 = 0;
        while i < self.image_width
            invariant
                0 <= i <= extent(self.image_width),
                pixels@.len() == start.len() + i,
                pixels@.take(start.len() as int) == start,
                forall|n: int|
                    0 <= n < i ==> is_pixel_color(
                        *self,
                        world@,
                        n as i32,
                        j,
                        #[trigger] pixels@[start.len() + n],
                    ),
            decreases self.image_width - i,
        {
            let p: Color = self.pixel_color(i, j, world);
            let ghost before = pixels@;
            pixels.push(p);
            proof {
                assert(pixels@.take(start.len() as int) =~= before.take(start.len() as int));
                assert forall|n: int| 0 <= n < i + 1 implies is_pixel_color(
                    *self,
                    world@,
                    n as i32,
                    j,
                    #[trigger] pixels@[start.len() + n],
                ) by {
                    if n < i {
                        assert(pixels@[start.len() + n] == before[start.len() + n]);
                    }
                }
            }
            i += 1;
        }
    }

    /// Whether the image is to be written out after row `j`, when it has
    /// been written out `k - 1` times before.
    pub fn flush_due(&self, j: i32, k: i32) -> (due: bool)
        ensures
            due == is_flush_due(*self, j, k),
    {
        let rows: i64 = if self.image_height < 0 { 0 } else { self.image_height as i64 };
        let tenth: i64 = rows / 10;
        assert(-0x4000_0000_0000_0000 <= tenth * (k as i64) <= 0x4000_0000_0000_0000) by (nonlinear_arith)
            requires
                0 <= tenth <= 0x8000_0000,
                -0x8000_0000 <= k <= 0x8000_0000,
        ;
        (j as i64) >= tenth * (k as i64) || (j as i64) == (self.image_height as i64) - 1
    }

    /// The text of the image of which `pixels` are rendered; the pixels
    /// that are missing come out black.
    pub fn frame(&self, pixels: &Vec<Color>) -> (out: Vec<u8>)
        ensures
            out@ == frame_text(extent(self.image_width), extent(self.image_height), pixels@),
    {
        let width: u32 = if self.image_width < 0 { 0 } else { self.image_width as u32 };
        let height: u32 = if self.image_height < 0 { 0 } else { self.image_height as u32 };
        frame(width, height, pixels)
    }
}

/// Whether `text` is an image of `world` as the camera may render it: the
/// text of some complete set of pixel colours.
pub open spec fn is_render(camera: Camera, world: Seq<Primitive>, text: Seq<u8>) -> bool {
    exists|pixels: Seq<Color>|
        is_rows(camera, world, pixels, extent(camera.image_height)) && text == #[trigger] frame_text(
            extent(camera.image_width),
            extent(camera.image_height),
            pixels,
        )
}

impl Camera {
    /// Renders every pixel of the image, row by row from the top, each row
    /// from left to right.
    pub fn render_pixels(&self, world: &HittableList) -> (pixels: Vec<Color>)
        ensures
            is_rows(*self, world@, pixels@, extent(self.image_height)),
    {
        let mut pixels: Vec<Color> = Vec::new();
        let mut j: i32 = 0;
        while j < self.image_height
            invariant
                0 <= j <= extent(self.image_height),
                is_rows(*self, world@, pixels@, j as nat),
            decreases self.image_height - j,
        {
            let ghost before = pixels@;
            self.append_row(world, j, &mut pixels);
            proof {
                let w = extent(self.image_width) as int;
                assert(before.len() == w * j);
                assert(w * (j + 1) == w * j + w) by (nonlinear_arith);
                assert forall|k: int| 0 <= k < pixels@.len() implies is_pixel_color(
                    *self,
                    world@,
                    (k % self.image_width as int) as i32,
                    (k / self.image_width as int) as i32,
                    #[trigger] pixels@[k],
                ) by {
                    if k < before.len() {
                        assert(pixels@.take(before.len() as int)[k] == before[k]);
                    } else {
                        let i = k - before.len();
                        assert(j * w == w * j) by (nonlinear_arith);
                        vstd::arithmetic::div_mod::lemma_fundamental_div_mod_converse(k, w, j as int, i);
                        assert(pixels@[k] == pixels@[before.len() + i]);
                    }
                }
            }
            j += 1;
        }
        pixels
    }

    /// Renders the scene and gives the image as text: the header, then the
    /// pixels in row-major order from the top row.
    pub fn render(&self, world: &HittableList) -> (text: Vec<u8>)
        ensures
            is_render(*self, world@, text@),
    {
        let pixels: Vec<Color> = self.render_pixels(world);
        self.frame(&pixels)
    }
}

} // verus!
