//! Three-component vectors, rays and colours over fixed-point scalars.

use vstd::prelude::*;
use crate::random::random_unit;
use crate::scalar::{
    fx_abs, fx_add, fx_div, fx_min, fx_mul, fx_neg, fx_sqrt, fx_sub, lemma_mul_neg,
    lemma_mul_square, lemma_sqrt_monotone, lemma_sqrt_one, lemma_sqrt_range, s_abs, s_add, s_div,
    s_min, s_mul, s_neg, s_sqrt, s_sub, sat, saturate, ONE,
};
use crate::utilities::{clamped, gamma_of, unit};

verus! {

/// A vector, point or colour with three scalar components.
#[derive(Clone, Copy, Debug, PartialEq, Eq, Structural)]
pub struct Vec3 {
    pub x: i64,
    pub y: i64,
    pub z: i64,
}

/// The sum of two vectors.
pub open spec fn v_add(u: Vec3, v: Vec3) -> Vec3 {
    Vec3 { x: s_add(u.x, v.x), y: s_add(u.y, v.y), z: s_add(u.z, v.z) }
}

/// The difference of two vectors.
pub open spec fn v_sub(u: Vec3, v: Vec3) -> Vec3 {
    Vec3 { x: s_sub(u.x, v.x), y: s_sub(u.y, v.y), z: s_sub(u.z, v.z) }
}

/// The component-wise product of two vectors.
pub open spec fn v_mul(u: Vec3, v: Vec3) -> Vec3 {
    Vec3 { x: s_mul(u.x, v.x), y: s_mul(u.y, v.y), z: s_mul(u.z, v.z) }
}

/// The vector with `s` added to each component.
pub open spec fn v_offset(v: Vec3, s: i64) -> Vec3 {
    Vec3 { x: s_add(v.x, s), y: s_add(v.y, s), z: s_add(v.z, s) }
}

/// The vector scaled by `s`.
pub open spec fn v_scale(v: Vec3, s: i64) -> Vec3 {
    Vec3 { x: s_mul(v.x, s), y: s_mul(v.y, s), z: s_mul(v.z, s) }
}

/// The vector divided by `s`.
pub open spec fn v_div(v: Vec3, s: i64) -> Vec3 {
    Vec3 { x: s_div(v.x, s), y: s_div(v.y, s), z: s_div(v.z, s) }
}

/// The opposite vector.
pub open spec fn v_neg(v: Vec3) -> Vec3 {
    Vec3 { x: s_neg(v.x), y: s_neg(v.y), z: s_neg(v.z) }
}

/// The dot product: the three component products, summed exactly and then
/// clamped once.
pub open spec fn v_dot(u: Vec3, v: Vec3) -> i64 {
    sat(s_mul(u.x, v.x) + s_mul(u.y, v.y) + s_mul(u.z, v.z))
}

/// The cross product.
pub open spec fn v_cross(u: Vec3, v: Vec3) -> Vec3 {
    Vec3 {
        x: s_sub(s_mul(u.y, v.z), s_mul(u.z, v.y)),
        y: s_sub(s_mul(u.z, v.x), s_mul(u.x, v.z)),
        z: s_sub(s_mul(u.x, v.y), s_mul(u.y, v.x)),
    }
}

/// The squared Euclidean norm.
pub open spec fn v_norm_squared(v: Vec3) -> i64 {
    v_dot(v, v)
}

/// The Euclidean norm.
pub open spec fn v_norm(v: Vec3) -> i64 {
    s_sqrt(v_norm_squared(v))
}

/// The vector divided by its norm; the zero vector where the norm is zero.
pub open spec fn v_normalized(v: Vec3) -> Vec3 {
    if v_norm(v) == 0 {
        Vec3 { x: 0, y: 0, z: 0 }
    } else {
        v_div(v, v_norm(v))
    }
}

/// The mirror image of `v` at a surface with normal `n`: `v - 2 (v . n) n`.
pub open spec fn v_reflect(v: Vec3, n: Vec3) -> Vec3 {
    v_sub(v, v_scale(v_scale(n, (2 * ONE) as i64), v_dot(v, n)))
}

/// The direction of `v` after refraction at a surface with normal `n`, for
/// the ratio `eta` of the two refraction indices (Snell's law).
pub open spec fn v_refract(v: Vec3, n: Vec3, eta: i64) -> Vec3 {
    let cos_theta = s_min(v_dot(v_neg(v), n), ONE);
    let perp = v_scale(v_add(v, v_scale(n, cos_theta)), eta);
    let para = v_scale(n, s_neg(s_sqrt(s_abs(s_sub(ONE, v_norm_squared(perp))))));
    v_add(perp, para)
}

/// The threshold under which a component counts as zero: `1e-8`.
pub const NEAR_ZERO: i64 = 10;

/// Whether every component is smaller in magnitude than `NEAR_ZERO`.
pub open spec fn v_near_zero(v: Vec3) -> bool {
    s_abs(v.x) < NEAR_ZERO && s_abs(v.y) < NEAR_ZERO && s_abs(v.z) < NEAR_ZERO
}

impl Vec3 {
    /// The vector with the given components.
    pub fn new(x: i64, y: i64, z: i64) -> (v: Vec3)
        ensures
            v == (Vec3 { x, y, z }),
    {
        Vec3 { x, y, z }
    }

    pub fn x(&self) -> (r: i64)
        ensures
            r == self.x,
    {
        self.x
    }

    pub fn y(&self) -> (r: i64)
        ensures
            r == self.y,
    {
        self.y
    }

    pub fn z(&self) -> (r: i64)
        ensures
            r == self.z,
    {
        self.z
    }

    /// Adds two vectors.
    pub fn add(self, other: Vec3) -> (r: Vec3)
        ensures
            r == v_add(self, other),
    {
        Vec3 {
            x: fx_add(self.x, other.x),
            y: fx_add(self.y, other.y),
            z: fx_add(self.z, other.z),
        }
    }

    /// Subtracts `other` from the vector.
    pub fn sub(self, other: Vec3) -> (r: Vec3)
        ensures
            r == v_sub(self, other),
    {
        Vec3 {
            x: fx_sub(self.x, other.x),
            y: fx_sub(self.y, other.y),
            z: fx_sub(self.z, other.z),
        }
    }

    /// Multiplies two vectors component by component.
    pub fn mul(self, other: Vec3) -> (r: Vec3)
        ensures
            r == v_mul(self, other),
    {
        Vec3 {
            x: fx_mul(self.x, other.x),
            y: fx_mul(self.y, other.y),
            z: fx_mul(self.z, other.z),
        }
    }

    /// Adds `scalar` to each component.
    pub fn offset(self, scalar: i64) -> (r: Vec3)
        ensures
            r == v_offset(self, scalar),
    {
        Vec3 {
            x: fx_add(self.x, scalar),
            y: fx_add(self.y, scalar),
            z: fx_add(self.z, scalar),
        }
    }

    /// Scales the vector by `scalar`.
    pub fn scale(self, scalar: i64) -> (r: Vec3)
        ensures
            r == v_scale(self, scalar),
    {
        Vec3 {
            x: fx_mul(self.x, scalar),
            y: fx_mul(self.y, scalar),
            z: fx_mul(self.z, scalar),
        }
    }

    /// Divides the vector by `scalar`.
    pub fn div(self, scalar: i64) -> (r: Vec3)
        ensures
            r == v_div(self, scalar),
    {
        Vec3 {
            x: fx_div(self.x, scalar),
            y: fx_div(self.y, scalar),
            z: fx_div(self.z, scalar),
        }
    }

    /// The opposite vector.
    pub fn neg(self) -> (r: Vec3)
        ensures
            r == v_neg(self),
    {
        Vec3 { x: fx_neg(self.x), y: fx_neg(self.y), z: fx_neg(self.z) }
    }

    /// The dot product of `u` and `v`.
    pub fn dot(u: &Vec3, v: &Vec3) -> (r: i64)
        ensures
            r == v_dot(*u, *v),
    {
        let px: i128 = fx_mul(u.x, v.x) as i128;
        let py: i128 = fx_mul(u.y, v.y) as i128;
        let pz: i128 = fx_mul(u.z, v.z) as i128;
        saturate(px + py + pz)
    }

    /// The cross product of `u` and `v`.
    pub fn cross(u: &Vec3, v: &Vec3) -> (r: Vec3)
        ensures
            r == v_cross(*u, *v),
    {
        Vec3 {
            x: fx_sub(fx_mul(u.y, v.z), fx_mul(u.z, v.y)),
            y: fx_sub(fx_mul(u.z, v.x), fx_mul(u.x, v.z)),
            z: fx_sub(fx_mul(u.x, v.y), fx_mul(u.y, v.x)),
        }
    }

    /// The squared Euclidean norm.
    pub fn norm_squared(&self) -> (r: i64)
        ensures
            r == v_norm_squared(*self),
    {
        Vec3::dot(self, self)
    }

    /// The Euclidean norm.
    pub fn norm(&self) -> (r: i64)
        ensures
            r == v_norm(*self),
    {
        fx_sqrt(self.norm_squared())
    }

    /// The vector scaled to unit length; the zero vector where the norm is
    /// zero.
    pub fn normalized(&self) -> (r: Vec3)
        ensures
            r == v_normalized(*self),
    {
        let n: i64 = self.norm();
        if n == 0 {
            Vec3 { x: 0, y: 0, z: 0 }
        } else {
            self.div(n)
        }
    }

    /// The mirror image of the vector at a surface with the given normal.
    pub fn reflect(&self, normal: &Vec3) -> (r: Vec3)
        ensures
            r == v_reflect(*self, *normal),
    {
        let d: i64 = Vec3::dot(self, normal);
        self.sub(normal.scale(2_000_000_000).scale(d))
    }

    /// The direction of the vector after refraction at a surface with the
    /// given normal, for the ratio of the two refraction indices.
    pub fn refract(&self, normal: &Vec3, refractive_coefficient: i64) -> (r: Vec3)
        ensures
            r == v_refract(*self, *normal, refractive_coefficient),
    {
        let cos_theta: i64 = fx_min(Vec3::dot(&self.neg(), normal), ONE);
        let r_out_perp: Vec3 = self.add(normal.scale(cos_theta)).scale(refractive_coefficient);
        let k: i64 = fx_neg(fx_sqrt(fx_abs(fx_sub(ONE, r_out_perp.norm_squared()))));
        let r_out_para: Vec3 = normal.scale(k);
        r_out_perp.add(r_out_para)
    }

    /// Whether every component is smaller in magnitude than `1e-8`.
    pub fn near_zero(&self) -> (r: bool)
        ensures
            r == v_near_zero(*self),
    {
        fx_abs(self.x) < NEAR_ZERO && fx_abs(self.y) < NEAR_ZERO && fx_abs(self.z) < NEAR_ZERO
    }
}

/// Whether each component lies in `[0, ONE)`, as those of a random vector do.
pub open spec fn is_unit_draw(v: Vec3) -> bool {
    0 <= v.x < ONE && 0 <= v.y < ONE && 0 <= v.z < ONE
}

/// `v` where it points to the side of `normal`, and its opposite where it
/// does not.
pub open spec fn v_outwards(v: Vec3, normal: Vec3) -> Vec3 {
    if v_dot(v, normal) > 0 {
        v
    } else {
        v_neg(v)
    }
}

/// A dot product changes sign, and nothing else, when one vector is negated.
pub proof fn lemma_dot_neg(u: Vec3, v: Vec3)
    ensures
        v_dot(v_neg(u), v) == -v_dot(u, v),
        v_dot(u, v_neg(v)) == -v_dot(u, v),
{
    lemma_mul_neg(u.x, v.x);
    lemma_mul_neg(u.y, v.y);
    lemma_mul_neg(u.z, v.z);
}

/// The squared norm of a vector is never negative.
pub proof fn lemma_norm_squared_nonnegative(v: Vec3)
    ensures
        v_norm_squared(v) >= 0,
{
    lemma_mul_square(v.x);
    lemma_mul_square(v.y);
    lemma_mul_square(v.z);
}

impl Vec3 {
    /// A vector whose components are three random scalars of `[0, ONE)`.
    pub fn random_vec() -> (v: Vec3)
        ensures
            is_unit_draw(v),
    {
        let x: i64 = random_unit();
        let y: i64 = random_unit();
        let z: i64 = random_unit();
        Vec3 { x, y, z }
    }

    /// Turns `v` to the side of `normal`: the result never points against
    /// the normal.
    pub fn outwards(v: Vec3, normal: &Vec3) -> (r: Vec3)
        ensures
            r == v_outwards(v, *normal),
            v_dot(r, *normal) >= 0,
    {
        proof {
            lemma_dot_neg(v, *normal);
        }
        if Vec3::dot(&v, normal) > 0 {
            v
        } else {
            v.neg()
        }
    }

    /// A random vector on the side of `normal`.
    pub fn random_outwards(normal: &Vec3) -> (r: Vec3)
        ensures
            exists|v: Vec3| is_unit_draw(v) && r == #[trigger] v_outwards(v, *normal),
            v_dot(r, *normal) >= 0,
    {
        let v: Vec3 = Vec3::random_vec();
        Vec3::outwards(v, normal)
    }
}

/// A half-line: the points `origin + t * dir`.
#[derive(Clone, Copy, Debug, PartialEq, Eq, Structural)]
pub struct Ray {
    pub origin: Vec3,
    pub dir: Vec3,
}

/// The point of the ray at parameter `t`.
pub open spec fn ray_at(r: Ray, t: i64) -> Vec3 {
    v_add(r.origin, v_scale(r.dir, t))
}

impl Ray {
    /// The ray from `origin` in the given direction.
    pub fn new(origin: Vec3, direction: Vec3) -> (r: Ray)
        ensures
            r == (Ray { origin, dir: direction }),
    {
        Ray { origin, dir: direction }
    }

    /// The point of the ray at parameter `t`.
    pub fn at(&self, t: i64) -> (p: Vec3)
        ensures
            p == ray_at(*self, t),
    {
        self.origin.add(self.dir.scale(t))
    }

    pub fn origin(&self) -> (v: Vec3)
        ensures
            v == self.origin,
    {
        self.origin
    }

    pub fn dir(&self) -> (v: Vec3)
        ensures
            v == self.dir,
    {
        self.dir
    }
}

/// A colour: red, green and blue in `x`, `y` and `z`.
pub type Color = Vec3;

/// The 8-bit value of a channel: the channel clamped to `[0, 1]`, times
/// 255.999, rounded down.
pub open spec fn channel_of(c: i64) -> i16 {
    ((255_999 * clamped(unit(), c)) / 1_000_000_000_000) as i16
}

/// From linear light to the 8-bit value written out: no light gives 0,
/// full light gives 255, every value lies in `[0, 255]`, and light beyond
/// `[0, 1]` comes out as if it had been clamped to that range first.
pub proof fn lemma_output_range(x: i64)
    ensures
        channel_of(gamma_of(0)) == 0,
        channel_of(gamma_of(ONE)) == 255,
        0 <= channel_of(gamma_of(x)) <= 255,
        channel_of(gamma_of(x)) == channel_of(gamma_of(clamped(unit(), x))),
{
    lemma_sqrt_one();
    lemma_sqrt_range(x);
    if x > ONE {
        lemma_sqrt_monotone(ONE, x);
    }
}

/// Quantizes one channel.
pub fn quantize(c: i64) -> (q: i16)
    ensures
        q == channel_of(c),
        0 <= q <= 255,
{
    let k: i64 = unit().clamp(c);
    ((255_999 * k) / 1_000_000_000_000) as i16
}

impl Color {
    /// The red channel as an 8-bit value.
    pub fn r(&self) -> (q: i16)
        ensures
            q == channel_of(self.x),
            0 <= q <= 255,
    {
        quantize(self.x)
    }

    /// The green channel as an 8-bit value.
    pub fn g(&self) -> (q: i16)
        ensures
            q == channel_of(self.y),
            0 <= q <= 255,
    {
        quantize(self.y)
    }

    /// The blue channel as an 8-bit value.
    pub fn b(&self) -> (q: i16)
        ensures
            q == channel_of(self.z),
            0 <= q <= 255,
    {
        quantize(self.z)
    }
}

} // verus!
