//! Intervals of scalars, named colours and the gamma curve.

use vstd::prelude::*;
use crate::scalar::{fx_div, fx_mul, fx_sqrt, s_div, s_mul, s_sqrt, ONE};
use crate::vec3::Vec3;

verus! {

/// A range of scalars from `min` to `max`.
#[derive(Clone, Copy, Debug, PartialEq, Eq, Structural)]
pub struct Interval {
    pub min: i64,
    pub max: i64,
}

/// Whether `x` lies strictly between the ends of `iv`.
pub open spec fn surrounded(iv: Interval, x: i64) -> bool {
    iv.min < x && x < iv.max
}

/// Whether `x` lies between the ends of `iv`, the ends included.
pub open spec fn contained(iv: Interval, x: i64) -> bool {
    iv.min <= x && x <= iv.max
}

/// `x` moved to the nearer end of `iv` where it lies outside.
pub open spec fn clamped(iv: Interval, x: i64) -> i64 {
    if x < iv.min {
        iv.min
    } else if iv.max < x {
        iv.max
    } else {
        x
    }
}

impl Interval {
    /// The interval from `a` to `b`.
    pub fn new(a: i64, b: i64) -> (iv: Interval)
        ensures
            iv == (Interval { min: a, max: b }),
    {
        Interval { min: a, max: b }
    }

    pub fn max(&self) -> (r: i64)
        ensures
            r == self.max,
    {
        self.max
    }

    pub fn min(&self) -> (r: i64)
        ensures
            r == self.min,
    {
        self.min
    }

    /// The open test: `min < x < max`.
    pub fn surrounds(&self, x: i64) -> (r: bool)
        ensures
            r == surrounded(*self, x),
    {
        self.min < x && x < self.max
    }

    /// The closed test: `min <= x <= max`.
    pub fn contains(&self, x: i64) -> (r: bool)
        ensures
            r == contained(*self, x),
    {
        self.min <= x && x <= self.max
    }

    /// Moves `x` to the nearer end where it lies outside the interval.
    pub fn clamp(&self, x: i64) -> (r: i64)
        ensures
            r == clamped(*self, x),
    {
        if x < self.min {
            return self.min;
        }
        if self.max < x {
            return self.max;
        }
        x
    }
}

/// The range of a colour channel, `[0, 1]`.
pub open spec fn unit_spec() -> Interval {
    Interval { min: 0, max: ONE }
}

/// The range of a colour channel, `[0, 1]`.
#[verifier::when_used_as_spec(unit_spec)]
pub fn unit() -> (r: Interval)
    ensures
        r == unit_spec(),
{
    Interval { min: 0, max: ONE }
}

/// The zero vector.
pub open spec fn zero_spec() -> Vec3 {
    Vec3 { x: 0, y: 0, z: 0 }
}

/// The zero vector.
#[verifier::when_used_as_spec(zero_spec)]
pub fn zero() -> (r: Vec3)
    ensures
        r == zero_spec(),
{
    Vec3 { x: 0, y: 0, z: 0 }
}

/// White: full intensity in every channel.
pub open spec fn white_spec() -> Vec3 {
    Vec3 { x: ONE, y: ONE, z: ONE }
}

/// White: full intensity in every channel.
#[verifier::when_used_as_spec(white_spec)]
pub fn white() -> (r: Vec3)
    ensures
        r == white_spec(),
{
    Vec3 { x: ONE, y: ONE, z: ONE }
}

/// A light gray: 0.8 in every channel.
pub open spec fn gray_spec() -> Vec3 {
    Vec3 { x: 800_000_000, y: 800_000_000, z: 800_000_000 }
}

/// A light gray: 0.8 in every channel.
#[verifier::when_used_as_spec(gray_spec)]
pub fn gray() -> (r: Vec3)
    ensures
        r == gray_spec(),
{
    Vec3 { x: 800_000_000, y: 800_000_000, z: 800_000_000 }
}

/// Black: no light.
pub open spec fn black_spec() -> Vec3 {
    Vec3 { x: 0, y: 0, z: 0 }
}

/// Black: no light.
#[verifier::when_used_as_spec(black_spec)]
pub fn black() -> (r: Vec3)
    ensures
        r == black_spec(),
{
    Vec3 { x: 0, y: 0, z: 0 }
}

/// Pure red.
pub open spec fn red_spec() -> Vec3 {
    Vec3 { x: ONE, y: 0, z: 0 }
}

/// Pure red.
#[verifier::when_used_as_spec(red_spec)]
pub fn red() -> (r: Vec3)
    ensures
        r == red_spec(),
{
    Vec3 { x: ONE, y: 0, z: 0 }
}

/// Pure green.
pub open spec fn green_spec() -> Vec3 {
    Vec3 { x: 0, y: ONE, z: 0 }
}

/// Pure green.
#[verifier::when_used_as_spec(green_spec)]
pub fn green() -> (r: Vec3)
    ensures
        r == green_spec(),
{
    Vec3 { x: 0, y: ONE, z: 0 }
}

/// Pure blue.
pub open spec fn blue_spec() -> Vec3 {
    Vec3 { x: 0, y: 0, z: ONE }
}

/// Pure blue.
#[verifier::when_used_as_spec(blue_spec)]
pub fn blue() -> (r: Vec3)
    ensures
        r == blue_spec(),
{
    Vec3 { x: 0, y: 0, z: ONE }
}

/// The colour of the sky at the zenith: `(0.5, 0.7, 1.0)`.
pub open spec fn sky_blue_spec() -> Vec3 {
    Vec3 { x: 500_000_000, y: 700_000_000, z: ONE }
}

/// The colour of the sky at the zenith: `(0.5, 0.7, 1.0)`.
#[verifier::when_used_as_spec(sky_blue_spec)]
pub fn sky_blue() -> (r: Vec3)
    ensures
        r == sky_blue_spec(),
{
    Vec3 { x: 500_000_000, y: 700_000_000, z: ONE }
}

/// The raw value of pi.
pub const PI: i64 = 3_141_592_654;

/// The gamma-encoded value of a linear channel: its square root, and zero
/// for a channel that is not positive.
pub open spec fn gamma_of(x: i64) -> i64 {
    s_sqrt(x)
}

/// Gamma-encodes a linear channel.
pub fn linear_to_gamma(x: i64) -> (r: i64)
    ensures
        r == gamma_of(x),
{
    if x > 0 {
        fx_sqrt(x)
    } else {
        0
    }
}

/// The angle in radians of an angle in degrees: `degrees * pi / 180`.
pub open spec fn radians_of(degrees: i64) -> i64 {
    s_div(s_mul(degrees, PI), (180 * ONE) as i64)
}

/// Converts an angle from degrees to radians.
pub fn degrees_to_radians(degrees: i64) -> (r: i64)
    ensures
        r == radians_of(degrees),
{
    fx_div(fx_mul(degrees, PI), 180_000_000_000)
}

} // verus!
