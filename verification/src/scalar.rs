//! Fixed-point scalars: an `i64` counts billionths, so `ONE` stands for 1.0.
//!
//! Every operation saturates on the symmetric range `[-LIMIT, LIMIT]`, and
//! multiplication and division read their operands through `sat`, so the one
//! value outside that range, `i64::MIN`, behaves as `-LIMIT`. Products and
//! quotients round toward zero, which makes them odd functions of each operand.

use vstd::prelude::*;

verus! {

/// The raw value of 1.0.
pub const ONE: i64 = 1_000_000_000;

/// The largest magnitude a scalar takes; results beyond it are clamped to it.
pub const LIMIT: i64 = 0x7fff_ffff_ffff_ffff;

/// `x` clamped to the symmetric range `[-LIMIT, LIMIT]`.
pub open spec fn sat(x: int) -> i64 {
    if x > LIMIT {
        LIMIT
    } else if x < -LIMIT {
        (-LIMIT) as i64
    } else {
        x as i64
    }
}

/// The quotient of `a` by `b` rounded toward zero, for `b != 0`.
pub open spec fn tdiv(a: int, b: int) -> int {
    if a >= 0 {
        if b > 0 { a / b } else { -(a / (-b)) }
    } else {
        if b > 0 { -((-a) / b) } else { (-a) / (-b) }
    }
}

/// The sum of two scalars.
pub open spec fn s_add(a: i64, b: i64) -> i64 {
    sat(a + b)
}

/// The difference of two scalars.
pub open spec fn s_sub(a: i64, b: i64) -> i64 {
    sat(a - b)
}

/// The negation of a scalar.
pub open spec fn s_neg(a: i64) -> i64 {
    sat(-a)
}

/// The magnitude of a scalar.
pub open spec fn s_abs(a: i64) -> i64 {
    if a < 0 { sat(-a) } else { a }
}

/// The smaller of two scalars.
pub open spec fn s_min(a: i64, b: i64) -> i64 {
    if a < b { a } else { b }
}

/// The product of two scalars: the exact product of the raw values, scaled
/// back by `ONE` with rounding toward zero.
pub open spec fn s_mul(a: i64, b: i64) -> i64 {
    sat(tdiv(sat(a as int) * sat(b as int), ONE as int))
}

/// The quotient of two scalars, rounded toward zero. Division by zero gives
/// the limit with the sign of the dividend, and zero for `0 / 0`.
pub open spec fn s_div(a: i64, b: i64) -> i64 {
    if b == 0 {
        if a > 0 {
            LIMIT
        } else if a < 0 {
            (-LIMIT) as i64
        } else {
            0
        }
    } else {
        sat(tdiv(sat(a as int) * ONE, sat(b as int) as int))
    }
}

/// `r` is the integer square root of `n`: the largest `r >= 0` with `r * r <= n`.
pub open spec fn is_isqrt(n: int, r: int) -> bool {
    r >= 0 && r * r <= n < (r + 1) * (r + 1)
}

/// The integer square root of `n >= 0`.
pub open spec fn isqrt(n: int) -> int {
    choose|r: int| is_isqrt(n, r)
}

/// The square root of a scalar, rounded down; zero for a negative scalar.
pub open spec fn s_sqrt(a: i64) -> i64 {
    if a <= 0 {
        0
    } else {
        isqrt(a * ONE) as i64
    }
}

/// The scalar that stands for the whole number `n`.
pub open spec fn s_whole(n: i32) -> i64 {
    (n * ONE) as i64
}

/// Two integer square roots of one number are equal.
pub proof fn lemma_isqrt_unique(n: int, r1: int, r2: int)
    requires
        is_isqrt(n, r1),
        is_isqrt(n, r2),
    ensures
        r1 == r2,
{
    if r1 < r2 {
        assert((r1 + 1) * (r1 + 1) <= r2 * r2) by (nonlinear_arith)
            requires 0 <= r1, r1 + 1 <= r2;
    } else if r2 < r1 {
        assert((r2 + 1) * (r2 + 1) <= r1 * r1) by (nonlinear_arith)
            requires 0 <= r2, r2 + 1 <= r1;
    }
}

/// Every number from zero up has an integer square root.
pub proof fn lemma_isqrt_exists(n: int)
    requires
        n >= 0,
    ensures
        is_isqrt(n, isqrt(n)),
    decreases n,
{
    if n == 0 {
        assert(is_isqrt(0, 0));
    } else {
        lemma_isqrt_exists(n - 1);
        let r = isqrt(n - 1);
        if (r + 1) * (r + 1) <= n {
            assert((r + 2) * (r + 2) > n) by (nonlinear_arith)
                requires r >= 0, n - 1 < (r + 1) * (r + 1);
            assert(is_isqrt(n, r + 1));
        } else {
            assert(is_isqrt(n, r));
        }
    }
}

/// The integer square root is monotone.
pub proof fn lemma_isqrt_monotone(n: int, m: int)
    requires
        0 <= n <= m,
    ensures
        isqrt(n) <= isqrt(m),
{
    lemma_isqrt_exists(n);
    lemma_isqrt_exists(m);
    let rn = isqrt(n);
    let rm = isqrt(m);
    if rm < rn {
        assert((rm + 1) * (rm + 1) <= rn * rn) by (nonlinear_arith)
            requires 0 <= rm, rm + 1 <= rn;
    }
}

/// Rounding toward zero commutes with negating the dividend.
pub proof fn lemma_tdiv_neg(a: int, b: int)
    requires
        b > 0,
    ensures
        tdiv(-a, b) == -tdiv(a, b),
{
    if a == 0 {
        assert(0int / b == 0) by (nonlinear_arith)
            requires b > 0;
    }
}

/// Rounding toward zero keeps the sign of the dividend and is monotone in it.
pub proof fn lemma_tdiv_monotone(a: int, b: int, d: int)
    requires
        d > 0,
        a <= b,
    ensures
        tdiv(a, d) <= tdiv(b, d),
        a >= 0 ==> tdiv(a, d) >= 0,
        a <= 0 ==> tdiv(a, d) <= 0,
{
    assert(a >= 0 ==> a / d >= 0) by (nonlinear_arith)
        requires d > 0;
    assert(b >= 0 ==> b / d >= 0) by (nonlinear_arith)
        requires d > 0;
    assert(a < 0 ==> (-a) / d >= 0) by (nonlinear_arith)
        requires d > 0;
    assert(b < 0 ==> (-b) / d >= 0) by (nonlinear_arith)
        requires d > 0;
    assert(0 <= a <= b ==> a / d <= b / d) by (nonlinear_arith)
        requires d > 0;
    assert(a <= b < 0 ==> (-b) / d <= (-a) / d) by (nonlinear_arith)
        requires d > 0;
}

/// A product changes sign, and nothing else, when one factor is negated.
pub proof fn lemma_mul_neg(a: i64, b: i64)
    ensures
        s_mul(s_neg(a), b) == -s_mul(a, b),
        s_mul(a, s_neg(b)) == -s_mul(a, b),
{
    let x = sat(a as int) as int;
    let y = sat(b as int) as int;
    assert(sat(s_neg(a) as int) == -x);
    assert(sat(s_neg(b) as int) == -y);
    assert((-x) * y == -(x * y)) by (nonlinear_arith);
    assert(x * (-y) == -(x * y)) by (nonlinear_arith);
    lemma_tdiv_neg(x * y, ONE as int);
}

/// The product of a scalar with itself is never negative.
pub proof fn lemma_mul_square(a: i64)
    ensures
        s_mul(a, a) >= 0,
{
    let x = sat(a as int) as int;
    assert(x * x >= 0) by (nonlinear_arith);
    lemma_tdiv_monotone(0, x * x, ONE as int);
}

/// The product of two scalars of `[0, ONE]` lies in `[0, ONE]`, and scaling
/// a scalar that is not negative by one of `[0, ONE]` does not enlarge it.
pub proof fn lemma_mul_unit(a: i64, b: i64)
    requires
        0 <= a,
        0 <= b <= ONE,
    ensures
        0 <= s_mul(a, b) <= a,
{
    let x = a as int;
    let y = b as int;
    assert(0 <= x * y <= x * ONE) by (nonlinear_arith)
        requires 0 <= x, 0 <= y <= ONE;
    lemma_tdiv_monotone(0, x * y, ONE as int);
    lemma_tdiv_monotone(x * y, x * ONE, ONE as int);
    assert((x * ONE) / (ONE as int) == x) by (nonlinear_arith);
}

/// The product of two scalars that are not negative is not negative.
pub proof fn lemma_mul_nonnegative(a: i64, b: i64)
    requires
        a >= 0,
        b >= 0,
    ensures
        s_mul(a, b) >= 0,
{
    let x = a as int;
    let y = b as int;
    assert(x * y >= 0) by (nonlinear_arith)
        requires x >= 0, y >= 0;
    lemma_tdiv_monotone(0, x * y, ONE as int);
}

/// A quotient by a positive scalar keeps the sign of the dividend and is
/// monotone in it.
pub proof fn lemma_div_monotone(a: i64, b: i64, d: i64)
    requires
        d > 0,
        a <= b,
    ensures
        s_div(a, d) <= s_div(b, d),
        a >= 0 ==> s_div(a, d) >= 0,
        a <= 0 ==> s_div(a, d) <= 0,
{
    let x = sat(a as int) as int;
    let y = sat(b as int) as int;
    lemma_tdiv_monotone(x * ONE, y * ONE, d as int);
}

/// The square root of a positive scalar is the integer square root of its
/// raw value times `ONE`, and fits well within the scalar range.
pub proof fn lemma_sqrt_range(a: i64)
    ensures
        0 <= s_sqrt(a) < 0x8000_0000_0000,
        a > 0 ==> s_sqrt(a) == isqrt(a * ONE),
        a > 0 ==> is_isqrt(a * ONE, s_sqrt(a) as int),
{
    if a > 0 {
        let n = a * ONE;
        lemma_isqrt_exists(n);
        let r = isqrt(n);
        if r >= 0x8000_0000_0000 {
            assert(r * r >= 0x4000_0000_0000_0000_0000_0000) by (nonlinear_arith)
                requires r >= 0x8000_0000_0000;
        }
    }
}

/// The square root is monotone.
pub proof fn lemma_sqrt_monotone(a: i64, b: i64)
    requires
        a <= b,
    ensures
        s_sqrt(a) <= s_sqrt(b),
{
    lemma_sqrt_range(a);
    lemma_sqrt_range(b);
    if a > 0 {
        lemma_isqrt_monotone(a * ONE, b * ONE);
    }
}

/// The square root of a scalar that does not exceed `h * h` does not exceed
/// the magnitude of `h`.
pub proof fn lemma_sqrt_below_square(x: i64, h: i64)
    requires
        x <= s_mul(h, h),
    ensures
        s_sqrt(x) <= s_abs(h),
{
    lemma_sqrt_range(x);
    if x > 0 {
        let m = sat(h as int) as int;
        let w = if m < 0 { -m } else { m };
        assert(w * w == m * m) by (nonlinear_arith)
            requires w == m || w == -m;
        let q = tdiv(m * m, ONE as int);
        assert(m * m >= 0) by (nonlinear_arith);
        assert(q * ONE <= m * m);
        assert(x <= q);
        assert(is_isqrt(w * w, w)) by (nonlinear_arith)
            requires w >= 0;
        lemma_isqrt_exists(w * w);
        lemma_isqrt_unique(w * w, w, isqrt(w * w));
        lemma_isqrt_monotone(x * ONE, w * w);
    }
}

/// Scaling by a scalar of `[0, ONE]` never enlarges a magnitude.
pub proof fn lemma_mul_shrinks(c: i64, a: i64)
    requires
        0 <= a <= ONE,
    ensures
        s_abs(s_mul(c, a)) <= s_abs(c),
{
    if c >= 0 {
        lemma_mul_unit(c, a);
    } else {
        lemma_mul_neg(c, a);
        lemma_mul_unit(s_neg(c), a);
    }
}

/// The product of two scalars that are not negative is the product of
/// their raw values divided by `ONE`, clamped.
pub proof fn lemma_mul_value(a: i64, b: i64)
    requires
        a >= 0,
        b >= 0,
    ensures
        s_mul(a, b) == sat((a * b) / (ONE as int)),
        s_mul(b, a) == sat((a * b) / (ONE as int)),
{
    let x = a as int;
    let y = b as int;
    assert(x * y >= 0 && x * y == y * x) by (nonlinear_arith)
        requires x >= 0, y >= 0;
}

/// The square root of one is one.
pub proof fn lemma_sqrt_one()
    ensures
        s_sqrt(ONE) == ONE,
{
    lemma_sqrt_range(ONE);
    assert(is_isqrt(ONE * ONE, ONE as int)) by (nonlinear_arith);
    lemma_isqrt_unique(ONE * ONE, ONE as int, s_sqrt(ONE) as int);
}

/// Clamps a wide intermediate result to the scalar range.
pub fn saturate(x: i128) -> (r: i64)
    ensures
        r == sat(x as int),
{
    if x > LIMIT as i128 {
        LIMIT
    } else if x < -(LIMIT as i128) {
        -LIMIT
    } else {
        x as i64
    }
}

/// Adds two scalars, clamping at the limit.
pub fn fx_add(a: i64, b: i64) -> (r: i64)
    ensures
        r == s_add(a, b),
{
    saturate(a as i128 + b as i128)
}

/// Subtracts `b` from `a`, clamping at the limit.
pub fn fx_sub(a: i64, b: i64) -> (r: i64)
    ensures
        r == s_sub(a, b),
{
    saturate(a as i128 - b as i128)
}

/// Negates a scalar.
pub fn fx_neg(a: i64) -> (r: i64)
    ensures
        r == s_neg(a),
{
    saturate(-(a as i128))
}

/// The magnitude of a scalar.
pub fn fx_abs(a: i64) -> (r: i64)
    ensures
        r == s_abs(a),
        r >= 0,
{
    if a < 0 {
        saturate(-(a as i128))
    } else {
        a
    }
}

/// The smaller of two scalars.
pub fn fx_min(a: i64, b: i64) -> (r: i64)
    ensures
        r == s_min(a, b),
{
    if a < b {
        a
    } else {
        b
    }
}

/// Multiplies two scalars.
pub fn fx_mul(a: i64, b: i64) -> (r: i64)
    ensures
        r == s_mul(a, b),
{
    let wa: i128 = saturate(a as i128) as i128;
    let wb: i128 = saturate(b as i128) as i128;
    assert(-0x4000_0000_0000_0000_0000_0000_0000_0000 <= wa * wb
        <= 0x4000_0000_0000_0000_0000_0000_0000_0000) by (nonlinear_arith)
        requires
            -0x8000_0000_0000_0000 <= wa <= 0x8000_0000_0000_0000,
            -0x8000_0000_0000_0000 <= wb <= 0x8000_0000_0000_0000,
    ;
    let p: i128 = wa * wb;
    saturate(p / 1_000_000_000)
}

/// Divides `a` by `b`.
pub fn fx_div(a: i64, b: i64) -> (r: i64)
    ensures
        r == s_div(a, b),
{
    if b == 0 {
        if a > 0 {
            LIMIT
        } else if a < 0 {
            -LIMIT
        } else {
            0
        }
    } else {
        let wa: i128 = saturate(a as i128) as i128;
        let wb: i128 = saturate(b as i128) as i128;
        let n: i128 = wa * 1_000_000_000;
        let q: i128 = if wa >= 0 {
            if wb > 0 { n / wb } else { -(n / (-wb)) }
        } else {
            if wb > 0 { -((-n) / wb) } else { (-n) / (-wb) }
        };
        saturate(q)
    }
}

/// The integer square root of `n`, found by bisection.
pub fn int_sqrt(n: u128) -> (r: u128)
    ensures
        is_isqrt(n as int, r as int),
        r == isqrt(n as int),
{
    let mut lo: u128 = 0;
    let mut hi: u128 = 0x1_0000_0000_0000_0000;
    assert(hi * hi == 0x1_0000_0000_0000_0000_0000_0000_0000_0000) by (nonlinear_arith)
        requires hi == 0x1_0000_0000_0000_0000;
    while hi - lo > 1
        invariant
            lo < hi <= 0x1_0000_0000_0000_0000,
            lo * lo <= n < hi * hi,
        decreases hi - lo,
    {
        let mid: u128 = lo + (hi - lo) / 2;
        assert(mid * mid <= 0xffff_ffff_ffff_ffff * 0xffff_ffff_ffff_ffff) by (nonlinear_arith)
            requires mid <= 0xffff_ffff_ffff_ffff;
        if mid * mid <= n {
            lo = mid;
        } else {
            hi = mid;
        }
    }
    proof {
        assert(hi == lo + 1);
        assert(is_isqrt(n as int, lo as int));
        lemma_isqrt_exists(n as int);
        lemma_isqrt_unique(n as int, lo as int, isqrt(n as int));
    }
    lo
}

/// The square root of a scalar, rounded down; zero for a negative scalar.
pub fn fx_sqrt(a: i64) -> (r: i64)
    ensures
        r == s_sqrt(a),
        r >= 0,
{
    if a <= 0 {
        0
    } else {
        let n: u128 = (a as u128) * 1_000_000_000;
        let root: u128 = int_sqrt(n);
        proof {
            lemma_sqrt_range(a);
        }
        root as i64
    }
}

/// The scalar that stands for the whole number `n`.
pub fn fx_whole(n: i32) -> (r: i64)
    ensures
        r == s_whole(n),
{
    (n as i64) * 1_000_000_000
}

} // verus!
