//! Fixed-point scalars.
//!
//! Parameter values, opacities, weights and curve values are `i64` counts of
//! millionths: `UNIT` stands for 1.0. Times are `i64` counts of microseconds,
//! so the same scale applies. Every operation rounds once, towards negative
//! infinity, and saturates at the bounds of `i64`.

use vstd::prelude::*;

verus! {

/// The fixed-point representation of 1.0.
pub const UNIT: i64 = 1_000_000;

/// Clamps a mathematical integer into the range of `i64`.
pub open spec fn saturate(x: int) -> int {
    if x < i64::MIN {
        i64::MIN as int
    } else if x > i64::MAX {
        i64::MAX as int
    } else {
        x
    }
}

/// The fixed-point product of `a` and `b`.
pub open spec fn mul_spec(a: int, b: int) -> int {
    saturate((a * b) / (UNIT as int))
}

/// Linear interpolation from `a` to `b` by the fraction `k`, rounded once
/// (the multiply-add is fused).
pub open spec fn lerp_spec(a: int, b: int, k: int) -> int {
    saturate(a + ((b - a) * k) / (UNIT as int))
}

/// The fixed-point quotient `n / d`.
pub open spec fn ratio_spec(n: int, d: int) -> int {
    saturate((n * (UNIT as int)) / d)
}

/// `x` clamped into `[lo, hi]`.
pub open spec fn clamp_spec(x: int, lo: int, hi: int) -> int {
    if x < lo {
        lo
    } else if x > hi {
        hi
    } else {
        x
    }
}

proof fn lemma_mul_bounded(a: int, b: int, x: int, y: int)
    requires
        -x <= a <= x,
        -y <= b <= y,
    ensures
        -(x * y) <= a * b <= x * y,
{
    assert(-(x * y) <= a * b <= x * y) by (nonlinear_arith)
        requires
            -x <= a <= x,
            -y <= b <= y,
    ;
}

fn saturate_i128(x: i128) -> (r: i64)
    ensures
        r == saturate(x as int),
{
    if x < i64::MIN as i128 {
        i64::MIN
    } else if x > i64::MAX as i128 {
        i64::MAX
    } else {
        x as i64
    }
}

/// Floor division of a wide intermediate by a positive divisor.
fn floor_div(n: i128, d: i128) -> (r: i128)
    requires
        d > 0,
        -0x4000_0000_0000_0000_0000_0000_0000_0000 <= n <= 0x4000_0000_0000_0000_0000_0000_0000_0000,
    ensures
        r == n / d,
{
    assert(-0x4000_0000_0000_0000_0000_0000_0000_0000 <= n / d <= 0x4000_0000_0000_0000_0000_0000_0000_0000)
        by (nonlinear_arith)
        requires
            d > 0,
            -0x4000_0000_0000_0000_0000_0000_0000_0000 <= n <= 0x4000_0000_0000_0000_0000_0000_0000_0000,
    ;
    match n.checked_div_euclid(d) {
        Some(q) => q,
        None => 0,
    }
}

/// Saturating addition.
pub fn fx_add(a: i64, b: i64) -> (r: i64)
    ensures
        r == saturate(a + b),
{
    saturate_i128(a as i128 + b as i128)
}

/// Saturating subtraction.
pub fn fx_sub(a: i64, b: i64) -> (r: i64)
    ensures
        r == saturate(a - b),
{
    saturate_i128(a as i128 - b as i128)
}

/// The fixed-point product of `a` and `b`.
pub fn fx_mul(a: i64, b: i64) -> (r: i64)
    ensures
        r == mul_spec(a as int, b as int),
{
    proof {
        lemma_mul_bounded(a as int, b as int, 0x8000_0000_0000_0000, 0x8000_0000_0000_0000);
    }
    let p: i128 = (a as i128) * (b as i128);
    saturate_i128(floor_div(p, UNIT as i128))
}

/// Linear interpolation from `a` to `b` by the fraction `k`, with `k` in
/// `[0, UNIT]`.
pub fn fx_lerp(a: i64, b: i64, k: i64) -> (r: i64)
    requires
        0 <= k <= UNIT,
    ensures
        r == lerp_spec(a as int, b as int, k as int),
{
    let d: i128 = b as i128 - a as i128;
    proof {
        lemma_mul_bounded(d as int, k as int, 0x1_0000_0000_0000_0000, UNIT as int);
    }
    let p: i128 = d * (k as i128);
    let q = floor_div(p, UNIT as i128);
    saturate_i128(a as i128 + q)
}

/// The fixed-point quotient `n / d` for a positive `d`.
pub fn fx_ratio(n: i64, d: i64) -> (r: i64)
    requires
        d > 0,
    ensures
        r == ratio_spec(n as int, d as int),
{
    proof {
        lemma_mul_bounded(n as int, UNIT as int, 0x8000_0000_0000_0000, UNIT as int);
    }
    let p: i128 = (n as i128) * (UNIT as i128);
    saturate_i128(floor_div(p, d as i128))
}

/// `x` clamped into `[lo, hi]`.
pub fn fx_clamp(x: i64, lo: i64, hi: i64) -> (r: i64)
    requires
        lo <= hi,
    ensures
        r == clamp_spec(x as int, lo as int, hi as int),
{
    if x < lo {
        lo
    } else if x > hi {
        hi
    } else {
        x
    }
}

} // verus!
