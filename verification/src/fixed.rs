//! Fixed-point arithmetic shared by the geometry code.
//!
//! Lengths and coordinates are integers counting hundredths of a canvas unit.
//! Results that leave the `i32` range saturate at its ends.

use vstd::prelude::*;

verus! {

/// Number of coordinate steps in one canvas unit.
pub const UNIT: i32 = 100;

/// The nearest value to `v` that an `i32` can hold.
pub open spec fn clip(v: int) -> int {
    if v < i32::MIN {
        i32::MIN as int
    } else if v > i32::MAX {
        i32::MAX as int
    } else {
        v
    }
}

/// Absolute value.
pub open spec fn abs(v: int) -> int {
    if v < 0 {
        -v
    } else {
        v
    }
}

/// `n / d` rounded to the nearest integer, halves away from zero.
pub open spec fn div_round(n: int, d: int) -> int
    recommends
        d > 0,
{
    if n >= 0 {
        (2 * n + d) / (2 * d)
    } else {
        -((d - 2 * n) / (2 * d))
    }
}

/// `r` is the integer square root of `n`.
pub open spec fn is_sqrt(n: int, r: int) -> bool {
    0 <= r && r * r <= n < (r + 1) * (r + 1)
}

/// The integer square root of `n`: the largest number whose square is not above it.
pub open spec fn sqrt_floor(n: int) -> int {
    choose|r: int| is_sqrt(n, r)
}

/// A number has one integer square root at most.
pub proof fn lemma_sqrt_unique(n: int, r: int)
    requires
        is_sqrt(n, r),
    ensures
        r == sqrt_floor(n),
{
    let s = sqrt_floor(n);
    assert(is_sqrt(n, s));
    if r < s {
        assert((r + 1) * (r + 1) <= s * s) by (nonlinear_arith)
            requires
                0 <= r < s,
        ;
    } else if s < r {
        assert((s + 1) * (s + 1) <= r * r) by (nonlinear_arith)
            requires
                0 <= s < r,
        ;
    }
}

/// Largest magnitude accepted by the wide helpers below.
pub open spec fn wide_limit() -> int {
    0x100_0000_0000_0000_0000_0000_0000_0000
}

/// The nearest value that an `i32` can hold.
pub fn clip_wide(v: i128) -> (r: i32)
    ensures
        r == clip(v as int),
{
    if v < -0x8000_0000 {
        i32::MIN
    } else if v > 0x7fff_ffff {
        i32::MAX
    } else {
        v as i32
    }
}

/// Absolute value.
pub fn abs_wide(v: i128) -> (r: i128)
    requires
        v > i128::MIN,
    ensures
        r == abs(v as int),
{
    if v < 0 {
        -v
    } else {
        v
    }
}

/// Rounded division on wide integers.
pub fn div_round_wide(n: i128, d: i128) -> (r: i128)
    requires
        0 < d < wide_limit(),
        -wide_limit() < n < wide_limit(),
    ensures
        r == div_round(n as int, d as int),
        abs(r as int) <= abs(n as int),
{
    proof {
        lemma_div_round_bound(n as int, d as int);
    }
    if n >= 0 {
        (2 * n + d) / (2 * d)
    } else {
        let q: i128 = (d - 2 * n) / (2 * d);
        -q
    }
}

/// Sum of two lengths.
pub fn sum_len(a: i32, b: i32) -> (r: i32)
    ensures
        r == clip(a + b),
{
    clip_wide(a as i128 + b as i128)
}

/// The length `a` taken `num` times and divided by `den`.
pub open spec fn scaled(a: int, num: int, den: int) -> int {
    clip(div_round(a * num, den))
}

/// The length `a` taken `num` times and divided by `den`, rounded.
pub fn scale_len(a: i32, num: u16, den: u16) -> (r: i32)
    requires
        den > 0,
    ensures
        r == scaled(a as int, num as int, den as int),
{
    assert(-0x1_0000_0000_0000 <= a * num <= 0x1_0000_0000_0000) by (nonlinear_arith)
        requires
            -0x8000_0000 <= a <= 0x7fff_ffff,
            0 <= num <= 0xffff,
    ;
    clip_wide(div_round_wide(a as i128 * num as i128, den as i128))
}

/// Division that rounds towards minus infinity.
pub fn div_floor_wide(n: i128, d: i128) -> (r: i128)
    requires
        0 < d < wide_limit(),
        -wide_limit() < n < wide_limit(),
    ensures
        r == n as int / d as int,
        abs(r as int) <= abs(n as int),
{
    if n >= 0 {
        assert(0 <= n as int / d as int <= n) by (nonlinear_arith)
            requires
                n >= 0,
                d > 0,
        ;
        n / d
    } else {
        let m: i128 = -n;
        let q: i128 = (m + d - 1) / d;
        assert(-q == n as int / d as int) by (nonlinear_arith)
            requires
                d > 0,
                m == -n,
                q == (m + d - 1) / (d as int),
        ;
        assert(0 <= q <= m) by (nonlinear_arith)
            requires
                d > 0,
                m > 0,
                q == (m + d - 1) / (d as int),
        ;
        -q
    }
}

/// A rounded quotient is never larger in magnitude than its numerator.
pub proof fn lemma_div_round_bound(n: int, d: int)
    requires
        d > 0,
    ensures
        abs(div_round(n, d)) <= abs(n),
        n >= 0 ==> div_round(n, d) >= 0,
        n <= 0 ==> div_round(n, d) <= 0,
{
    let m = abs(n);
    let q = (2 * m + d) / (2 * d);
    assert(0 <= q <= m) by (nonlinear_arith)
        requires
            m >= 0,
            d > 0,
            q == (2 * m + d) / (2 * d),
    ;
    if n < 0 {
        assert(d - 2 * n == 2 * m + d);
    }
}

/// Integer square root by bisection.
pub fn isqrt(n: u128) -> (r: u64)
    requires
        n < 0x1_0000_0000_0000_0000_0000,
    ensures
        is_sqrt(n as int, r as int),
        r == sqrt_floor(n as int),
        r < 0x100_0000_0000,
{
    let mut lo: u128 = 0;
    let mut hi: u128 = 0x100_0000_0000;
    assert(0x100_0000_0000u128 * 0x100_0000_0000u128 == 0x1_0000_0000_0000_0000_0000u128) by (nonlinear_arith);
    while hi - lo > 1
        invariant
            lo < hi <= 0x100_0000_0000,
            lo * lo <= n < hi * hi,
        decreases hi - lo,
    {
        let mid: u128 = lo + (hi - lo) / 2;
        assert(mid * mid <= 0x100_0000_0000 * 0x100_0000_0000) by (nonlinear_arith)
            requires
                mid <= 0x100_0000_0000,
        ;
        if mid * mid <= n {
            lo = mid;
        } else {
            hi = mid;
        }
    }
    assert(hi == lo + 1);
    proof {
        lemma_sqrt_unique(n as int, lo as int);
    }
    lo as u64
}

} // verus!
