//! Integer arithmetic that the simulation is built on: saturation, rounding
//! division, linear interpolation and the integer square root.
use vstd::prelude::*;

verus! {

/// The end of a path: progress is counted in billionths of the path.
pub const PROGRESS_ONE: i64 = 1_000_000_000;

/// `v` raised to at least `lo`, and the result lowered to at most `hi`.
pub open spec fn clamp(v: int, lo: int, hi: int) -> int {
    let raised = if v < lo {
        lo
    } else {
        v
    };
    if raised > hi {
        hi
    } else {
        raised
    }
}

/// `v`, or the nearest value that a 64-bit signed integer can hold.
pub open spec fn saturate(v: int) -> int {
    clamp(v, i64::MIN as int, i64::MAX as int)
}

/// The quotient `n / d` rounded to the nearest integer, halves away from zero.
pub open spec fn round_div(n: int, d: int) -> int
    recommends
        d > 0,
{
    if n >= 0 {
        (2 * n + d) / (2 * d)
    } else {
        -((2 * (-n) + d) / (2 * d))
    }
}

/// The point `num / den` of the way from `a` to `b`, rounded towards `a`.
pub open spec fn lerp(a: int, b: int, num: int, den: int) -> int
    recommends
        0 <= num <= den,
        0 < den,
{
    if a <= b {
        a + ((b - a) * num) / den
    } else {
        a - ((a - b) * num) / den
    }
}

/// Whether `r` is the square root of `n`, rounded down.
pub open spec fn is_sqrt_floor(n: nat, r: nat) -> bool {
    r * r <= n < (r + 1) * (r + 1)
}

/// The square root of `n`, rounded down.
pub open spec fn sqrt_floor(n: nat) -> nat {
    choose|r: nat| is_sqrt_floor(n, r)
}

/// Only one number is the rounded-down square root of `n`.
pub proof fn lemma_sqrt_floor_unique(n: nat, a: nat, b: nat)
    requires
        is_sqrt_floor(n, a),
        is_sqrt_floor(n, b),
    ensures
        a == b,
{
    if a < b {
        assert((a + 1) * (a + 1) <= b * b) by (nonlinear_arith)
            requires
                a + 1 <= b,
        ;
    } else if b < a {
        assert((b + 1) * (b + 1) <= a * a) by (nonlinear_arith)
            requires
                b + 1 <= a,
        ;
    }
}

/// A number that squares to at most `n`, with a successor that squares to
/// more, is the value of `sqrt_floor(n)`.
pub proof fn lemma_sqrt_floor_is(n: nat, r: nat)
    requires
        is_sqrt_floor(n, r),
    ensures
        sqrt_floor(n) == r,
{
    lemma_sqrt_floor_unique(n, r, sqrt_floor(n));
}

/// A scaled part of a distance is no longer than the distance.
pub proof fn lemma_scaled_part(diff: int, num: int, den: int)
    requires
        0 <= diff,
        0 <= num <= den,
        0 < den,
    ensures
        0 <= (diff * num) / den <= diff,
        num == 0 ==> (diff * num) / den == 0,
        num == den ==> (diff * num) / den == diff,
{
    assert(0 <= diff * num <= diff * den) by (nonlinear_arith)
        requires
            0 <= diff,
            0 <= num <= den,
    ;
    assert((diff * num) / den <= diff) by (nonlinear_arith)
        requires
            0 <= diff * num <= diff * den,
            0 < den,
    ;
    assert(0 <= (diff * num) / den) by (nonlinear_arith)
        requires
            0 <= diff * num,
            0 < den,
    ;
    if num == 0 {
        assert(diff * num == 0) by (nonlinear_arith)
            requires
                num == 0,
        ;
    }
    if num == den {
        assert((diff * den) / den == diff) by (nonlinear_arith)
            requires
                0 < den,
        ;
    }
}

/// An interpolated value lies between its two ends, and is an end exactly
/// where the fraction is zero or one.
pub proof fn lemma_lerp_bounds(a: int, b: int, num: int, den: int)
    requires
        0 <= num <= den,
        0 < den,
    ensures
        a <= b ==> a <= lerp(a, b, num, den) <= b,
        b <= a ==> b <= lerp(a, b, num, den) <= a,
        num == 0 ==> lerp(a, b, num, den) == a,
        num == den ==> lerp(a, b, num, den) == b,
{
    if a <= b {
        lemma_scaled_part(b - a, num, den);
    } else {
        lemma_scaled_part(a - b, num, den);
    }
}

/// Brings a wide integer into the range of a 64-bit signed integer.
pub fn saturate_i128(v: i128) -> (r: i64)
    ensures
        r == saturate(v as int),
{
    if v < i64::MIN as i128 {
        i64::MIN
    } else if v > i64::MAX as i128 {
        i64::MAX
    } else {
        v as i64
    }
}

/// The sum of two integers, kept within the range of a 64-bit signed integer.
pub fn saturating_sum(a: i64, b: i64) -> (r: i64)
    ensures
        r == saturate(a + b),
{
    saturate_i128(a as i128 + b as i128)
}

/// Divides `n` by `d` and rounds to the nearest integer, halves away from
/// zero. It is built for sums of two 64-bit integers.
pub(crate) fn round_div_wide(n: i128, d: u32) -> (r: i128)
    requires
        d > 0,
        -0x2_0000_0000_0000_0000 <= n <= 0x2_0000_0000_0000_0000,
    ensures
        r == round_div(n as int, d as int),
        n >= 0 ==> 0 <= r <= n,
        n <= 0 ==> n <= r <= 0,
{
    let wide_d: u128 = d as u128;
    if n >= 0 {
        let q: u128 = (2 * (n as u128) + wide_d) / (2 * wide_d);
        assert(q <= n) by (nonlinear_arith)
            requires
                q == (2 * n + wide_d) / (2 * wide_d),
                wide_d >= 1,
                n >= 0,
        ;
        q as i128
    } else {
        let m: u128 = (-n) as u128;
        let q: u128 = (2 * m + wide_d) / (2 * wide_d);
        assert(q <= m) by (nonlinear_arith)
            requires
                q == (2 * m + wide_d) / (2 * wide_d),
                wide_d >= 1,
                m >= 1,
        ;
        -(q as i128)
    }
}

/// The part `num / den` of a distance, rounded down.
fn part_of(diff: u64, num: u64, den: u64) -> (part: u64)
    requires
        num <= den,
        0 < den,
    ensures
        part == (diff * num) / (den as int),
        part <= diff,
{
    proof {
        lemma_scaled_part(diff as int, num as int, den as int);
        assert(diff * num <= 0xffff_ffff_ffff_ffff * 0xffff_ffff_ffff_ffff) by (nonlinear_arith)
            requires
                0 <= diff <= 0xffff_ffff_ffff_ffff,
                0 <= num <= 0xffff_ffff_ffff_ffff,
        ;
    }
    ((diff as u128 * num as u128) / (den as u128)) as u64
}

/// Interpolates between `a` and `b` at the fraction `num / den`.
pub fn lerp_i64(a: i64, b: i64, num: u64, den: u64) -> (r: i64)
    requires
        num <= den,
        0 < den,
    ensures
        r == lerp(a as int, b as int, num as int, den as int),
{
    if a <= b {
        let part: u64 = part_of((b as i128 - a as i128) as u64, num, den);
        (a as i128 + part as i128) as i64
    } else {
        let part: u64 = part_of((a as i128 - b as i128) as u64, num, den);
        (a as i128 - part as i128) as i64
    }
}

/// The square root of `n`, rounded down.
pub fn isqrt(n: u64) -> (r: u32)
    ensures
        r == sqrt_floor(n as nat),
        is_sqrt_floor(n as nat, r as nat),
{
    let mut lo: u64 = 0;
    let mut hi: u64 = 0x1_0000_0000;
    while hi - lo > 1
        invariant
            lo < hi <= 0x1_0000_0000,
            lo * lo <= n,
            n < hi * hi,
        decreases hi - lo,
    {
        let mid: u64 = lo + (hi - lo) / 2;
        assert(mid * mid <= 0xffff_ffff * 0xffff_ffff) by (nonlinear_arith)
            requires
                0 <= mid <= 0xffff_ffff,
        ;
        if mid * mid <= n {
            lo = mid;
        } else {
            hi = mid;
        }
    }
    proof {
        lemma_sqrt_floor_is(n as nat, lo as nat);
    }
    lo as u32
}

} // verus!
