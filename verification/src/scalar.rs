//! Fixed-point arithmetic.
//!
//! Every number of the scene graph is a binary fixed-point value with sixteen
//! fractional bits. Values stored in a document are 32 bits wide (an `i32`
//! holding a 16.16 number); values computed from them are 64 bits wide (an
//! `i64` holding a 48.16 number). All contracts speak of the raw integers.

use vstd::prelude::*;
use vstd::arithmetic::div_mod::lemma_fundamental_div_mod;
use vstd::arithmetic::div_mod::lemma_fundamental_div_mod_converse;
use vstd::arithmetic::mul::lemma_mul_inequality;

verus! {

/// The raw value of the number one.
pub const ONE: i64 = 65536;

/// `v` limited to the closed interval from `lo` to `hi`.
pub open spec fn clamp(v: int, lo: int, hi: int) -> int {
    if v < lo {
        lo
    } else if v > hi {
        hi
    } else {
        v
    }
}

/// `v` limited to what an `i32` holds.
pub open spec fn narrow_spec(v: int) -> int {
    clamp(v, i32::MIN as int, i32::MAX as int)
}

/// `v` limited to what an `i64` holds.
pub open spec fn saturate_spec(v: int) -> int {
    clamp(v, i64::MIN as int, i64::MAX as int)
}

/// The fixed-point product of `a` and `b`, rounded down and saturated.
pub open spec fn product_spec(a: int, b: int) -> int {
    saturate_spec(a * b / (ONE as int))
}

/// The fixed-point quotient of `a` by a non-zero `b`, rounded down and
/// saturated.
pub open spec fn quotient_spec(a: int, b: int) -> int {
    if b > 0 {
        saturate_spec(a * ONE / b)
    } else {
        saturate_spec((-a) * ONE / (-b))
    }
}

/// The point at weight `w` on the line from `a` (weight zero) to `b` (weight
/// one), rounded down.
pub open spec fn lerp_spec(a: int, b: int, w: int) -> int {
    a + (b - a) * w / (ONE as int)
}

/// The number of whole units nearest to a 16.16 value, halves rounded up and
/// negative results replaced by zero.
pub open spec fn round_count_spec(v: int) -> int {
    if v < 0 {
        0
    } else {
        (v + ONE / 2) / (ONE as int)
    }
}

/// Whether `r` is the integer square root of `n`.
pub open spec fn is_sqrt(n: int, r: int) -> bool {
    0 <= r && r * r <= n < (r + 1) * (r + 1)
}

/// The integer square root of a non-negative `n`: the one `r` with
/// `is_sqrt(n, r)`.
pub open spec fn sqrt_spec(n: int) -> int {
    choose|r: int| is_sqrt(n, r)
}

/// No number has two integer square roots.
pub proof fn lemma_sqrt_unique(n: int, r: int, s: int)
    requires
        is_sqrt(n, r),
        is_sqrt(n, s),
    ensures
        r == s,
{
    if r < s {
        lemma_mul_inequality(r + 1, s, r + 1);
        lemma_mul_inequality(r + 1, s, s);
        assert((r + 1) * s == s * (r + 1)) by (nonlinear_arith);
    } else if s < r {
        lemma_mul_inequality(s + 1, r, s + 1);
        lemma_mul_inequality(s + 1, r, r);
        assert((s + 1) * r == r * (s + 1)) by (nonlinear_arith);
    }
}

/// Saturates a 64-bit value to 32 bits.
pub fn narrow(v: i64) -> (r: i32)
    ensures
        r == narrow_spec(v as int),
{
    if v < -2147483648i64 {
        -2147483648i32
    } else if v > 2147483647i64 {
        2147483647i32
    } else {
        v as i32
    }
}

/// Saturates a 128-bit value to 64 bits.
pub fn saturate(v: i128) -> (r: i64)
    ensures
        r == saturate_spec(v as int),
{
    if v < -9223372036854775808i128 {
        -9223372036854775808i64
    } else if v > 9223372036854775807i128 {
        9223372036854775807i64
    } else {
        v as i64
    }
}

/// Division that rounds towards negative infinity.
pub(crate) fn floor_div(n: i128, d: i128) -> (q: i128)
    requires
        d > 0,
        n > i128::MIN,
    ensures
        q == n / d,
{
    if n >= 0 {
        n / d
    } else {
        let m: i128 = -n;
        let q0: i128 = m / d;
        let r0: i128 = m % d;
        proof {
            lemma_fundamental_div_mod(m as int, d as int);
        }
        if r0 == 0 {
            proof {
                assert(n == d * (-q0) + 0) by (nonlinear_arith)
                    requires
                        m == d * q0 + r0,
                        r0 == 0,
                        n == -m,
                ;
                lemma_fundamental_div_mod_converse(n as int, d as int, -(q0 as int), 0);
            }
            -q0
        } else {
            proof {
                assert(n == d * (-q0 - 1) + (d - r0)) by (nonlinear_arith)
                    requires
                        m == d * q0 + r0,
                        n == -m,
                ;
                lemma_fundamental_div_mod_converse(
                    n as int,
                    d as int,
                    -(q0 as int) - 1,
                    (d - r0) as int,
                );
            }
            -q0 - 1
        }
    }
}

/// Multiplies two fixed-point values.
pub fn product(a: i64, b: i64) -> (r: i64)
    ensures
        r == product_spec(a as int, b as int),
{
    assert(-0x4000_0000_0000_0000_0000_0000_0000_0000 <= a * b
        <= 0x4000_0000_0000_0000_0000_0000_0000_0000) by (nonlinear_arith)
        requires
            -0x8000_0000_0000_0000 <= a <= 0x7fff_ffff_ffff_ffff,
            -0x8000_0000_0000_0000 <= b <= 0x7fff_ffff_ffff_ffff,
    ;
    let wide: i128 = (a as i128) * (b as i128);
    saturate(floor_div(wide, ONE as i128))
}

/// Divides one fixed-point value by another; `None` when the divisor is zero.
pub fn quotient(a: i64, b: i64) -> (r: Option<i64>)
    ensures
        r is None <==> b == 0,
        r matches Some(q) ==> q == quotient_spec(a as int, b as int),
{
    if b == 0 {
        None
    } else if b > 0 {
        let wide: i128 = (a as i128) * 65536;
        Some(saturate(floor_div(wide, b as i128)))
    } else {
        let wide: i128 = (-(a as i128)) * 65536;
        Some(saturate(floor_div(wide, -(b as i128))))
    }
}

/// An interpolated value lies between the two ends.
pub proof fn lemma_lerp_between(a: int, b: int, w: int)
    requires
        0 <= w <= ONE,
    ensures
        a <= b ==> a <= lerp_spec(a, b, w) <= b,
        b <= a ==> b <= lerp_spec(a, b, w) <= a,
        lerp_spec(a, b, 0) == a,
        lerp_spec(a, b, ONE as int) == b,
{
    let d = b - a;
    let one = ONE as int;
    lemma_fundamental_div_mod(d * w, one);
    lemma_fundamental_div_mod(d * 0, one);
    lemma_fundamental_div_mod_converse(d * one, one, d, 0);
    let q = (d * w) / one;
    if d >= 0 {
        assert(0 <= d * w <= d * one) by (nonlinear_arith)
            requires
                0 <= d,
                0 <= w <= one,
        ;
        assert(0 <= q <= d) by (nonlinear_arith)
            requires
                0 <= d * w <= d * one,
                d * w == one * q + (d * w) % one,
                0 <= (d * w) % one < one,
                one > 0,
        ;
    } else {
        assert(d * one <= d * w <= 0) by (nonlinear_arith)
            requires
                d < 0,
                0 <= w <= one,
        ;
        assert(d <= q <= 0) by (nonlinear_arith)
            requires
                d * one <= d * w <= 0,
                d * w == one * q + (d * w) % one,
                0 <= (d * w) % one < one,
                one > 0,
        ;
    }
}

/// Rounds a copy count to a whole number.
pub fn round_count(v: i32) -> (r: usize)
    ensures
        r == round_count_spec(v as int),
{
    if v < 0 {
        0
    } else {
        let n: i64 = (v as i64 + ONE / 2) / ONE;
        n as usize
    }
}

/// The integer square root.
pub fn sqrt(n: u128) -> (r: u64)
    ensures
        is_sqrt(n as int, r as int),
        r == sqrt_spec(n as int),
{
    let mut lo: u128 = 0;
    let mut hi: u128 = 0x1_0000_0000_0000_0000;
    assert(0x1_0000_0000_0000_0000int * 0x1_0000_0000_0000_0000int
        == 0x1_0000_0000_0000_0000_0000_0000_0000_0000int) by (nonlinear_arith);
    while hi - lo > 1
        invariant
            lo < hi <= 0x1_0000_0000_0000_0000,
            lo * lo <= n < hi * hi,
        decreases hi - lo,
    {
        let mid: u128 = lo + (hi - lo) / 2;
        assert(mid * mid <= 0xffff_ffff_ffff_ffff * 0xffff_ffff_ffff_ffff) by (nonlinear_arith)
            requires
                0 <= mid <= 0xffff_ffff_ffff_ffff,
        ;
        assert(0xffff_ffff_ffff_ffffint * 0xffff_ffff_ffff_ffffint < 0x1_0000_0000_0000_0000_0000_0000_0000_0000int)
            by (nonlinear_arith);
        if mid * mid <= n {
            lo = mid;
        } else {
            hi = mid;
        }
    }
    proof {
        let r = lo as int;
        assert(is_sqrt(n as int, r));
        lemma_sqrt_unique(n as int, r, sqrt_spec(n as int));
    }
    lo as u64
}

} // verus!
