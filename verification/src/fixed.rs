//! Signed fixed-point numbers with 32 fractional bits and saturating arithmetic.

use crate::scalar::Scalar;
use vstd::prelude::*;

verus! {

/// The number `raw / 2^32`.
///
/// Sums, differences, products and quotients that leave the range of the type saturate at
/// its ends; products and quotients round toward zero.  A quotient by zero saturates in the
/// direction of the dividend's sign, and zero divided by zero is zero.
#[derive(Clone, Copy, Debug, PartialEq, Eq)]
pub struct Fixed {
    pub raw: i64,
}

/// The number of raw units in one: `2^32`.
pub const ONE_RAW: i64 = 0x1_0000_0000;

/// `x`, moved to the nearest end of the `i64` range if it lies outside.
pub open spec fn saturate(x: int) -> i64 {
    if x > i64::MAX {
        i64::MAX
    } else if x < i64::MIN {
        i64::MIN
    } else {
        x as i64
    }
}

/// The quotient of `n` by a positive `d`, rounded toward zero.
pub open spec fn div_toward_zero(n: int, d: int) -> int {
    if n >= 0 {
        n / d
    } else {
        -((-n) / d)
    }
}

/// The raw value of the product of the numbers with raw values `a` and `b`.
pub open spec fn mul_raw(a: int, b: int) -> int {
    div_toward_zero(a * b, ONE_RAW as int)
}

/// The raw value of the quotient of the numbers with raw values `a` and `b`.
pub open spec fn div_raw(a: int, b: int) -> int {
    if b > 0 {
        div_toward_zero(a * ONE_RAW, b)
    } else if b < 0 {
        div_toward_zero(-(a * ONE_RAW), -b)
    } else if a > 0 {
        i64::MAX as int
    } else if a < 0 {
        i64::MIN as int
    } else {
        0
    }
}

fn saturated(x: i128) -> (r: i64)
    ensures
        r == saturate(x as int),
{
    if x > i64::MAX as i128 {
        i64::MAX
    } else if x < i64::MIN as i128 {
        i64::MIN
    } else {
        x as i64
    }
}

fn quotient_toward_zero(n: i128, d: i128) -> (q: i128)
    requires
        d > 0,
        n > i128::MIN,
    ensures
        q == div_toward_zero(n as int, d as int),
        n >= 0 ==> 0 <= q <= n,
        n < 0 ==> n <= q <= 0,
{
    if n >= 0 {
        let q: i128 = n / d;
        proof {
            vstd::arithmetic::div_mod::lemma_div_pos_is_pos(n as int, d as int);
            vstd::arithmetic::div_mod::lemma_div_is_ordered_by_denominator(n as int, 1, d as int);
        }
        q
    } else {
        let m: i128 = -n;
        let q: i128 = m / d;
        proof {
            vstd::arithmetic::div_mod::lemma_div_pos_is_pos(m as int, d as int);
            vstd::arithmetic::div_mod::lemma_div_is_ordered_by_denominator(m as int, 1, d as int);
        }
        -q
    }
}

impl Fixed {
    /// The number with the given raw value.
    pub fn from_raw(raw: i64) -> (r: Fixed)
        ensures
            r.raw == raw,
    {
        Fixed { raw }
    }
}

impl Scalar for Fixed {
    open spec fn from_i32_spec(n: i32) -> Self {
        Fixed { raw: (n * ONE_RAW) as i64 }
    }

    open spec fn from_usize_spec(n: usize) -> Self {
        Fixed { raw: saturate(n * ONE_RAW) }
    }

    open spec fn add_spec(self, rhs: Self) -> Self {
        Fixed { raw: saturate(self.raw + rhs.raw) }
    }

    open spec fn sub_spec(self, rhs: Self) -> Self {
        Fixed { raw: saturate(self.raw - rhs.raw) }
    }

    open spec fn mul_spec(self, rhs: Self) -> Self {
        Fixed { raw: saturate(mul_raw(self.raw as int, rhs.raw as int)) }
    }

    open spec fn div_spec(self, rhs: Self) -> Self {
        Fixed { raw: saturate(div_raw(self.raw as int, rhs.raw as int)) }
    }

    open spec fn abs_spec(self) -> Self {
        Fixed { raw: saturate(if self.raw < 0 { -self.raw } else { self.raw as int }) }
    }

    open spec fn le_spec(self, rhs: Self) -> bool {
        self.raw <= rhs.raw
    }

    open spec fn lt_spec(self, rhs: Self) -> bool {
        self.raw < rhs.raw
    }

    open spec fn is_zero_spec(self) -> bool {
        self.raw == 0
    }

    proof fn lemma_le_excludes_gt(a: Self, b: Self) {
    }

    proof fn lemma_abs_sub_symmetric(a: Self, b: Self) {
    }

    fn from_i32(n: i32) -> (r: Self) {
        let wide: i64 = n as i64;
        Fixed { raw: wide * ONE_RAW }
    }

    fn from_usize(n: usize) -> (r: Self) {
        let wide: i128 = n as i128;
        Fixed { raw: saturated(wide * (ONE_RAW as i128)) }
    }

    fn add(self, rhs: Self) -> (r: Self) {
        Fixed { raw: saturated(self.raw as i128 + rhs.raw as i128) }
    }

    fn sub(self, rhs: Self) -> (r: Self) {
        Fixed { raw: saturated(self.raw as i128 - rhs.raw as i128) }
    }

    fn mul(self, rhs: Self) -> (r: Self) {
        let a: i128 = self.raw as i128;
        let b: i128 = rhs.raw as i128;
        assert(-0x4000_0000_0000_0000_0000_0000_0000_0000 <= a * b
            <= 0x4000_0000_0000_0000_0000_0000_0000_0000) by (nonlinear_arith)
            requires
                -0x8000_0000_0000_0000 <= a <= 0x7fff_ffff_ffff_ffff,
                -0x8000_0000_0000_0000 <= b <= 0x7fff_ffff_ffff_ffff,
        ;
        Fixed { raw: saturated(quotient_toward_zero(a * b, ONE_RAW as i128)) }
    }

    fn div(self, rhs: Self) -> (r: Self) {
        let a: i128 = self.raw as i128;
        let b: i128 = rhs.raw as i128;
        let scaled: i128 = a * (ONE_RAW as i128);
        if b > 0 {
            Fixed { raw: saturated(quotient_toward_zero(scaled, b)) }
        } else if b < 0 {
            Fixed { raw: saturated(quotient_toward_zero(-scaled, -b)) }
        } else if a > 0 {
            Fixed { raw: i64::MAX }
        } else if a < 0 {
            Fixed { raw: i64::MIN }
        } else {
            Fixed { raw: 0 }
        }
    }

    fn abs(self) -> (r: Self) {
        let a: i128 = self.raw as i128;
        Fixed { raw: saturated(if a < 0 { -a } else { a }) }
    }

    fn le(self, rhs: Self) -> (r: bool) {
        self.raw <= rhs.raw
    }

    fn lt(self, rhs: Self) -> (r: bool) {
        self.raw < rhs.raw
    }

    fn is_zero(self) -> (r: bool) {
        self.raw == 0
    }
}

} // verus!
