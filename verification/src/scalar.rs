//! Fixed-point scalars: a signed count of billionths.

use vstd::prelude::*;

verus! {

/// How many raw units make one whole unit.
pub const SCALE: i64 = 1_000_000_000;

/// The nearest value of the 64-bit range.
pub open spec fn saturate(v: int) -> int {
    if v < i64::MIN {
        i64::MIN as int
    } else if v > i64::MAX {
        i64::MAX as int
    } else {
        v
    }
}

/// The quotient rounded toward zero.
pub open spec fn trunc_div(n: int, d: int) -> int {
    if n >= 0 {
        n / d
    } else {
        -((-n) / d)
    }
}

/// The magnitude of an integer.
pub open spec fn magnitude(v: int) -> int {
    if v < 0 {
        -v
    } else {
        v
    }
}

/// Fixed-point sum: exact unless it leaves the range.
pub open spec fn fixed_add(a: int, b: int) -> int {
    saturate(a + b)
}

/// Fixed-point difference: exact unless it leaves the range.
pub open spec fn fixed_sub(a: int, b: int) -> int {
    saturate(a - b)
}

/// Fixed-point negation.
pub open spec fn fixed_neg(a: int) -> int {
    saturate(-a)
}

/// Fixed-point magnitude.
pub open spec fn fixed_abs(a: int) -> int {
    saturate(magnitude(a))
}

/// Fixed-point product: the exact product of the two raw values, brought back
/// to the scale with rounding toward zero.
pub open spec fn fixed_mul(a: int, b: int) -> int {
    saturate(trunc_div(a * b, SCALE as int))
}

/// `v` held between `lo` and `hi`; the lower bound is tested first.
pub open spec fn fixed_clamp(v: int, lo: int, hi: int) -> int {
    if v < lo {
        lo
    } else if v > hi {
        hi
    } else {
        v
    }
}

/// A fixed-point number: `raw` billionths.
#[derive(Clone, Copy, Debug, PartialEq, Eq, Structural)]
pub struct Scalar {
    pub raw: i64,
}

impl View for Scalar {
    type V = int;

    open spec fn view(&self) -> int {
        self.raw as int
    }
}

/// The product of two 64-bit values lies within 126 bits.
pub proof fn lemma_product_bound(a: int, b: int)
    requires
        i64::MIN <= a <= i64::MAX,
        i64::MIN <= b <= i64::MAX,
    ensures
        -0x4000_0000_0000_0000_0000_0000_0000_0000 <= a * b
            <= 0x4000_0000_0000_0000_0000_0000_0000_0000,
{
    assert(-0x4000_0000_0000_0000_0000_0000_0000_0000 <= a * b
        <= 0x4000_0000_0000_0000_0000_0000_0000_0000) by (nonlinear_arith)
        requires
            -0x8000_0000_0000_0000 <= a <= 0x8000_0000_0000_0000,
            -0x8000_0000_0000_0000 <= b <= 0x8000_0000_0000_0000,
    ;
}

/// Rounding toward zero: the quotient has the sign of the numerator, and its
/// magnitude is the whole part of the quotient of the magnitudes.
pub proof fn lemma_trunc_div_bounds(n: int, d: int)
    requires
        d > 0,
    ensures
        magnitude(trunc_div(n, d)) * d <= magnitude(n),
        magnitude(n) < (magnitude(trunc_div(n, d)) + 1) * d,
        n >= 0 ==> trunc_div(n, d) >= 0,
        n <= 0 ==> trunc_div(n, d) <= 0,
        n - d < trunc_div(n, d) * d < n + d,
{
    let a = magnitude(n);
    let q = a / d;
    vstd::arithmetic::div_mod::lemma_fundamental_div_mod(a, d);
    vstd::arithmetic::div_mod::lemma_mod_bound(a, d);
    vstd::arithmetic::div_mod::lemma_div_pos_is_pos(a, d);
    assert(a == d * q + a % d);
    assert(d * q == q * d) by (nonlinear_arith);
    assert((q + 1) * d == q * d + d) by (nonlinear_arith);
    assert(magnitude(trunc_div(n, d)) == q);
    if n < 0 {
        assert(trunc_div(n, d) == -q);
        assert((-q) * d == -(q * d)) by (nonlinear_arith);
    }
}

impl Scalar {
    /// The scalar of `raw` billionths.
    pub fn new(raw: i64) -> (r: Scalar)
        ensures
            r@ == raw,
    {
        Scalar { raw }
    }

    /// The scalar nearest to `raw` billionths.
    pub fn saturating(raw: i128) -> (r: Scalar)
        ensures
            r@ == saturate(raw as int),
    {
        if raw < -9_223_372_036_854_775_808i128 {
            Scalar { raw: i64::MIN }
        } else if raw > 9_223_372_036_854_775_807i128 {
            Scalar { raw: i64::MAX }
        } else {
            Scalar { raw: raw as i64 }
        }
    }

    /// The scalar that stands for the whole number `units`.
    pub fn from_int(units: i32) -> (r: Scalar)
        ensures
            r@ == units * SCALE,
    {
        let wide: i64 = units as i64;
        Scalar { raw: wide * SCALE }
    }

    /// Zero.
    pub fn zero() -> (r: Scalar)
        ensures
            r@ == 0,
    {
        Scalar { raw: 0 }
    }

    /// One whole unit.
    pub fn one() -> (r: Scalar)
        ensures
            r@ == SCALE,
    {
        Scalar { raw: SCALE }
    }

    /// Saturating sum.
    pub fn add(self, rhs: Scalar) -> (r: Scalar)
        ensures
            r@ == fixed_add(self@, rhs@),
    {
        Scalar::saturating(self.raw as i128 + rhs.raw as i128)
    }

    /// Saturating difference.
    pub fn sub(self, rhs: Scalar) -> (r: Scalar)
        ensures
            r@ == fixed_sub(self@, rhs@),
    {
        Scalar::saturating(self.raw as i128 - rhs.raw as i128)
    }

    /// Saturating negation.
    pub fn neg(self) -> (r: Scalar)
        ensures
            r@ == fixed_neg(self@),
    {
        Scalar::saturating(-(self.raw as i128))
    }

    /// Saturating magnitude.
    pub fn abs(self) -> (r: Scalar)
        ensures
            r@ == fixed_abs(self@),
    {
        if self.raw < 0 {
            self.neg()
        } else {
            self
        }
    }

    /// Fixed-point product, rounded toward zero and saturated.
    pub fn mul(self, rhs: Scalar) -> (r: Scalar)
        ensures
            r@ == fixed_mul(self@, rhs@),
    {
        proof {
            lemma_product_bound(self@, rhs@);
        }
        let wide: i128 = (self.raw as i128) * (rhs.raw as i128);
        Scalar::saturating(wide / (SCALE as i128))
    }

    /// `self` held between `lo` and `hi`.
    pub fn clamp(self, lo: Scalar, hi: Scalar) -> (r: Scalar)
        ensures
            r@ == fixed_clamp(self@, lo@, hi@),
    {
        if self.raw < lo.raw {
            lo
        } else if self.raw > hi.raw {
            hi
        } else {
            self
        }
    }

    /// Whether `self` is at most `rhs`.
    pub fn le(self, rhs: Scalar) -> (r: bool)
        ensures
            r == (self@ <= rhs@),
    {
        self.raw <= rhs.raw
    }

    /// Whether `self` is zero.
    pub fn is_zero(self) -> (r: bool)
        ensures
            r == (self@ == 0),
    {
        self.raw == 0
    }
}

} // verus!
