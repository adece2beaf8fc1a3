//! Planar and spatial vectors of fixed-point scalars.

use vstd::prelude::*;
use crate::scalar::{
    Scalar, fixed_add, fixed_mul, lemma_product_bound, lemma_trunc_div_bounds, magnitude, saturate,
    trunc_div,
};

verus! {

/// A vector in the plane.
#[derive(Clone, Copy, Debug, PartialEq, Eq, Structural)]
pub struct Vector2 {
    pub x: Scalar,
    pub y: Scalar,
}

/// A vector in space; `y` points up.
#[derive(Clone, Copy, Debug, PartialEq, Eq, Structural)]
pub struct Vector3 {
    pub x: Scalar,
    pub y: Scalar,
    pub z: Scalar,
}

/// Whether `r` is the least natural number whose square reaches `n`.
pub open spec fn is_ceil_sqrt(n: int, r: int) -> bool {
    &&& r >= 0
    &&& r * r >= n
    &&& (r == 0 || (r - 1) * (r - 1) < n)
}

/// The square root of `n`, rounded up.
pub open spec fn ceil_sqrt(n: int) -> int {
    choose|r: int| is_ceil_sqrt(n, r)
}

/// Squaring keeps the order of natural numbers.
pub proof fn lemma_square_monotone(a: int, b: int)
    requires
        0 <= a <= b,
    ensures
        a * a <= b * b,
{
    assert(a * a <= b * b) by (nonlinear_arith)
        requires
            0 <= a <= b,
    ;
}

/// A number has at most one rounded-up square root.
pub proof fn lemma_ceil_sqrt_unique(n: int, r1: int, r2: int)
    requires
        is_ceil_sqrt(n, r1),
        is_ceil_sqrt(n, r2),
    ensures
        r1 == r2,
{
    if r1 < r2 {
        lemma_square_monotone(r1, r2 - 1);
    } else if r2 < r1 {
        lemma_square_monotone(r2, r1 - 1);
    }
}

/// Every natural number has a rounded-up square root.
pub proof fn lemma_ceil_sqrt_exists(n: int)
    requires
        n >= 0,
    ensures
        is_ceil_sqrt(n, ceil_sqrt(n)),
    decreases n,
{
    if n == 0 {
        assert(is_ceil_sqrt(n, 0));
    } else {
        lemma_ceil_sqrt_exists(n - 1);
        let r = ceil_sqrt(n - 1);
        if r * r >= n {
            assert(is_ceil_sqrt(n, r));
        } else {
            assert((r + 1) * (r + 1) >= n) by (nonlinear_arith)
                requires
                    r >= 0,
                    r * r >= n - 1,
            ;
            assert((r + 1 - 1) * (r + 1 - 1) < n);
            assert(is_ceil_sqrt(n, r + 1));
        }
    }
}

/// Whatever meets the definition is the rounded-up square root.
pub proof fn lemma_ceil_sqrt_is(n: int, r: int)
    requires
        is_ceil_sqrt(n, r),
    ensures
        ceil_sqrt(n) == r,
{
    lemma_ceil_sqrt_unique(n, r, ceil_sqrt(n));
}

/// The square root of `n`, rounded up.
pub fn ceil_sqrt_u128(n: u128) -> (r: u128)
    ensures
        is_ceil_sqrt(n as int, r as int),
        r as int == ceil_sqrt(n as int),
        r <= 0x1_0000_0000_0000_0000,
{
    // Beyond the square of the largest 64-bit number the root is 2^64.
    if n > 0xFFFF_FFFF_FFFF_FFFE_0000_0000_0000_0001 {
        let r: u128 = 0x1_0000_0000_0000_0000;
        assert(r * r >= n && (r - 1) * (r - 1) < n) by (nonlinear_arith)
            requires
                r == 0x1_0000_0000_0000_0000,
                0xFFFF_FFFF_FFFF_FFFE_0000_0000_0000_0001 < n <= u128::MAX,
        ;
        proof {
            lemma_ceil_sqrt_is(n as int, r as int);
        }
        return r;
    }
    let mut lo: u128 = 0;
    let mut hi: u128 = 0xFFFF_FFFF_FFFF_FFFF;
    assert(hi * hi >= n) by (nonlinear_arith)
        requires
            hi == 0xFFFF_FFFF_FFFF_FFFF,
            n <= 0xFFFF_FFFF_FFFF_FFFE_0000_0000_0000_0001,
    ;
    while lo < hi
        invariant
            lo <= hi <= 0xFFFF_FFFF_FFFF_FFFF,
            hi * hi >= n,
            lo == 0 || (lo - 1) * (lo - 1) < n,
        decreases hi - lo,
    {
        let mid: u128 = lo + (hi - lo) / 2;
        proof {
            lemma_square_monotone(mid as int, 0xFFFF_FFFF_FFFF_FFFF);
        }
        let square: u128 = mid * mid;
        if square >= n {
            hi = mid;
        } else {
            lo = mid + 1;
        }
    }
    proof {
        lemma_ceil_sqrt_is(n as int, lo as int);
    }
    lo
}

/// The magnitude of a 64-bit value, which always fits in 128 bits.
fn magnitude_u128(v: i64) -> (r: u128)
    ensures
        r as int == magnitude(v as int),
        r <= 0x8000_0000_0000_0000,
{
    if v < 0 {
        let wide: i128 = -(v as i128);
        wide as u128
    } else {
        v as u128
    }
}

/// The squared length of the vector with raw components `x` and `y`.
pub open spec fn norm_squared(x: int, y: int) -> int {
    x * x + y * y
}

/// One raw component `c` of a vector of length `len`, rescaled to length `max`.
pub open spec fn rescaled(c: int, max: int, len: int) -> int {
    saturate(trunc_div(c * max, len))
}

/// `v` if it is no longer than `max`, else the vector of the same direction
/// and of length `max`, each component rounded toward zero.
pub open spec fn clamped_to_length(v: Vector2, max: Scalar) -> Vector2 {
    let n = norm_squared(v.x@, v.y@);
    if n > max@ * max@ {
        Vector2 {
            x: Scalar { raw: rescaled(v.x@, max@, ceil_sqrt(n)) as i64 },
            y: Scalar { raw: rescaled(v.y@, max@, ceil_sqrt(n)) as i64 },
        }
    } else {
        v
    }
}

impl Vector2 {
    /// The vector with the given components.
    pub fn new(x: Scalar, y: Scalar) -> (r: Vector2)
        ensures
            r == (Vector2 { x, y }),
    {
        Vector2 { x, y }
    }

    /// The zero vector.
    pub fn zero() -> (r: Vector2)
        ensures
            r == (Vector2 { x: Scalar { raw: 0 }, y: Scalar { raw: 0 } }),
    {
        Vector2 { x: Scalar::zero(), y: Scalar::zero() }
    }

    /// Whether both components are zero.
    pub fn is_zero(self) -> (r: bool)
        ensures
            r == (self.x@ == 0 && self.y@ == 0),
    {
        self.x.is_zero() && self.y.is_zero()
    }

    /// The vector shortened to length `max` where it is longer.
    pub fn clamp_length_max(self, max: Scalar) -> (r: Vector2)
        ensures
            r == clamped_to_length(self, max),
    {
        let ax: u128 = magnitude_u128(self.x.raw);
        let ay: u128 = magnitude_u128(self.y.raw);
        let am: u128 = magnitude_u128(max.raw);
        proof {
            lemma_square_monotone(ax as int, 0x8000_0000_0000_0000);
            lemma_square_monotone(ay as int, 0x8000_0000_0000_0000);
            lemma_square_monotone(am as int, 0x8000_0000_0000_0000);
            assert(ax * ax == self.x@ * self.x@) by (nonlinear_arith)
                requires
                    ax as int == magnitude(self.x@),
            ;
            assert(ay * ay == self.y@ * self.y@) by (nonlinear_arith)
                requires
                    ay as int == magnitude(self.y@),
            ;
            assert(am * am == max@ * max@) by (nonlinear_arith)
                requires
                    am as int == magnitude(max@),
            ;
        }
        let n: u128 = ax * ax + ay * ay;
        let limit: u128 = am * am;
        if n > limit {
            let len: u128 = ceil_sqrt_u128(n);
            assert(len > 0) by (nonlinear_arith)
                requires
                    len * len >= n,
                    n > 0,
            ;
            proof {
                lemma_product_bound(self.x@, max@);
                lemma_product_bound(self.y@, max@);
            }
            let divisor: i128 = len as i128;
            let px: i128 = (self.x.raw as i128) * (max.raw as i128);
            let py: i128 = (self.y.raw as i128) * (max.raw as i128);
            Vector2 { x: Scalar::saturating(px / divisor), y: Scalar::saturating(py / divisor) }
        } else {
            self
        }
    }
}

impl Vector3 {
    /// The vector with the given components.
    pub fn new(x: Scalar, y: Scalar, z: Scalar) -> (r: Vector3)
        ensures
            r == (Vector3 { x, y, z }),
    {
        Vector3 { x, y, z }
    }

    /// The zero vector.
    pub fn zero() -> (r: Vector3)
        ensures
            r == (Vector3 { x: Scalar { raw: 0 }, y: Scalar { raw: 0 }, z: Scalar { raw: 0 } }),
    {
        Vector3 { x: Scalar::zero(), y: Scalar::zero(), z: Scalar::zero() }
    }

    /// Component-wise saturating sum.
    pub fn add(self, rhs: Vector3) -> (r: Vector3)
        ensures
            r == self.spec_plus(rhs),
    {
        Vector3 { x: self.x.add(rhs.x), y: self.y.add(rhs.y), z: self.z.add(rhs.z) }
    }

    /// Each component multiplied by `factor`.
    pub fn scale(self, factor: Scalar) -> (r: Vector3)
        ensures
            r == self.spec_scaled(factor),
    {
        Vector3 { x: self.x.mul(factor), y: self.y.mul(factor), z: self.z.mul(factor) }
    }

    /// What `add` returns.
    pub open spec fn spec_plus(self, rhs: Vector3) -> Vector3 {
        Vector3 {
            x: Scalar { raw: fixed_add(self.x@, rhs.x@) as i64 },
            y: Scalar { raw: fixed_add(self.y@, rhs.y@) as i64 },
            z: Scalar { raw: fixed_add(self.z@, rhs.z@) as i64 },
        }
    }

    /// What `scale` returns.
    pub open spec fn spec_scaled(self, factor: Scalar) -> Vector3 {
        Vector3 {
            x: Scalar { raw: fixed_mul(self.x@, factor@) as i64 },
            y: Scalar { raw: fixed_mul(self.y@, factor@) as i64 },
            z: Scalar { raw: fixed_mul(self.z@, factor@) as i64 },
        }
    }
}

/// A vector longer than `max` is clamped to length `max`, up to rounding, and
/// keeps its direction.
///
/// With `r` the clamped vector: `r` is no longer than `max`; it falls short of
/// `max` by less than rounding allows (one raw unit more on each component
/// gives a vector longer than `max - 1`); each component keeps its sign; and
/// `r` is parallel to `v` up to rounding (their cross product is smaller than
/// the sum of the magnitudes of `v`'s components).
pub proof fn lemma_clamp_reaches_length(v: Vector2, max: Scalar)
    requires
        max@ >= 0,
        norm_squared(v.x@, v.y@) > max@ * max@,
    ensures
        ({
            let r = clamped_to_length(v, max);
            &&& norm_squared(r.x@, r.y@) <= max@ * max@
            &&& max@ >= 1 ==> norm_squared(magnitude(r.x@) + 1, magnitude(r.y@) + 1) > (max@ - 1)
                * (max@ - 1)
            &&& v.x@ >= 0 ==> r.x@ >= 0
            &&& v.x@ <= 0 ==> r.x@ <= 0
            &&& v.y@ >= 0 ==> r.y@ >= 0
            &&& v.y@ <= 0 ==> r.y@ <= 0
            &&& magnitude(r.x@ * v.y@ - r.y@ * v.x@) < magnitude(v.x@) + magnitude(v.y@)
        }),
{
    let x = v.x@;
    let y = v.y@;
    let m = max@;
    let n = norm_squared(x, y);
    let len = ceil_sqrt(n);
    let ax = magnitude(x);
    let ay = magnitude(y);
    assert(n >= 0) by (nonlinear_arith)
        requires
            n == x * x + y * y,
    ;
    // The rounded-up root exists, and is longer than `max`.
    lemma_ceil_sqrt_exists(n);
    assert(len > m) by (nonlinear_arith)
        requires
            len >= 0,
            m >= 0,
            len * len >= n,
            n > m * m,
    ;
    let tx = trunc_div(x * m, len);
    let ty = trunc_div(y * m, len);
    lemma_trunc_div_bounds(x * m, len);
    lemma_trunc_div_bounds(y * m, len);
    let qx = magnitude(tx);
    let qy = magnitude(ty);
    assert(magnitude(x * m) == ax * m && magnitude(y * m) == ay * m) by (nonlinear_arith)
        requires
            m >= 0,
            ax == magnitude(x),
            ay == magnitude(y),
    ;
    assert(ax * ax == x * x && ay * ay == y * y) by (nonlinear_arith)
        requires
            ax == magnitude(x),
            ay == magnitude(y),
    ;
    // Neither component grows, so neither saturates.
    assert(ax <= len && ay <= len) by (nonlinear_arith)
        requires
            len >= 0,
            ax >= 0,
            ay >= 0,
            len * len >= n,
            n == x * x + y * y,
            ax * ax == x * x,
            ay * ay == y * y,
    ;
    assert(qx <= m && qy <= m) by (nonlinear_arith)
        requires
            qx * len <= ax * m,
            qy * len <= ay * m,
            0 <= ax <= len,
            0 <= ay <= len,
            0 <= m,
            0 <= qx,
            0 <= qy,
            len > 0,
    ;
    assert(saturate(tx) == tx && saturate(ty) == ty);
    let r = clamped_to_length(v, max);
    assert(r.x@ == tx && r.y@ == ty);
    // No longer than `max`.
    assert(qx * qx + qy * qy <= m * m) by (nonlinear_arith)
        requires
            qx * len <= ax * m,
            qy * len <= ay * m,
            0 <= qx,
            0 <= qy,
            0 <= ax,
            0 <= ay,
            0 <= m,
            len > 0,
            ax * ax + ay * ay <= len * len,
    {
        assert((qx * len) * (qx * len) <= (ax * m) * (ax * m));
        assert((qy * len) * (qy * len) <= (ay * m) * (ay * m));
        assert((qx * qx + qy * qy) * (len * len) == (qx * len) * (qx * len) + (qy * len) * (qy
            * len));
        assert((ax * ax + ay * ay) * (m * m) == (ax * m) * (ax * m) + (ay * m) * (ay * m));
        assert((ax * ax + ay * ay) * (m * m) <= (len * len) * (m * m));
        assert((qx * qx + qy * qy) * (len * len) <= (m * m) * (len * len));
    }
    assert(tx * tx == qx * qx && ty * ty == qy * qy) by (nonlinear_arith)
        requires
            qx == magnitude(tx),
            qy == magnitude(ty),
    ;
    // Short of `max` by less than rounding allows.
    if m >= 1 {
        let bx = qx + 1;
        let by = qy + 1;
        assert(bx * bx + by * by > (m - 1) * (m - 1)) by (nonlinear_arith)
            requires
                bx * len > ax * m,
                by * len > ay * m,
                bx >= 1,
                by >= 1,
                0 <= ax,
                0 <= ay,
                m >= 1,
                len > m,
                ax * ax + ay * ay > (len - 1) * (len - 1),
        {
            assert((bx * len) * (bx * len) >= (ax * m) * (ax * m));
            assert((by * len) * (by * len) >= (ay * m) * (ay * m));
            assert((bx * bx + by * by) * (len * len) == (bx * len) * (bx * len) + (by * len) * (
            by * len));
            assert((ax * ax + ay * ay) * (m * m) == (ax * m) * (ax * m) + (ay * m) * (ay * m));
            assert((ax * ax + ay * ay) * (m * m) > ((len - 1) * (len - 1)) * (m * m));
            assert((len - 1) * m >= (m - 1) * len);
            assert(((len - 1) * m) * ((len - 1) * m) >= ((m - 1) * len) * ((m - 1) * len));
            assert(((len - 1) * (len - 1)) * (m * m) == ((len - 1) * m) * ((len - 1) * m));
            assert(((m - 1) * (m - 1)) * (len * len) == ((m - 1) * len) * ((m - 1) * len));
            assert((bx * bx + by * by) * (len * len) > ((m - 1) * (m - 1)) * (len * len));
        }
    }
    // Each component keeps its sign.
    assert((x >= 0 ==> x * m >= 0) && (x <= 0 ==> x * m <= 0) && (y >= 0 ==> y * m >= 0) && (y
        <= 0 ==> y * m <= 0)) by (nonlinear_arith)
        requires
            m >= 0,
    ;
    // Parallel up to rounding.
    let ex = x * m - tx * len;
    let ey = y * m - ty * len;
    let cross = tx * y - ty * x;
    assert(cross * len == ey * x - ex * y) by (nonlinear_arith)
        requires
            ex == x * m - tx * len,
            ey == y * m - ty * len,
            cross == tx * y - ty * x,
    ;
    assert(magnitude(cross) < ax + ay) by (nonlinear_arith)
        requires
            cross * len == ey * x - ex * y,
            -len < ex < len,
            -len < ey < len,
            len > 0,
            ax == magnitude(x),
            ay == magnitude(y),
            ax * ax + ay * ay > 0,
    ;
}

/// A clamped vector is no longer than the limit it was clamped to.
pub proof fn lemma_clamp_bounds_length(v: Vector2, max: Scalar)
    requires
        max@ >= 0,
    ensures
        norm_squared(clamped_to_length(v, max).x@, clamped_to_length(v, max).y@) <= max@ * max@,
{
    if norm_squared(v.x@, v.y@) > max@ * max@ {
        lemma_clamp_reaches_length(v, max);
    }
}

} // verus!
