//! Fixed-point scalars and the integer arithmetic the physics is built on.
//!
//! A scalar is an `i64` counting millionths of a unit: the value `1.5` is
//! stored as `1_500_000`. Products and quotients are computed on `i128`
//! intermediates and rounded toward zero, which is what the machine's `/`
//! does on signed integers; [`tdiv`] is that rounding in specification
//! form. [`isqrt`] supplies the Euclidean lengths.

use vstd::prelude::*;

verus! {

/// Raw steps in one unit: scalars are `i64` counts of millionths.
pub const SCALE: i64 = 1_000_000;

/// Largest magnitude (in raw steps, one thousand units) that the geometric
/// stages accept for a coordinate, a velocity component, a mass or a spring
/// parameter. Inside this range every intermediate of every stage fits in
/// an `i128` and every stored result fits in an `i64`.
pub const MAX_COORD: i64 = 1_000_000_000;

pub open spec fn fits_i64(x: int) -> bool {
    i64::MIN <= x <= i64::MAX
}

/// Division rounded toward zero, for positive divisors: the semantics of
/// `/` on the machine's signed integers, stated over mathematical integers.
pub open spec fn tdiv(a: int, b: int) -> int
    recommends
        b >= 1,
{
    if a >= 0 {
        a / b
    } else {
        -((-a) / b)
    }
}

/// Rounding toward zero never grows the magnitude of the dividend.
pub proof fn lemma_tdiv_shrinks(a: int, b: int)
    requires
        b >= 1,
    ensures
        a >= 0 ==> 0 <= tdiv(a, b) <= a,
        a < 0 ==> a <= tdiv(a, b) <= 0,
{
    if a >= 0 {
        assert(0 <= a / b <= a) by (nonlinear_arith)
            requires
                a >= 0,
                b >= 1,
        ;
    } else {
        assert(0 <= (-a) / b <= -a) by (nonlinear_arith)
            requires
                -a >= 0,
                b >= 1,
        ;
    }
}

/// Truncating division is odd: negating the dividend negates the quotient.
pub proof fn lemma_tdiv_neg(a: int, b: int)
    requires
        b >= 1,
    ensures
        tdiv(-a, b) == -tdiv(a, b),
{
    if a == 0 {
        assert(0int / b == 0) by (nonlinear_arith)
            requires
                b >= 1,
        ;
    }
}

/// A quotient lies between any multipliers that bracket the dividend.
pub proof fn lemma_tdiv_bounds(a: int, b: int, lo: int, hi: int)
    requires
        b >= 1,
        lo <= 0 <= hi,
        lo * b <= a <= hi * b,
    ensures
        lo <= tdiv(a, b) <= hi,
{
    if a >= 0 {
        assert(0 <= a / b <= hi) by (nonlinear_arith)
            requires
                b >= 1,
                0 <= hi,
                0 <= a <= hi * b,
        ;
    } else {
        assert((-lo) * b == -(lo * b)) by (nonlinear_arith);
        assert(0 <= (-a) / b <= -lo) by (nonlinear_arith)
            requires
                b >= 1,
                0 <= -lo,
                0 <= -a <= (-lo) * b,
        ;
    }
}

/// Bounds on both factors bound the product.
pub proof fn lemma_mul_bounds(a: int, b: int, ma: int, mb: int)
    by (nonlinear_arith)
    requires
        -ma <= a <= ma,
        -mb <= b <= mb,
        0 <= ma,
        0 <= mb,
    ensures
        -(ma * mb) <= a * b <= ma * mb,
{
}

/// The product of two scalars, on a wide intermediate that cannot overflow.
pub fn mul_wide(a: i64, b: i64) -> (r: i128)
    ensures
        r as int == a as int * b as int,
        -0x4000_0000_0000_0000_0000_0000_0000_0000int <= r as int
            <= 0x4000_0000_0000_0000_0000_0000_0000_0000int,
{
    proof {
        lemma_mul_bounds(
            a as int,
            b as int,
            0x8000_0000_0000_0000int,
            0x8000_0000_0000_0000int,
        );
    }
    (a as i128) * (b as i128)
}

/// Division rounded toward zero, on the wide intermediates the stages use.
pub fn div_t(a: i128, b: i128) -> (r: i128)
    requires
        b >= 1,
    ensures
        r as int == tdiv(a as int, b as int),
{
    proof {
        lemma_tdiv_shrinks(a as int, b as int);
    }
    a / b
}

/// `true` exactly when the wide value fits back into a scalar.
pub fn fits(a: i128) -> (r: bool)
    ensures
        r == fits_i64(a as int),
{
    i64::MIN as i128 <= a && a <= i64::MAX as i128
}

pub open spec fn is_sqrt_floor(n: int, r: int) -> bool {
    0 <= r && r * r <= n && n < (r + 1) * (r + 1)
}

/// The integer square root: the largest `r` with `r * r <= n`.
pub open spec fn sqrt_floor(n: int) -> int
    decreases n,
{
    if n <= 0 {
        0
    } else {
        let p = sqrt_floor(n - 1);
        if (p + 1) * (p + 1) <= n {
            p + 1
        } else {
            p
        }
    }
}

/// The integer square root is never negative, whatever its argument.
pub proof fn lemma_sqrt_floor_nonneg(n: int)
    ensures
        sqrt_floor(n) >= 0,
    decreases n,
{
    if n > 0 {
        lemma_sqrt_floor_nonneg(n - 1);
    }
}

pub proof fn lemma_sqrt_floor_is_floor(n: int)
    requires
        n >= 0,
    ensures
        is_sqrt_floor(n, sqrt_floor(n)),
    decreases n,
{
    if n > 0 {
        lemma_sqrt_floor_is_floor(n - 1);
        let p = sqrt_floor(n - 1);
        if (p + 1) * (p + 1) <= n {
            assert(n < (p + 2) * (p + 2)) by (nonlinear_arith)
                requires
                    0 <= p,
                    n - 1 < (p + 1) * (p + 1),
            ;
        }
    }
}

/// Two integers that both satisfy the square-root characterization agree.
pub proof fn lemma_sqrt_floor_unique(n: int, r: int)
    requires
        is_sqrt_floor(n, r),
    ensures
        r == sqrt_floor(n),
{
    assert(n >= 0) by (nonlinear_arith)
        requires
            0 <= r && r * r <= n,
    ;
    lemma_sqrt_floor_is_floor(n);
    let s = sqrt_floor(n);
    assert(r == s) by (nonlinear_arith)
        requires
            0 <= r && r * r <= n && n < (r + 1) * (r + 1),
            0 <= s && s * s <= n && n < (s + 1) * (s + 1),
    ;
}

/// The integer square root, by binary search over the answer.
pub fn isqrt(n: u128) -> (r: u128)
    ensures
        r as int == sqrt_floor(n as int),
        is_sqrt_floor(n as int, r as int),
        r <= u64::MAX,
{
    let mut lo: u128 = 0;
    let mut hi: u128 = 0x1_0000_0000_0000_0000;
    proof {
        assert((hi as int) * (hi as int) > n as int) by (nonlinear_arith)
            requires
                hi as int == 0x1_0000_0000_0000_0000int,
                n as int <= u128::MAX as int,
        ;
    }
    while lo + 1 < hi
        invariant
            lo < hi <= 0x1_0000_0000_0000_0000,
            (lo as int) * (lo as int) <= n as int,
            (n as int) < (hi as int) * (hi as int),
        decreases hi - lo,
    {
        let mid = lo + (hi - lo) / 2;
        proof {
            assert((mid as int) * (mid as int) < u128::MAX as int) by (nonlinear_arith)
                requires
                    mid as int <= 0xffff_ffff_ffff_ffffint,
            ;
        }
        if mid * mid <= n {
            lo = mid;
        } else {
            hi = mid;
        }
    }
    proof {
        lemma_sqrt_floor_unique(n as int, lo as int);
    }
    lo
}

} // verus!
