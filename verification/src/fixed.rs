//! Fixed-point scalar arithmetic.
//!
//! A real number `v` is stored as the `i64` value `v * SCALE`, truncated
//! toward zero. All derived operations (product, quotient, square root,
//! clamping) are specified exactly over `int` and proved against those
//! specifications.

use vstd::prelude::*;
use vstd::arithmetic::div_mod::{
    lemma_div_is_ordered, lemma_div_pos_is_pos, lemma_div_multiples_vanish,
};

verus! {

/// The fixed-point unit: the stored representation of the real number 1.
pub const SCALE: i64 = 1_000_000;

/// The circle constant pi in fixed point (rounded to nearest).
pub const FP_PI: i64 = 3_141_593;

/// Largest admissible magnitude for scene coordinates, radii and light
/// intensities (1000 in real units); keeps all intermediate products inside
/// `i128` and all stored scalars inside `i64`.
pub const MAX_COORD: i64 = 1_000 * SCALE;

/// Hits farther along a ray than this distance are treated as misses
/// (10_000 in real units); keeps hit points representable.
pub const MAX_DIST: i64 = 10_000 * SCALE;

/// Truncating division (quotient rounded toward zero), for positive divisors.
pub open spec fn tdiv(a: int, b: int) -> int {
    if a >= 0 {
        a / b
    } else {
        -((-a) / b)
    }
}

/// The fixed-point product of `a` and `b`.
pub open spec fn fp_mul_s(a: int, b: int) -> int {
    tdiv(a * b, SCALE as int)
}

/// The fixed-point quotient of `a` by `b` (for positive `b`).
pub open spec fn fp_div_s(a: int, b: int) -> int {
    tdiv(a * (SCALE as int), b)
}

/// `r` is the floor of the square root of `n`.
pub open spec fn is_sqrt_floor(n: int, r: int) -> bool {
    0 <= r && r * r <= n && n < (r + 1) * (r + 1)
}

/// The floor of the square root of a non-negative `n`.
pub open spec fn sqrt_floor(n: int) -> int {
    choose|r: int| is_sqrt_floor(n, r)
}

/// The final per-pixel clamp: restrict a channel to [0, SCALE].
pub open spec fn clamp_unit_s(a: int) -> int {
    if a < 0 {
        0
    } else if a > SCALE {
        SCALE as int
    } else {
        a
    }
}

/// Truncating division stays within any multiple-of-the-divisor bound.
pub proof fn lemma_tdiv_bounds(a: int, b: int, c: int)
    requires
        b > 0,
        c >= 0,
        -(c * b) <= a <= c * b,
    ensures
        -c <= tdiv(a, b) <= c,
{
    vstd::arithmetic::mul::lemma_mul_is_commutative(c, b);
    if a >= 0 {
        lemma_div_pos_is_pos(a, b);
        lemma_div_is_ordered(a, c * b, b);
        lemma_div_multiples_vanish(c, b);
    } else {
        lemma_div_pos_is_pos(-a, b);
        lemma_div_is_ordered(-a, c * b, b);
        lemma_div_multiples_vanish(c, b);
    }
}

/// The sign of a truncating quotient follows the sign of the dividend.
pub proof fn lemma_tdiv_sign(a: int, b: int)
    requires
        b > 0,
    ensures
        a >= 0 ==> tdiv(a, b) >= 0,
        a <= 0 ==> tdiv(a, b) <= 0,
{
    if a >= 0 {
        lemma_div_pos_is_pos(a, b);
    }
    if a <= 0 {
        lemma_div_pos_is_pos(-a, b);
    }
}

/// Truncating division is monotone in the dividend, for positive divisors.
pub proof fn lemma_tdiv_monotone(a: int, b: int, d: int)
    requires
        d > 0,
        a <= b,
    ensures
        tdiv(a, d) <= tdiv(b, d),
{
    if a >= 0 {
        lemma_div_is_ordered(a, b, d);
    } else if b < 0 {
        lemma_div_is_ordered(-b, -a, d);
    } else {
        lemma_tdiv_sign(a, d);
        lemma_tdiv_sign(b, d);
    }
}

/// Fixed-point multiplication by a non-negative factor is monotone.
pub proof fn lemma_fp_mul_monotone(a: int, b: int, c: int)
    requires
        0 <= c,
        a <= b,
    ensures
        fp_mul_s(a, c) <= fp_mul_s(b, c),
{
    assert(a * c <= b * c) by (nonlinear_arith)
        requires
            a <= b,
            0 <= c,
    ;
    lemma_tdiv_monotone(a * c, b * c, SCALE as int);
}

/// The quotient-remainder characterization of truncating division.
pub proof fn lemma_tdiv_fundamental(a: int, b: int)
    requires
        b > 0,
    ensures
        a >= 0 ==> tdiv(a, b) * b <= a < (tdiv(a, b) + 1) * b,
        a < 0 ==> (tdiv(a, b) - 1) * b < a <= tdiv(a, b) * b,
{
    if a >= 0 {
        let q = a / b;
        vstd::arithmetic::div_mod::lemma_fundamental_div_mod(a, b);
        vstd::arithmetic::mul::lemma_mul_is_commutative(q, b);
        vstd::arithmetic::mul::lemma_mul_is_distributive_add_other_way(b, q, 1);
        assert((q + 1) * b == q * b + 1 * b);
    } else {
        let q = (-a) / b;
        vstd::arithmetic::div_mod::lemma_fundamental_div_mod(-a, b);
        vstd::arithmetic::mul::lemma_mul_is_commutative(q, b);
        vstd::arithmetic::mul::lemma_mul_is_commutative(-q, b);
        vstd::arithmetic::mul::lemma_mul_is_distributive_add_other_way(b, -q, -1);
        assert((-q + -1) * b == (-q) * b + (-1) * b);
        assert((-1) * b == -b) by (nonlinear_arith);
        assert((-q) * b == -(q * b)) by {
            vstd::arithmetic::mul::lemma_mul_unary_negation(q, b);
        }
    }
}

/// The floor of a square root is determined by its defining inequalities.
pub proof fn lemma_sqrt_floor_unique(n: int, r: int)
    requires
        is_sqrt_floor(n, r),
    ensures
        sqrt_floor(n) == r,
{
    let r2 = sqrt_floor(n);
    assert(is_sqrt_floor(n, r2)) by {
        assert(exists|x: int| is_sqrt_floor(n, x)) by {
            assert(is_sqrt_floor(n, r));
        }
    }
    assert(r2 == r) by (nonlinear_arith)
        requires
            is_sqrt_floor(n, r),
            is_sqrt_floor(n, r2),
    ;
}

/// Truncating division on machine integers; Rust's `checked_div` rounds
/// toward zero, matching `tdiv` for positive divisors.
pub fn div_i128(a: i128, b: i128) -> (q: i128)
    requires
        0 < b,
        i128::MIN < a,
    ensures
        q == tdiv(a as int, b as int),
{
    proof {
        let c: int = if a >= 0 {
            a as int
        } else {
            -(a as int)
        };
        assert(c * (b as int) >= c) by (nonlinear_arith)
            requires
                c >= 0,
                b >= 1,
        ;
        assert(-(c * (b as int)) <= a as int <= c * (b as int));
        lemma_tdiv_bounds(a as int, b as int, c);
        vstd::arithmetic::div_mod::lemma_div_of0(b as int);
    }
    let q = a.checked_div(b);
    q.unwrap()
}

/// Multiply two fixed-point scalars exactly as `fp_mul_s` describes.
pub fn fp_mul(a: i64, b: i64) -> (r: i64)
    requires
        i64::MIN <= fp_mul_s(a as int, b as int) <= i64::MAX,
    ensures
        r as int == fp_mul_s(a as int, b as int),
{
    let p: i128 = (a as i128) * (b as i128);
    let q = div_i128(p, SCALE as i128);
    q as i64
}

/// Divide two fixed-point scalars exactly as `fp_div_s` describes.
pub fn fp_div(a: i64, b: i64) -> (r: i64)
    requires
        b > 0,
        i64::MIN <= fp_div_s(a as int, b as int) <= i64::MAX,
    ensures
        r as int == fp_div_s(a as int, b as int),
{
    let p: i128 = (a as i128) * (SCALE as i128);
    let q = div_i128(p, b as i128);
    q as i64
}

/// Largest argument accepted by `isqrt`; its square root search starts from
/// an upper bound whose square must stay inside `i128`.
pub const ISQRT_MAX: i128 = 100_000_000_000_000_000_000_000_000_000_000_000_000;

/// The floor of the square root of `n`, by bisection.
pub fn isqrt(n: i128) -> (r: i128)
    requires
        0 <= n <= ISQRT_MAX,
    ensures
        r == sqrt_floor(n as int),
        is_sqrt_floor(n as int, r as int),
        0 <= r <= 13_000_000_000_000_000_000,
{
    let mut lo: i128 = 0;
    let mut hi: i128 = 13_000_000_000_000_000_000;
    proof {
        assert((13_000_000_000_000_000_000int) * (13_000_000_000_000_000_000int)
            > ISQRT_MAX as int);
    }
    while lo + 1 < hi
        invariant
            0 <= lo < hi <= 13_000_000_000_000_000_000,
            (lo as int) * (lo as int) <= n as int,
            (n as int) < (hi as int) * (hi as int),
        decreases hi - lo,
    {
        let mid = lo + div_i128(hi - lo, 2);
        proof {
            assert(lo < mid < hi);
            assert((mid as int) * (mid as int) <= (13_000_000_000_000_000_000int)
                * (13_000_000_000_000_000_000int)) by (nonlinear_arith)
                requires
                    0 <= mid <= 13_000_000_000_000_000_000int,
            ;
        }
        if mid * mid <= n {
            lo = mid;
        } else {
            hi = mid;
        }
    }
    proof {
        assert(is_sqrt_floor(n as int, lo as int));
        lemma_sqrt_floor_unique(n as int, lo as int);
    }
    lo
}

/// Every non-negative integer has a floor square root, so the chosen
/// `sqrt_floor` satisfies its defining inequalities.
pub proof fn lemma_sqrt_floor_exists(n: int)
    requires
        0 <= n,
    ensures
        is_sqrt_floor(n, sqrt_floor(n)),
    decreases n,
{
    if n == 0 {
        assert(is_sqrt_floor(0, 0));
    } else {
        lemma_sqrt_floor_exists(n - 1);
        let r = sqrt_floor(n - 1);
        assert(is_sqrt_floor(n - 1, r));
        if (r + 1) * (r + 1) <= n {
            assert(is_sqrt_floor(n, r + 1)) by (nonlinear_arith)
                requires
                    0 <= r,
                    r * r <= n - 1,
                    n - 1 < (r + 1) * (r + 1),
                    (r + 1) * (r + 1) <= n,
            ;
        } else {
            assert(is_sqrt_floor(n, r));
        }
    }
    assert(is_sqrt_floor(n, sqrt_floor(n))) by {
        let w = choose|r: int| is_sqrt_floor(n, r);
        assert(is_sqrt_floor(n, w));
    }
}

/// A square root bound follows from a bound on the square.
pub proof fn lemma_sqrt_le(r: int, m: int)
    requires
        0 <= r,
        0 <= m,
        r * r <= m * m,
    ensures
        r <= m,
{
    assert(r <= m) by (nonlinear_arith)
        requires
            0 <= r,
            0 <= m,
            r * r <= m * m,
    ;
}

/// The square root of a fixed-point scalar, as a fixed-point scalar: the
/// argument is rescaled by SCALE before the integer square root so that the
/// result keeps scale SCALE.
pub open spec fn fp_sqrt_s(a: int) -> int {
    sqrt_floor(a * SCALE)
}

/// Fixed-point square root of a non-negative scalar.
pub fn fp_sqrt(a: i64) -> (r: i64)
    requires
        0 <= a <= 1_000_000_000_000_000_000,
    ensures
        r as int == fp_sqrt_s(a as int),
        is_sqrt_floor(a * SCALE, r as int),
        0 <= r <= 1_000_000_000_000,
{
    let n: i128 = (a as i128) * 1_000_000;
    let r = isqrt(n);
    proof {
        lemma_sqrt_le(r as int, 1_000_000_000_000int);
    }
    r as i64
}

/// Clamp a channel into [0, SCALE].
pub fn clamp_unit(a: i64) -> (r: i64)
    ensures
        r as int == clamp_unit_s(a as int),
        0 <= r <= SCALE,
{
    if a < 0 {
        0
    } else if a > SCALE {
        SCALE
    } else {
        a
    }
}

} // verus!
