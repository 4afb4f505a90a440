//! Shared integer arithmetic: the fixed-point scale for parametric
//! times and unit vectors, truncated signed division, and an integer
//! square root.

use vstd::prelude::*;

verus! {

/// One whole unit of parametric time, in millionths.
pub const T_ONE: i64 = 1_000_000;

/// Scale at which derived unit vectors (normals) are stored: a vector of
/// length one has coordinates of magnitude up to `NORM_ONE`.
pub const NORM_ONE: i64 = 1_000_000;

/// Sentinel returned by the intersection queries when there is no hit.
/// It is larger than any meaningful parametric time.
pub const NO_INTERSECTION: i64 = i64::MAX;

/// Mathematical truncated division (rounding toward zero), the rounding
/// used by Rust's `/` on signed integers.
pub open spec fn div_trunc(a: int, b: int) -> int {
    if a >= 0 {
        if b >= 0 {
            a / b
        } else {
            -(a / -b)
        }
    } else {
        if b >= 0 {
            -(-a / b)
        } else {
            -a / -b
        }
    }
}

/// Truncated division on 128-bit integers.
pub fn div_trunc_i128(a: i128, b: i128) -> (r: i128)
    requires
        b != 0,
        a > i128::MIN,
        b > i128::MIN,
    ensures
        r == div_trunc(a as int, b as int),
{
    let na: u128 = if a >= 0 {
        a as u128
    } else {
        (-a) as u128
    };
    let nb: u128 = if b >= 0 {
        b as u128
    } else {
        (-b) as u128
    };
    let q: u128 = na / nb;
    assert(q <= na) by {
        vstd::arithmetic::div_mod::lemma_div_nonincreasing(na as int, nb as int);
    }
    if (a >= 0) == (b >= 0) {
        q as i128
    } else {
        -(q as i128)
    }
}

/// Bounds on a truncated quotient: if `|a| <= k * |b|` then the
/// quotient lies in `[-k, k]`, and it keeps the sign of `a / b`.
pub proof fn lemma_div_trunc_le(a: int, b: int, k: int)
    requires
        b != 0,
        k >= 0,
        -k * vstd::math::abs(b) <= a <= k * vstd::math::abs(b),
    ensures
        -k <= div_trunc(a, b) <= k,
{
    let n = vstd::math::abs(a) as int;
    let d = vstd::math::abs(b) as int;
    assert(n == a || n == -a);
    assert(-k * d <= a <= k * d);
    assert(n <= k * d) by (nonlinear_arith)
        requires
            -k * d <= a <= k * d,
            n == a || n == -a,
            k >= 0,
            d >= 0,
    ;
    assert(0 <= n / d <= k) by {
        vstd::arithmetic::div_mod::lemma_div_pos_is_pos(n, d);
        vstd::arithmetic::div_mod::lemma_div_is_ordered(n, k * d, d);
        vstd::arithmetic::div_mod::lemma_div_by_multiple(k, d);
    }
    assert(div_trunc(a, b) == n / d || div_trunc(a, b) == -(n / d));
}

/// The quotient of non-negative operands is non-negative, and it is
/// positive only when the dividend reaches the divisor.
pub proof fn lemma_div_trunc_nonneg(a: int, b: int)
    requires
        a >= 0,
        b > 0,
    ensures
        div_trunc(a, b) == a / b,
        div_trunc(a, b) >= 0,
        a < b ==> div_trunc(a, b) == 0,
{
    vstd::arithmetic::div_mod::lemma_div_pos_is_pos(a, b);
    if a < b {
        vstd::arithmetic::div_mod::lemma_basic_div(a, b);
    }
}

/// Floor of the non-negative square root, defined by its
/// two-sided characterization; `lemma_sqrt_floor` shows the
/// characterization picks exactly one value.
pub open spec fn sqrt_floor(n: int) -> int {
    choose|r: int| 0 <= r && #[trigger] (r * r) <= n < (r + 1) * (r + 1)
}

/// For every `n >= 0` there is exactly one non-negative `r` with
/// `r * r <= n < (r + 1) * (r + 1)`, and `sqrt_floor(n)` is it.
pub proof fn lemma_sqrt_floor(n: int)
    requires
        n >= 0,
    ensures
        0 <= sqrt_floor(n),
        sqrt_floor(n) * sqrt_floor(n) <= n,
        n < (sqrt_floor(n) + 1) * (sqrt_floor(n) + 1),
    decreases n,
{
    if n == 0 {
        assert(0 * 0 <= 0 < (0 + 1) * (0 + 1));
        assert(exists|r: int| 0 <= r && #[trigger] (r * r) <= n < (r + 1) * (r + 1));
    } else {
        lemma_sqrt_floor(n - 1);
        let p = sqrt_floor(n - 1);
        if n < (p + 1) * (p + 1) {
            assert(0 <= p && p * p <= n < (p + 1) * (p + 1));
        } else {
            assert(n == (p + 1) * (p + 1));
            assert((p + 1) * (p + 1) < (p + 2) * (p + 2)) by (nonlinear_arith)
                requires p >= 0;
            assert(0 <= p + 1 && (p + 1) * (p + 1) <= n < (p + 2) * (p + 2));
        }
        assert(exists|r: int| 0 <= r && #[trigger] (r * r) <= n < (r + 1) * (r + 1));
    }
}

/// A witness matching the characterization equals `sqrt_floor(n)`.
pub proof fn lemma_sqrt_floor_unique(n: int, r: int)
    requires
        0 <= r,
        r * r <= n,
        n < (r + 1) * (r + 1),
    ensures
        sqrt_floor(n) == r,
{
    lemma_sqrt_floor(n);
    let s = sqrt_floor(n);
    if s < r {
        assert((s + 1) * (s + 1) <= r * r) by (nonlinear_arith)
            requires 0 <= s, s < r;
    }
    if r < s {
        assert((r + 1) * (r + 1) <= s * s) by (nonlinear_arith)
            requires 0 <= r, r < s;
    }
}

/// Any value whose square is at most `n` is at most `sqrt_floor(n)`.
pub proof fn lemma_sqrt_floor_ge(c: int, n: int)
    requires
        0 <= c,
        c * c <= n,
    ensures
        c <= sqrt_floor(n),
{
    lemma_sqrt_floor(n);
    let s = sqrt_floor(n);
    if s < c {
        assert((s + 1) * (s + 1) <= c * c) by (nonlinear_arith)
            requires 0 <= s, s < c;
    }
}

/// Floor square root of a 128-bit integer, by bisection.
pub fn isqrt_u128(n: u128) -> (r: u64)
    ensures
        r == sqrt_floor(n as int),
{
    let mut lo: u128 = 0;
    let mut hi: u128 = 0x1_0000_0000_0000_0000;
    proof {
        assert((0x1_0000_0000_0000_0000int) * (0x1_0000_0000_0000_0000int) > n);
    }
    while lo + 1 < hi
        invariant
            0 <= lo < hi <= 0x1_0000_0000_0000_0000,
            lo * lo <= n,
            n < hi * hi,
        decreases hi - lo,
    {
        let mid: u128 = lo + (hi - lo) / 2;
        assert(lo < mid < hi);
        assert(mid * mid < 0x1_0000_0000_0000_0000_0000_0000_0000_0000) by (nonlinear_arith)
            requires mid < 0x1_0000_0000_0000_0000;
        if mid * mid <= n {
            lo = mid;
        } else {
            hi = mid;
        }
    }
    proof {
        lemma_sqrt_floor_unique(n as int, lo as int);
    }
    lo as u64
}

} // verus!
