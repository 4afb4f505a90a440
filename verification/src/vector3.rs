//! Three-component integer vectors: the coordinate type of the whole
//! toolkit. Derived unit vectors (results of `normalize`) are stored in
//! millionths of a unit (`NORM_ONE`).

use vstd::prelude::*;
use crate::num::{div_trunc, sqrt_floor, NORM_ONE};
use crate::num::{div_trunc_i128, isqrt_u128};
use crate::num::{lemma_div_trunc_le, lemma_sqrt_floor, lemma_sqrt_floor_ge};

verus! {

/// Coordinate magnitude accepted by the squared-length queries; it keeps
/// sums of three squared differences inside `i128`.
pub const COORD_LIMIT: i64 = 1_000_000_000_000_000_000;

#[derive(Clone, Copy, PartialEq, Eq, Structural, Debug)]
pub struct Vector3 {
    pub x: i64,
    pub y: i64,
    pub z: i64,
}

/// Mathematical dot product.
pub open spec fn spec_dot(a: Vector3, b: Vector3) -> int {
    a.x * b.x + a.y * b.y + a.z * b.z
}

/// Squared Euclidean length.
pub open spec fn norm_sq(a: Vector3) -> int {
    spec_dot(a, a)
}

/// Components of the mathematical cross product `a x b`.
pub open spec fn cross_x(a: Vector3, b: Vector3) -> int {
    a.y * b.z - a.z * b.y
}

pub open spec fn cross_y(a: Vector3, b: Vector3) -> int {
    a.z * b.x - a.x * b.z
}

pub open spec fn cross_z(a: Vector3, b: Vector3) -> int {
    a.x * b.y - a.y * b.x
}

/// Squared Euclidean distance between two points.
pub open spec fn spec_distance_sq(a: Vector3, b: Vector3) -> int {
    (a.x - b.x) * (a.x - b.x) + (a.y - b.y) * (a.y - b.y) + (a.z - b.z) * (a.z - b.z)
}

/// All three coordinates within `COORD_LIMIT`.
pub open spec fn in_coord_range(v: Vector3) -> bool {
    &&& -COORD_LIMIT <= v.x <= COORD_LIMIT
    &&& -COORD_LIMIT <= v.y <= COORD_LIMIT
    &&& -COORD_LIMIT <= v.z <= COORD_LIMIT
}

/// What `normalize` leaves behind: the zero vector is kept, any other
/// vector is scaled to length `NORM_ONE` (truncating toward zero), using
/// the floor of the true length as the divisor.
pub open spec fn spec_normalize(v: Vector3) -> Vector3 {
    if norm_sq(v) == 0 {
        v
    } else {
        let m = sqrt_floor(norm_sq(v));
        Vector3 {
            x: div_trunc(v.x * NORM_ONE, m) as i64,
            y: div_trunc(v.y * NORM_ONE, m) as i64,
            z: div_trunc(v.z * NORM_ONE, m) as i64,
        }
    }
}

/// Exact product of two coordinates, widened so it cannot overflow.
fn mul_coord(a: i64, b: i64) -> (r: i128)
    ensures
        r == a * b,
{
    proof {
        assert(i128::MIN <= (a as int) * (b as int) <= i128::MAX) by (nonlinear_arith)
            requires
                i64::MIN <= a <= i64::MAX,
                i64::MIN <= b <= i64::MAX,
        ;
    }
    (a as i128) * (b as i128)
}

impl Vector3 {
    pub fn new(x: i64, y: i64, z: i64) -> (r: Vector3)
        ensures
            r == (Vector3 { x, y, z }),
    {
        Vector3 { x, y, z }
    }

    pub fn zero() -> (r: Vector3)
        ensures
            r == (Vector3 { x: 0i64, y: 0i64, z: 0i64 }),
    {
        Vector3 { x: 0, y: 0, z: 0 }
    }

    pub fn set_to_zero(&mut self)
        ensures
            *final(self) == (Vector3 { x: 0i64, y: 0i64, z: 0i64 }),
    {
        self.x = 0;
        self.y = 0;
        self.z = 0;
    }

    pub fn identity() -> (r: Vector3)
        ensures
            r == (Vector3 { x: 1i64, y: 1i64, z: 1i64 }),
    {
        Vector3 { x: 1, y: 1, z: 1 }
    }

    pub fn eq(&self, other: &Vector3) -> (r: bool)
        ensures
            r <==> *self == *other,
    {
        self.x == other.x && self.y == other.y && self.z == other.z
    }

    pub fn not_eq(&self, other: &Vector3) -> (r: bool)
        ensures
            r <==> *self != *other,
    {
        self.x != other.x || self.y != other.y || self.z != other.z
    }

    pub fn neg(&self) -> (r: Vector3)
        requires
            self.x > i64::MIN,
            self.y > i64::MIN,
            self.z > i64::MIN,
        ensures
            r.x == -self.x,
            r.y == -self.y,
            r.z == -self.z,
    {
        Vector3 { x: -self.x, y: -self.y, z: -self.z }
    }

    pub fn add(&self, other: &Vector3) -> (r: Vector3)
        requires
            i64::MIN <= self.x + other.x <= i64::MAX,
            i64::MIN <= self.y + other.y <= i64::MAX,
            i64::MIN <= self.z + other.z <= i64::MAX,
        ensures
            r.x == self.x + other.x,
            r.y == self.y + other.y,
            r.z == self.z + other.z,
    {
        Vector3 { x: self.x + other.x, y: self.y + other.y, z: self.z + other.z }
    }

    pub fn sub(&self, other: &Vector3) -> (r: Vector3)
        requires
            i64::MIN <= self.x - other.x <= i64::MAX,
            i64::MIN <= self.y - other.y <= i64::MAX,
            i64::MIN <= self.z - other.z <= i64::MAX,
        ensures
            r.x == self.x - other.x,
            r.y == self.y - other.y,
            r.z == self.z - other.z,
    {
        Vector3 { x: self.x - other.x, y: self.y - other.y, z: self.z - other.z }
    }

    pub fn copy(&mut self, other: &Vector3)
        ensures
            *final(self) == *other,
    {
        self.x = other.x;
        self.y = other.y;
        self.z = other.z;
    }

    /// Exact dot product, widened so the usual coordinate range cannot
    /// overflow it.
    pub fn dot(&self, other: &Vector3) -> (r: i128)
        requires
            in_coord_range(*self),
            in_coord_range(*other),
        ensures
            r == spec_dot(*self, *other),
    {
        let px = mul_coord(self.x, other.x);
        let py = mul_coord(self.y, other.y);
        let pz = mul_coord(self.z, other.z);
        proof {
            lemma_coord_product_bound(self.x as int, other.x as int);
            lemma_coord_product_bound(self.y as int, other.y as int);
            lemma_coord_product_bound(self.z as int, other.z as int);
        }
        px + py + pz
    }

    /// Floor of the Euclidean length.
    pub fn magnitude(&self) -> (r: i64)
        requires
            in_coord_range(*self),
        ensures
            r == sqrt_floor(norm_sq(*self)),
            r >= 0,
    {
        proof {
            lemma_square_nonneg(self.x as int);
            lemma_square_nonneg(self.y as int);
            lemma_square_nonneg(self.z as int);
            lemma_coord_product_bound(self.x as int, self.x as int);
            lemma_coord_product_bound(self.y as int, self.y as int);
            lemma_coord_product_bound(self.z as int, self.z as int);
        }
        let d = self.dot(self);
        let m = isqrt_u128(d as u128);
        proof {
            lemma_sqrt_floor_small(norm_sq(*self), m as int);
        }
        m as i64
    }

    /// Scale the vector to length `NORM_ONE`, truncating toward zero;
    /// the zero vector is left unchanged.
    pub fn normalize(&mut self)
        ensures
            *final(self) == spec_normalize(*old(self)),
    {
        proof {
            lemma_square_nonneg(self.x as int);
            lemma_square_nonneg(self.y as int);
            lemma_square_nonneg(self.z as int);
        }
        let ux: u128 = if self.x >= 0 { self.x as u128 } else { (-(self.x as i128)) as u128 };
        let uy: u128 = if self.y >= 0 { self.y as u128 } else { (-(self.y as i128)) as u128 };
        let uz: u128 = if self.z >= 0 { self.z as u128 } else { (-(self.z as i128)) as u128 };
        proof {
            assert(ux * ux == self.x * self.x) by (nonlinear_arith)
                requires ux == self.x || ux == -(self.x as int), ux >= 0;
            assert(uy * uy == self.y * self.y) by (nonlinear_arith)
                requires uy == self.y || uy == -(self.y as int), uy >= 0;
            assert(uz * uz == self.z * self.z) by (nonlinear_arith)
                requires uz == self.z || uz == -(self.z as int), uz >= 0;
            assert(ux * ux + uy * uy + uz * uz <= u128::MAX) by (nonlinear_arith)
                requires
                    ux <= 0x8000_0000_0000_0000,
                    uy <= 0x8000_0000_0000_0000,
                    uz <= 0x8000_0000_0000_0000,
            ;
        }
        let d: u128 = ux * ux + uy * uy + uz * uz;
        if d == 0 {
            proof {
                assert(self.x == 0 && self.y == 0 && self.z == 0) by (nonlinear_arith)
                    requires
                        ux * ux + uy * uy + uz * uz == 0,
                        ux == self.x || ux == -(self.x as int),
                        uy == self.y || uy == -(self.y as int),
                        uz == self.z || uz == -(self.z as int),
                        ux >= 0, uy >= 0, uz >= 0,
                ;
            }
            return;
        }
        let m = isqrt_u128(d);
        proof {
            assert(d as int == norm_sq(*self));
            lemma_sqrt_floor(d as int);
            assert(m >= 1) by {
                assert(1 * 1 <= d as int);
                lemma_sqrt_floor_ge(1, d as int);
            }
            lemma_coord_le_sqrt(self.x as int, ux as int, d as int);
            lemma_coord_le_sqrt(self.y as int, uy as int, d as int);
            lemma_coord_le_sqrt(self.z as int, uz as int, d as int);
        }
        self.x = normalized_coord(self.x, m);
        self.y = normalized_coord(self.y, m);
        self.z = normalized_coord(self.z, m);
    }
}

/// One coordinate of a normalized vector: `c * NORM_ONE / m`, where `m`
/// is the floor length of the whole vector, so `c * c <= m * m + ...`.
fn normalized_coord(c: i64, m: u64) -> (r: i64)
    requires
        m >= 1,
        -(m as int) <= c <= m as int,
    ensures
        r == div_trunc(c * NORM_ONE, m as int),
        -NORM_ONE <= r <= NORM_ONE,
{
    proof {
        assert(-(NORM_ONE as int) * (m as int) <= c * NORM_ONE <= (NORM_ONE as int) * (m as int))
            by (nonlinear_arith)
            requires -(m as int) <= c <= m as int;
        lemma_div_trunc_le(c * NORM_ONE, m as int, NORM_ONE as int);
        assert(vstd::math::abs(m as int) == m as int);
        assert(i128::MIN < (c as int) * (NORM_ONE as int)) by (nonlinear_arith)
            requires i64::MIN <= c <= i64::MAX;
    }
    let wide = div_trunc_i128(mul_coord(c, NORM_ONE), m as i128);
    wide as i64
}

/// The product of two in-range coordinates stays well inside `i128`.
proof fn lemma_coord_product_bound(a: int, b: int)
    requires
        -COORD_LIMIT <= a <= COORD_LIMIT,
        -COORD_LIMIT <= b <= COORD_LIMIT,
    ensures
        -(COORD_LIMIT as int) * (COORD_LIMIT as int) <= a * b
            <= (COORD_LIMIT as int) * (COORD_LIMIT as int),
{
    assert(-(COORD_LIMIT as int) * (COORD_LIMIT as int) <= a * b
        <= (COORD_LIMIT as int) * (COORD_LIMIT as int)) by (nonlinear_arith)
        requires
            -COORD_LIMIT <= a <= COORD_LIMIT,
            -COORD_LIMIT <= b <= COORD_LIMIT,
    ;
}

proof fn lemma_square_nonneg(a: int)
    ensures
        a * a >= 0,
{
    assert(a * a >= 0) by (nonlinear_arith);
}

/// A normalized vector's coordinates are unit-scale: each lies within
/// `NORM_ONE` of zero.
pub proof fn lemma_spec_normalize_bounded(v: Vector3)
    ensures
        -NORM_ONE <= spec_normalize(v).x <= NORM_ONE,
        -NORM_ONE <= spec_normalize(v).y <= NORM_ONE,
        -NORM_ONE <= spec_normalize(v).z <= NORM_ONE,
{
    lemma_square_nonneg(v.x as int);
    lemma_square_nonneg(v.y as int);
    lemma_square_nonneg(v.z as int);
    if norm_sq(v) == 0 {
        assert(v.x == 0 && v.y == 0 && v.z == 0) by (nonlinear_arith)
            requires
                v.x * v.x + v.y * v.y + v.z * v.z == 0,
                v.x * v.x >= 0,
                v.y * v.y >= 0,
                v.z * v.z >= 0,
        ;
    } else {
        let d = norm_sq(v);
        let m = sqrt_floor(d);
        lemma_sqrt_floor(d);
        assert(m >= 1) by {
            assert(1 * 1 <= d);
            lemma_sqrt_floor_ge(1, d);
        }
        lemma_normalize_coord_bounded(v.x as int, d, v.y * v.y + v.z * v.z);
        lemma_normalize_coord_bounded(v.y as int, d, v.x * v.x + v.z * v.z);
        lemma_normalize_coord_bounded(v.z as int, d, v.x * v.x + v.y * v.y);
    }
}

/// One coordinate of the normalization quotient is bounded by the
/// scale, because no coordinate exceeds the vector's length.
proof fn lemma_normalize_coord_bounded(c: int, d: int, rest: int)
    requires
        d == c * c + rest,
        rest >= 0,
        d >= 1,
    ensures
        -NORM_ONE <= div_trunc(c * NORM_ONE, sqrt_floor(d)) <= NORM_ONE,
{
    let m = sqrt_floor(d);
    lemma_sqrt_floor(d);
    assert(m >= 1) by {
        assert(1 * 1 <= d);
        lemma_sqrt_floor_ge(1, d);
    }
    lemma_square_nonneg(c);
    let u = if c >= 0 { c } else { -c };
    assert(u * u == c * c) by (nonlinear_arith)
        requires u == c || u == -c;
    lemma_sqrt_floor_ge(u, d);
    assert(-(NORM_ONE as int) * m <= c * NORM_ONE <= (NORM_ONE as int) * m) by (nonlinear_arith)
        requires -m <= c <= m, NORM_ONE == 1_000_000i64;
    lemma_div_trunc_le(c * NORM_ONE, m, NORM_ONE as int);
    assert(vstd::math::abs(m) == m);
}

/// A coordinate whose square is part of `d` is bounded by `sqrt_floor(d)`.
proof fn lemma_coord_le_sqrt(c: int, u: int, d: int)
    requires
        u == c || u == -c,
        u >= 0,
        u * u <= d,
    ensures
        -sqrt_floor(d) <= c <= sqrt_floor(d),
{
    lemma_sqrt_floor_ge(u, d);
}

/// Squares below the bracket of `m` pin the square root down.
proof fn lemma_sqrt_floor_small(n: int, m: int)
    requires
        n >= 0,
        m == sqrt_floor(n),
        n <= 3 * (COORD_LIMIT as int) * (COORD_LIMIT as int),
    ensures
        0 <= m <= 2 * COORD_LIMIT as int,
{
    lemma_sqrt_floor(n);
    if m > 2 * COORD_LIMIT as int {
        assert(m * m > 3 * (COORD_LIMIT as int) * (COORD_LIMIT as int)) by (nonlinear_arith)
            requires m > 2 * COORD_LIMIT as int;
    }
}

/// Exact cross product; the caller keeps each resulting component within
/// `i64`, which holds whenever the operands' coordinates stay within
/// two billion or so.
pub fn cross_product(a: &Vector3, b: &Vector3) -> (r: Vector3)
    requires
        i64::MIN <= cross_x(*a, *b) <= i64::MAX,
        i64::MIN <= cross_y(*a, *b) <= i64::MAX,
        i64::MIN <= cross_z(*a, *b) <= i64::MAX,
    ensures
        r.x == cross_x(*a, *b),
        r.y == cross_y(*a, *b),
        r.z == cross_z(*a, *b),
{
    let rx = mul_coord(a.y, b.z) - mul_coord(a.z, b.y);
    let ry = mul_coord(a.z, b.x) - mul_coord(a.x, b.z);
    let rz = mul_coord(a.x, b.y) - mul_coord(a.y, b.x);
    proof {
        lemma_i64_products_fit(a.y as int, b.z as int, a.z as int, b.y as int);
        lemma_i64_products_fit(a.z as int, b.x as int, a.x as int, b.z as int);
        lemma_i64_products_fit(a.x as int, b.y as int, a.y as int, b.x as int);
    }
    Vector3 { x: rx as i64, y: ry as i64, z: rz as i64 }
}

/// A difference of two products of `i64` values fits in `i128`.
proof fn lemma_i64_products_fit(a: int, b: int, c: int, d: int)
    requires
        i64::MIN <= a <= i64::MAX,
        i64::MIN <= b <= i64::MAX,
        i64::MIN <= c <= i64::MAX,
        i64::MIN <= d <= i64::MAX,
    ensures
        i128::MIN <= a * b - c * d <= i128::MAX,
{
    assert(i128::MIN <= a * b - c * d <= i128::MAX) by (nonlinear_arith)
        requires
            i64::MIN <= a <= i64::MAX,
            i64::MIN <= b <= i64::MAX,
            i64::MIN <= c <= i64::MAX,
            i64::MIN <= d <= i64::MAX,
    ;
}

/// Floor of the Euclidean distance between two points.
pub fn distance(a: &Vector3, b: &Vector3) -> (r: i64)
    requires
        in_coord_range(*a),
        in_coord_range(*b),
    ensures
        r == sqrt_floor(spec_distance_sq(*a, *b)),
        r >= 0,
{
    let dx = a.x - b.x;
    let dy = a.y - b.y;
    let dz = a.z - b.z;
    let d = distance_squared(a, b);
    proof {
        lemma_square_nonneg(dx as int);
        lemma_square_nonneg(dy as int);
        lemma_square_nonneg(dz as int);
        lemma_diff_square_bound(a.x as int, b.x as int);
        lemma_diff_square_bound(a.y as int, b.y as int);
        lemma_diff_square_bound(a.z as int, b.z as int);
        lemma_sqrt_floor_bound_2x(spec_distance_sq(*a, *b));
    }
    let m = isqrt_u128(d as u128);
    m as i64
}

/// Square roots of sums of three squared coordinate differences stay
/// within twice the coordinate limit.
proof fn lemma_sqrt_floor_bound_2x(n: int)
    requires
        n >= 0,
        n <= 3 * (2 * COORD_LIMIT as int) * (2 * COORD_LIMIT as int),
    ensures
        0 <= sqrt_floor(n) <= 4 * COORD_LIMIT as int,
{
    lemma_sqrt_floor(n);
    let m = sqrt_floor(n);
    if m > 4 * COORD_LIMIT as int {
        assert(m * m > 3 * (2 * COORD_LIMIT as int) * (2 * COORD_LIMIT as int))
            by (nonlinear_arith)
            requires m > 4 * COORD_LIMIT as int;
    }
}

/// Exact squared distance.
pub fn distance_squared(a: &Vector3, b: &Vector3) -> (r: i128)
    requires
        in_coord_range(*a),
        in_coord_range(*b),
    ensures
        r == spec_distance_sq(*a, *b),
{
    let dx = a.x - b.x;
    let dy = a.y - b.y;
    let dz = a.z - b.z;
    let px = mul_coord(dx, dx);
    let py = mul_coord(dy, dy);
    let pz = mul_coord(dz, dz);
    proof {
        lemma_diff_square_bound(a.x as int, b.x as int);
        lemma_diff_square_bound(a.y as int, b.y as int);
        lemma_diff_square_bound(a.z as int, b.z as int);
    }
    px + py + pz
}

/// Squared differences of in-range coordinates stay small enough to sum.
proof fn lemma_diff_square_bound(a: int, b: int)
    requires
        -COORD_LIMIT <= a <= COORD_LIMIT,
        -COORD_LIMIT <= b <= COORD_LIMIT,
    ensures
        0 <= (a - b) * (a - b) <= (2 * COORD_LIMIT as int) * (2 * COORD_LIMIT as int),
{
    assert(0 <= (a - b) * (a - b) <= (2 * COORD_LIMIT as int) * (2 * COORD_LIMIT as int))
        by (nonlinear_arith)
        requires
            -COORD_LIMIT <= a <= COORD_LIMIT,
            -COORD_LIMIT <= b <= COORD_LIMIT,
    ;
}

} // verus!
