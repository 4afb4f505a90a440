//! A 4x3 affine transform over integer coordinates: a 3x3 linear part
//! and a translation row. Only the affine plumbing the mesh editor needs
//! lives here; angle-based setups belong to a floating-point layer
//! outside this crate.

use vstd::prelude::*;
use crate::vector3::{in_coord_range, Vector3, COORD_LIMIT};

verus! {

#[derive(Clone, Copy, PartialEq, Eq, Structural, Debug)]
pub struct Matrix4x3 {
    pub m11: i64,
    pub m12: i64,
    pub m13: i64,
    pub m21: i64,
    pub m22: i64,
    pub m23: i64,
    pub m31: i64,
    pub m32: i64,
    pub m33: i64,
    pub tx: i64,
    pub ty: i64,
    pub tz: i64,
}

/// Coordinates of the affine image `p * m` (row-vector convention).
pub open spec fn transformed_x(m: Matrix4x3, p: Vector3) -> int {
    p.x * m.m11 + p.y * m.m21 + p.z * m.m31 + m.tx
}

pub open spec fn transformed_y(m: Matrix4x3, p: Vector3) -> int {
    p.x * m.m12 + p.y * m.m22 + p.z * m.m32 + m.ty
}

pub open spec fn transformed_z(m: Matrix4x3, p: Vector3) -> int {
    p.x * m.m13 + p.y * m.m23 + p.z * m.m33 + m.tz
}

/// The image of `p` under `m` fits in 64-bit coordinates.
pub open spec fn transform_fits(m: Matrix4x3, p: Vector3) -> bool {
    &&& i64::MIN <= transformed_x(m, p) <= i64::MAX
    &&& i64::MIN <= transformed_y(m, p) <= i64::MAX
    &&& i64::MIN <= transformed_z(m, p) <= i64::MAX
}

/// Every matrix entry within the shared coordinate limit.
pub open spec fn matrix_in_range(m: Matrix4x3) -> bool {
    &&& -COORD_LIMIT <= m.m11 <= COORD_LIMIT
    &&& -COORD_LIMIT <= m.m12 <= COORD_LIMIT
    &&& -COORD_LIMIT <= m.m13 <= COORD_LIMIT
    &&& -COORD_LIMIT <= m.m21 <= COORD_LIMIT
    &&& -COORD_LIMIT <= m.m22 <= COORD_LIMIT
    &&& -COORD_LIMIT <= m.m23 <= COORD_LIMIT
    &&& -COORD_LIMIT <= m.m31 <= COORD_LIMIT
    &&& -COORD_LIMIT <= m.m32 <= COORD_LIMIT
    &&& -COORD_LIMIT <= m.m33 <= COORD_LIMIT
    &&& -COORD_LIMIT <= m.tx <= COORD_LIMIT
    &&& -COORD_LIMIT <= m.ty <= COORD_LIMIT
    &&& -COORD_LIMIT <= m.tz <= COORD_LIMIT
}

pub open spec fn spec_identity() -> Matrix4x3 {
    Matrix4x3 {
        m11: 1i64, m12: 0i64, m13: 0i64,
        m21: 0i64, m22: 1i64, m23: 0i64,
        m31: 0i64, m32: 0i64, m33: 1i64,
        tx: 0i64, ty: 0i64, tz: 0i64,
    }
}

impl Matrix4x3 {
    pub fn identity() -> (r: Matrix4x3)
        ensures
            r == spec_identity(),
    {
        Matrix4x3 {
            m11: 1, m12: 0, m13: 0,
            m21: 0, m22: 1, m23: 0,
            m31: 0, m32: 0, m33: 1,
            tx: 0, ty: 0, tz: 0,
        }
    }

    pub fn set_identity(&mut self)
        ensures
            *final(self) == spec_identity(),
    {
        self.m11 = 1;
        self.m12 = 0;
        self.m13 = 0;
        self.m21 = 0;
        self.m22 = 1;
        self.m23 = 0;
        self.m31 = 0;
        self.m32 = 0;
        self.m33 = 1;
        self.tx = 0;
        self.ty = 0;
        self.tz = 0;
    }

    pub fn zero_translation(&mut self)
        ensures
            *final(self) == (Matrix4x3 { tx: 0i64, ty: 0i64, tz: 0i64, ..*old(self) }),
    {
        self.tx = 0;
        self.ty = 0;
        self.tz = 0;
    }

    pub fn set_translation(&mut self, d: &Vector3)
        ensures
            *final(self) == (Matrix4x3 { tx: d.x, ty: d.y, tz: d.z, ..*old(self) }),
    {
        self.tx = d.x;
        self.ty = d.y;
        self.tz = d.z;
    }

    /// Make `self` a pure translation by `d`.
    pub fn setup_translation(&mut self, d: &Vector3)
        ensures
            *final(self) == (Matrix4x3 { tx: d.x, ty: d.y, tz: d.z, ..spec_identity() }),
    {
        self.set_identity();
        self.set_translation(d);
    }

    pub fn get_translation(&self) -> (r: Vector3)
        ensures
            r == (Vector3 { x: self.tx, y: self.ty, z: self.tz }),
    {
        Vector3 { x: self.tx, y: self.ty, z: self.tz }
    }

    /// Affine image of a point.
    pub fn transform_point(&self, p: &Vector3) -> (r: Vector3)
        requires
            matrix_in_range(*self),
            in_coord_range(*p),
            transform_fits(*self, *p),
        ensures
            r.x == transformed_x(*self, *p),
            r.y == transformed_y(*self, *p),
            r.z == transformed_z(*self, *p),
    {
        proof {
            lemma_row_fits(p.x as int, p.y as int, p.z as int,
                self.m11 as int, self.m21 as int, self.m31 as int, self.tx as int);
            lemma_row_fits(p.x as int, p.y as int, p.z as int,
                self.m12 as int, self.m22 as int, self.m32 as int, self.ty as int);
            lemma_row_fits(p.x as int, p.y as int, p.z as int,
                self.m13 as int, self.m23 as int, self.m33 as int, self.tz as int);
        }
        let rx = (p.x as i128) * (self.m11 as i128) + (p.y as i128) * (self.m21 as i128)
            + (p.z as i128) * (self.m31 as i128) + (self.tx as i128);
        let ry = (p.x as i128) * (self.m12 as i128) + (p.y as i128) * (self.m22 as i128)
            + (p.z as i128) * (self.m32 as i128) + (self.ty as i128);
        let rz = (p.x as i128) * (self.m13 as i128) + (p.y as i128) * (self.m23 as i128)
            + (p.z as i128) * (self.m33 as i128) + (self.tz as i128);
        Vector3 { x: rx as i64, y: ry as i64, z: rz as i64 }
    }
}

/// Three coordinate/element products and a translation term, evaluated in
/// 128 bits, cannot overflow.
proof fn lemma_row_fits(x: int, y: int, z: int, a: int, b: int, c: int, t: int)
    requires
        -COORD_LIMIT <= x <= COORD_LIMIT,
        -COORD_LIMIT <= y <= COORD_LIMIT,
        -COORD_LIMIT <= z <= COORD_LIMIT,
        -COORD_LIMIT <= a <= COORD_LIMIT,
        -COORD_LIMIT <= b <= COORD_LIMIT,
        -COORD_LIMIT <= c <= COORD_LIMIT,
        -COORD_LIMIT <= t <= COORD_LIMIT,
    ensures
        i128::MIN <= x * a <= i128::MAX,
        i128::MIN <= y * b <= i128::MAX,
        i128::MIN <= z * c <= i128::MAX,
        i128::MIN <= x * a + y * b <= i128::MAX,
        i128::MIN <= x * a + y * b + z * c <= i128::MAX,
        i128::MIN <= x * a + y * b + z * c + t <= i128::MAX,
{
    let lim = COORD_LIMIT as int;
    assert(-(lim * lim) <= x * a <= lim * lim) by (nonlinear_arith)
        requires -lim <= x <= lim, -lim <= a <= lim, lim == COORD_LIMIT as int;
    assert(-(lim * lim) <= y * b <= lim * lim) by (nonlinear_arith)
        requires -lim <= y <= lim, -lim <= b <= lim, lim == COORD_LIMIT as int;
    assert(-(lim * lim) <= z * c <= lim * lim) by (nonlinear_arith)
        requires -lim <= z <= lim, -lim <= c <= lim, lim == COORD_LIMIT as int;
}

} // verus!
