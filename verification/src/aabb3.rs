//! Axis-aligned bounding boxes over integer coordinates: construction,
//! containment, closest-point, and the static and parametric
//! intersection queries. An "empty" box is one inverted on some axis;
//! `empty()` produces the canonical empty box, whose bounds are the
//! extreme representable coordinates so that adding any point snaps the
//! box to exactly that point.

use vstd::prelude::*;
use vstd::math::{max, min};
use crate::vector3::{in_coord_range, spec_distance_sq, spec_dot, spec_normalize, Vector3};
use crate::vector3::distance_squared;
use crate::vector3::COORD_LIMIT;
use crate::matrix4x3::{matrix_in_range, Matrix4x3};
use crate::num::{div_trunc, NORM_ONE, NO_INTERSECTION, T_ONE};
use crate::num::{div_trunc_i128, lemma_div_trunc_le, lemma_div_trunc_nonneg};

verus! {

/// Normal components accepted by the plane queries; it keeps the box's
/// projection onto the plane normal inside `i128`.
pub const NORMAL_LIMIT: i64 = 1_000_000_000;

#[derive(Clone, Copy, PartialEq, Eq, Structural, Debug)]
pub struct AABB3 {
    pub min: Vector3,
    pub max: Vector3,
}

/// The canonical empty box: bounds inverted as far as they will go.
pub open spec fn empty_box() -> AABB3 {
    AABB3 {
        min: Vector3 { x: i64::MAX, y: i64::MAX, z: i64::MAX },
        max: Vector3 { x: i64::MIN, y: i64::MIN, z: i64::MIN },
    }
}

/// A box is empty when its bounds are inverted on at least one axis.
pub open spec fn spec_is_empty(b: AABB3) -> bool {
    b.min.x > b.max.x || b.min.y > b.max.y || b.min.z > b.max.z
}

/// Inclusive containment on all three axes.
pub open spec fn spec_contains(b: AABB3, p: Vector3) -> bool {
    &&& b.min.x <= p.x <= b.max.x
    &&& b.min.y <= p.y <= b.max.y
    &&& b.min.z <= p.z <= b.max.z
}

/// The box grown to cover `p`.
pub open spec fn spec_add_point(b: AABB3, p: Vector3) -> AABB3 {
    AABB3 {
        min: Vector3 {
            x: min(b.min.x as int, p.x as int) as i64,
            y: min(b.min.y as int, p.y as int) as i64,
            z: min(b.min.z as int, p.z as int) as i64,
        },
        max: Vector3 {
            x: max(b.max.x as int, p.x as int) as i64,
            y: max(b.max.y as int, p.y as int) as i64,
            z: max(b.max.z as int, p.z as int) as i64,
        },
    }
}

/// The union of two boxes' bounds.
pub open spec fn spec_add_aabb(b: AABB3, o: AABB3) -> AABB3 {
    AABB3 {
        min: Vector3 {
            x: min(b.min.x as int, o.min.x as int) as i64,
            y: min(b.min.y as int, o.min.y as int) as i64,
            z: min(b.min.z as int, o.min.z as int) as i64,
        },
        max: Vector3 {
            x: max(b.max.x as int, o.max.x as int) as i64,
            y: max(b.max.y as int, o.max.y as int) as i64,
            z: max(b.max.z as int, o.max.z as int) as i64,
        },
    }
}

/// Each coordinate of `p` clamped into the box's bounds.
pub open spec fn spec_closest_point(b: AABB3, p: Vector3) -> Vector3 {
    Vector3 {
        x: if p.x < b.min.x { b.min.x } else if p.x > b.max.x { b.max.x } else { p.x },
        y: if p.y < b.min.y { b.min.y } else if p.y > b.max.y { b.max.y } else { p.y },
        z: if p.z < b.min.z { b.min.z } else if p.z > b.max.z { b.max.z } else { p.z },
    }
}

/// Overlap of two boxes on all three axes.
pub open spec fn spec_boxes_overlap(a: AABB3, b: AABB3) -> bool {
    &&& a.min.x <= b.max.x && a.max.x >= b.min.x
    &&& a.min.y <= b.max.y && a.max.y >= b.min.y
    &&& a.min.z <= b.max.z && a.max.z >= b.min.z
}

/// The per-axis intersection of two boxes.
pub open spec fn spec_box_intersection(a: AABB3, b: AABB3) -> AABB3 {
    AABB3 {
        min: Vector3 {
            x: max(a.min.x as int, b.min.x as int) as i64,
            y: max(a.min.y as int, b.min.y as int) as i64,
            z: max(a.min.z as int, b.min.z as int) as i64,
        },
        max: Vector3 {
            x: min(a.max.x as int, b.max.x as int) as i64,
            y: min(a.max.y as int, b.max.y as int) as i64,
            z: min(a.max.z as int, b.max.z as int) as i64,
        },
    }
}

impl AABB3 {
    /// A fresh box starts out empty.
    pub fn new() -> (r: AABB3)
        ensures
            r == empty_box(),
    {
        AABB3 {
            min: Vector3 { x: i64::MAX, y: i64::MAX, z: i64::MAX },
            max: Vector3 { x: i64::MIN, y: i64::MIN, z: i64::MIN },
        }
    }

    pub fn size(&self) -> (r: Vector3)
        requires
            i64::MIN <= self.max.x - self.min.x <= i64::MAX,
            i64::MIN <= self.max.y - self.min.y <= i64::MAX,
            i64::MIN <= self.max.z - self.min.z <= i64::MAX,
        ensures
            r.x == self.max.x - self.min.x,
            r.y == self.max.y - self.min.y,
            r.z == self.max.z - self.min.z,
    {
        Vector3 {
            x: self.max.x - self.min.x,
            y: self.max.y - self.min.y,
            z: self.max.z - self.min.z,
        }
    }

    pub fn x_size(&self) -> (r: i64)
        requires
            i64::MIN <= self.max.x - self.min.x <= i64::MAX,
        ensures
            r == self.max.x - self.min.x,
    {
        self.max.x - self.min.x
    }

    pub fn y_size(&self) -> (r: i64)
        requires
            i64::MIN <= self.max.y - self.min.y <= i64::MAX,
        ensures
            r == self.max.y - self.min.y,
    {
        self.max.y - self.min.y
    }

    pub fn z_size(&self) -> (r: i64)
        requires
            i64::MIN <= self.max.z - self.min.z <= i64::MAX,
        ensures
            r == self.max.z - self.min.z,
    {
        self.max.z - self.min.z
    }

    /// Midpoint of the box, rounded toward zero on each axis.
    pub fn center(&self) -> (r: Vector3)
        requires
            i64::MIN <= self.min.x + self.max.x <= i64::MAX,
            i64::MIN <= self.min.y + self.max.y <= i64::MAX,
            i64::MIN <= self.min.z + self.max.z <= i64::MAX,
        ensures
            r.x == div_trunc(self.min.x + self.max.x, 2),
            r.y == div_trunc(self.min.y + self.max.y, 2),
            r.z == div_trunc(self.min.z + self.max.z, 2),
    {
        proof {
            lemma_halving_fits(self.min.x as int, self.max.x as int);
            lemma_halving_fits(self.min.y as int, self.max.y as int);
            lemma_halving_fits(self.min.z as int, self.max.z as int);
        }
        let cx = div_trunc_i128(self.min.x as i128 + self.max.x as i128, 2);
        let cy = div_trunc_i128(self.min.y as i128 + self.max.y as i128, 2);
        let cz = div_trunc_i128(self.min.z as i128 + self.max.z as i128, 2);
        Vector3 { x: cx as i64, y: cy as i64, z: cz as i64 }
    }

    /// One of the eight corner points: bit 0 of `i` selects X
    /// (0 = min, 1 = max), bit 1 selects Y, bit 2 selects Z.
    pub fn corner(&self, i: i32) -> (r: Vector3)
        requires
            0 <= i <= 7,
        ensures
            r.x == if i % 2 == 1 { self.max.x } else { self.min.x },
            r.y == if (i / 2) % 2 == 1 { self.max.y } else { self.min.y },
            r.z == if i / 4 == 1 { self.max.z } else { self.min.z },
    {
        Vector3 {
            x: if i % 2 == 1 { self.max.x } else { self.min.x },
            y: if (i / 2) % 2 == 1 { self.max.y } else { self.min.y },
            z: if i / 4 == 1 { self.max.z } else { self.min.z },
        }
    }

    /// Reset the box to the canonical empty state.
    pub fn empty(&mut self)
        ensures
            *final(self) == empty_box(),
            spec_is_empty(*final(self)),
    {
        self.min.x = i64::MAX;
        self.min.y = i64::MAX;
        self.min.z = i64::MAX;
        self.max.x = i64::MIN;
        self.max.y = i64::MIN;
        self.max.z = i64::MIN;
    }

    /// Expand the box as necessary to contain the point; each axis is
    /// compared against its own bound.
    pub fn add_point(&mut self, p: &Vector3)
        ensures
            *final(self) == spec_add_point(*old(self), *p),
            spec_contains(*final(self), *p),
            !spec_is_empty(*final(self)),
    {
        if p.x < self.min.x {
            self.min.x = p.x;
        }
        if p.x > self.max.x {
            self.max.x = p.x;
        }
        if p.y < self.min.y {
            self.min.y = p.y;
        }
        if p.y > self.max.y {
            self.max.y = p.y;
        }
        if p.z < self.min.z {
            self.min.z = p.z;
        }
        if p.z > self.max.z {
            self.max.z = p.z;
        }
    }

    /// Expand the box as necessary to contain another box; each axis is
    /// compared against its own bound.
    pub fn add_aabb(&mut self, box_aabb3: &AABB3)
        ensures
            *final(self) == spec_add_aabb(*old(self), *box_aabb3),
    {
        if box_aabb3.min.x < self.min.x {
            self.min.x = box_aabb3.min.x;
        }
        if box_aabb3.max.x > self.max.x {
            self.max.x = box_aabb3.max.x;
        }
        if box_aabb3.min.y < self.min.y {
            self.min.y = box_aabb3.min.y;
        }
        if box_aabb3.max.y > self.max.y {
            self.max.y = box_aabb3.max.y;
        }
        if box_aabb3.min.z < self.min.z {
            self.min.z = box_aabb3.min.z;
        }
        if box_aabb3.max.z > self.max.z {
            self.max.z = box_aabb3.max.z;
        }
    }

    /// True when the box is inverted on some axis.
    pub fn is_empty(&self) -> (r: bool)
        ensures
            r == spec_is_empty(*self),
    {
        (self.min.x > self.max.x) || (self.min.y > self.max.y) || (self.min.z > self.max.z)
    }

    /// Inclusive bound test on all three axes.
    pub fn contains(&self, p: &Vector3) -> (r: bool)
        ensures
            r == spec_contains(*self, *p),
    {
        (p.x >= self.min.x) && (p.x <= self.max.x) && (p.y >= self.min.y) && (p.y <= self.max.y)
            && (p.z >= self.min.z) && (p.z <= self.max.z)
    }

    /// The closest point of the box to `p`: `p` clamped into the bounds
    /// on each axis independently.
    pub fn closest_point_to(&self, p: &Vector3) -> (r: Vector3)
        ensures
            r == spec_closest_point(*self, *p),
    {
        let mut r = Vector3 { x: 0, y: 0, z: 0 };
        if p.x < self.min.x {
            r.x = self.min.x;
        } else if p.x > self.max.x {
            r.x = self.max.x;
        } else {
            r.x = p.x;
        }
        if p.y < self.min.y {
            r.y = self.min.y;
        } else if p.y > self.max.y {
            r.y = self.max.y;
        } else {
            r.y = p.y;
        }
        if p.z < self.min.z {
            r.z = self.min.z;
        } else if p.z > self.max.z {
            r.z = self.max.z;
        } else {
            r.z = p.z;
        }
        r
    }

    /// Sphere overlap, by the squared distance from the center to the
    /// closest point of the box. The comparison is strict, so a sphere
    /// exactly tangent to the box does not count as intersecting.
    pub fn intersects_sphere(&self, center: &Vector3, radius: i64) -> (r: bool)
        requires
            in_coord_range(self.min),
            in_coord_range(self.max),
            in_coord_range(*center),
        ensures
            r == (spec_distance_sq(*center, spec_closest_point(*self, *center))
                < radius * radius),
    {
        let closest_point = self.closest_point_to(center);
        proof {
            assert(i128::MIN <= (radius as int) * (radius as int) <= i128::MAX)
                by (nonlinear_arith)
                requires i64::MIN <= radius <= i64::MAX;
        }
        let rr = (radius as i128) * (radius as i128);
        distance_squared(center, &closest_point) < rr
    }

    /// Overlap test for two static boxes; on overlap, the boxes'
    /// per-axis intersection is returned with it.
    pub fn intersect_aabbs(box1: &AABB3, box2: &AABB3) -> (r: Option<AABB3>)
        ensures
            r.is_some() == spec_boxes_overlap(*box1, *box2),
            r.is_some() ==> r->Some_0 == spec_box_intersection(*box1, *box2),
    {
        if box1.min.x > box2.max.x {
            return None;
        }
        if box1.max.x < box2.min.x {
            return None;
        }
        if box1.min.y > box2.max.y {
            return None;
        }
        if box1.max.y < box2.min.y {
            return None;
        }
        if box1.min.z > box2.max.z {
            return None;
        }
        if box1.max.z < box2.min.z {
            return None;
        }
        let r = AABB3 {
            min: Vector3 {
                x: if box1.min.x > box2.min.x { box1.min.x } else { box2.min.x },
                y: if box1.min.y > box2.min.y { box1.min.y } else { box2.min.y },
                z: if box1.min.z > box2.min.z { box1.min.z } else { box2.min.z },
            },
            max: Vector3 {
                x: if box1.max.x < box2.max.x { box1.max.x } else { box2.max.x },
                y: if box1.max.y < box2.max.y { box1.max.y } else { box2.max.y },
                z: if box1.max.z < box2.max.z { box1.max.z } else { box2.max.z },
            },
        };
        Some(r)
    }

    /// Parametric ray/box intersection (the slab test). Returns the
    /// entry time in millionths of the ray's extent, in `[0, T_ONE]`,
    /// with the outward normal of the face hit (`NORM_ONE` scale), or
    /// `NO_INTERSECTION` and a zero normal. A ray starting inside the
    /// box reports time exactly `0` and the normalized opposite of the
    /// ray direction.
    pub fn ray_intersect(&self, ray_org: &Vector3, ray_delta: &Vector3) -> (r: (i64, Vector3))
        requires
            ray_delta.x > i64::MIN,
            ray_delta.y > i64::MIN,
            ray_delta.z > i64::MIN,
        ensures
            r.0 as int == spec_ray_intersect(*self, *ray_org, *ray_delta).0,
            r.1 == spec_ray_intersect(*self, *ray_org, *ray_delta).1,
            spec_contains(*self, *ray_org) ==> r.0 == 0,
            r.0 == NO_INTERSECTION || 0 <= r.0 <= T_ONE,
    {
        let no_hit = Vector3 { x: 0, y: 0, z: 0 };
        let sx = axis_slab_exec(ray_org.x, ray_delta.x, self.min.x, self.max.x);
        if sx.0 {
            return (NO_INTERSECTION, no_hit);
        }
        let sy = axis_slab_exec(ray_org.y, ray_delta.y, self.min.y, self.max.y);
        if sy.0 {
            return (NO_INTERSECTION, no_hit);
        }
        let sz = axis_slab_exec(ray_org.z, ray_delta.z, self.min.z, self.max.z);
        if sz.0 {
            return (NO_INTERSECTION, no_hit);
        }
        if sx.1 == -1 && sy.1 == -1 && sz.1 == -1 {
            let mut nvec = ray_delta.neg();
            nvec.normalize();
            return (0, nvec);
        }
        let mut t: i64 = sx.1;
        if sy.1 > t {
            t = sy.1;
        }
        if sz.1 > t {
            t = sz.1;
        }
        assert(t as int == vstd::math::max3(sx.1 as int, sy.1 as int, sz.1 as int));
        assert(t >= 0);
        if sz.1 > sx.1 && sz.1 > sy.1 {
            let x = point_at_exec(ray_org.x, ray_delta.x, t);
            if x < self.min.x as i128 || x > self.max.x as i128 {
                return (NO_INTERSECTION, no_hit);
            }
            let y = point_at_exec(ray_org.y, ray_delta.y, t);
            if y < self.min.y as i128 || y > self.max.y as i128 {
                return (NO_INTERSECTION, no_hit);
            }
            (t, Vector3 { x: 0, y: 0, z: sz.2 })
        } else if sy.1 > sx.1 {
            let x = point_at_exec(ray_org.x, ray_delta.x, t);
            if x < self.min.x as i128 || x > self.max.x as i128 {
                return (NO_INTERSECTION, no_hit);
            }
            let z = point_at_exec(ray_org.z, ray_delta.z, t);
            if z < self.min.z as i128 || z > self.max.z as i128 {
                return (NO_INTERSECTION, no_hit);
            }
            (t, Vector3 { x: 0, y: sy.2, z: 0 })
        } else {
            let y = point_at_exec(ray_org.y, ray_delta.y, t);
            if y < self.min.y as i128 || y > self.max.y as i128 {
                return (NO_INTERSECTION, no_hit);
            }
            let z = point_at_exec(ray_org.z, ray_delta.z, t);
            if z < self.min.z as i128 || z > self.max.z as i128 {
                return (NO_INTERSECTION, no_hit);
            }
            (t, Vector3 { x: sx.2, y: 0, z: 0 })
        }
    }

    /// Static box/plane classification for the plane `n . x = d`:
    /// `1` when the box lies wholly on the front side, `-1` wholly on
    /// the back side, `0` when it straddles the plane.
    pub fn classify_plane(&self, n: &Vector3, d: i64) -> (r: i32)
        requires
            normal_in_range(*n),
        ensures
            r as int == spec_classify_plane(*self, *n, d as int),
    {
        let (min_d, max_d) = box_proj_exec(self, n);
        if min_d >= d as i128 {
            return 1;
        }
        if max_d <= d as i128 {
            return -1;
        }
        0
    }

    /// Time of impact of the translating box against the stationary
    /// plane `n . x = plane_d`, front side only, in millionths of one
    /// step along `dir`. Returns `NO_INTERSECTION` when moving away
    /// from or parallel to the plane, or when the box is wholly behind
    /// it; `0` when already penetrating.
    pub fn intersect_plane(&self, n: &Vector3, plane_d: i64, dir: &Vector3) -> (r: i64)
        requires
            normal_in_range(*n),
            normal_in_range(*dir),
        ensures
            r as int == spec_intersect_plane(*self, *n, plane_d as int, *dir),
            r >= 0,
    {
        let dot = n.dot(dir);
        if dot >= 0 {
            return NO_INTERSECTION;
        }
        let (min_d, max_d) = box_proj_exec(self, n);
        if max_d <= plane_d as i128 {
            return NO_INTERSECTION;
        }
        proof {
            assert(-40_000_000_000_000_000_000_000_000_000_000_000 <= (plane_d as int - min_d)
                * (T_ONE as int) <= 40_000_000_000_000_000_000_000_000_000_000_000)
                by (nonlinear_arith)
                requires
                    -40_000_000_000_000_000_000_000_000_000 <= plane_d as int - min_d
                        <= 40_000_000_000_000_000_000_000_000_000,
                    T_ONE == 1_000_000i64,
            ;
            assert(-4_000_000_000_000_000_000 <= spec_dot(*n, *dir) <= 4_000_000_000_000_000_000)
                by (nonlinear_arith)
                requires
                    -1_000_000_000 <= n.x <= 1_000_000_000,
                    -1_000_000_000 <= n.y <= 1_000_000_000,
                    -1_000_000_000 <= n.z <= 1_000_000_000,
                    -1_000_000_000 <= dir.x <= 1_000_000_000,
                    -1_000_000_000 <= dir.y <= 1_000_000_000,
                    -1_000_000_000 <= dir.z <= 1_000_000_000,
            ;
        }
        let num: i128 = (plane_d as i128 - min_d) * (T_ONE as i128);
        let t = div_trunc_i128(num, dot);
        if t < 0 {
            return 0;
        }
        if t > NO_INTERSECTION as i128 {
            return NO_INTERSECTION;
        }
        t as i64
    }

    /// Time in `[0, T_ONE]` at which `moving_box`, translating by `d`
    /// over the frame, first overlaps `stationary_box` on all three
    /// axes, or `NO_INTERSECTION`. A hit at the sentinel time itself
    /// cannot occur since the sentinel exceeds `T_ONE`.
    pub fn intersect_moving_aabb(
        stationary_box: &AABB3,
        moving_box: &AABB3,
        d: &Vector3,
    ) -> (r: i64)
        ensures
            r as int == spec_intersect_moving_aabb(*stationary_box, *moving_box, *d),
            r == NO_INTERSECTION || 0 <= r <= T_ONE,
    {
        let mut t_enter: i128 = 0;
        let mut t_leave: i128 = T_ONE as i128;
        let rx = axis_interval_exec(t_enter, t_leave, stationary_box.min.x, stationary_box.max.x,
            moving_box.min.x, moving_box.max.x, d.x);
        if rx.0 {
            return NO_INTERSECTION;
        }
        t_enter = rx.1;
        t_leave = rx.2;
        let ry = axis_interval_exec(t_enter, t_leave, stationary_box.min.y, stationary_box.max.y,
            moving_box.min.y, moving_box.max.y, d.y);
        if ry.0 {
            return NO_INTERSECTION;
        }
        t_enter = ry.1;
        t_leave = ry.2;
        let rz = axis_interval_exec(t_enter, t_leave, stationary_box.min.z, stationary_box.max.z,
            moving_box.min.z, moving_box.max.z, d.z);
        if rz.0 {
            return NO_INTERSECTION;
        }
        rz.1 as i64
    }

    /// Compute the axis-aligned bounds of `box_aabb3` transformed by
    /// `m`, examining each matrix element's sign instead of all eight
    /// corners. An empty source box yields the canonical empty box.
    pub fn set_to_transformed_box(&mut self, box_aabb3: &AABB3, m: &Matrix4x3)
        requires
            !spec_is_empty(*box_aabb3) ==> {
                &&& matrix_in_range(*m)
                &&& in_coord_range(box_aabb3.min)
                &&& in_coord_range(box_aabb3.max)
                &&& xform_fits(*box_aabb3, *m)
            },
        ensures
            *final(self) == spec_transformed_box(*box_aabb3, *m),
    {
        if box_aabb3.is_empty() {
            self.empty();
            return;
        }
        let (xlo, xhi) = span_exec(m.m11, box_aabb3.min.x, box_aabb3.max.x);
        let (ylo_x, yhi_x) = span_exec(m.m21, box_aabb3.min.y, box_aabb3.max.y);
        let (zlo_x, zhi_x) = span_exec(m.m31, box_aabb3.min.z, box_aabb3.max.z);
        self.min.x = (m.tx as i128 + xlo + ylo_x + zlo_x) as i64;
        self.max.x = (m.tx as i128 + xhi + yhi_x + zhi_x) as i64;

        let (xlo_y, xhi_y) = span_exec(m.m12, box_aabb3.min.x, box_aabb3.max.x);
        let (ylo, yhi) = span_exec(m.m22, box_aabb3.min.y, box_aabb3.max.y);
        let (zlo_y, zhi_y) = span_exec(m.m32, box_aabb3.min.z, box_aabb3.max.z);
        self.min.y = (m.ty as i128 + xlo_y + ylo + zlo_y) as i64;
        self.max.y = (m.ty as i128 + xhi_y + yhi + zhi_y) as i64;

        let (xlo_z, xhi_z) = span_exec(m.m13, box_aabb3.min.x, box_aabb3.max.x);
        let (ylo_z, yhi_z) = span_exec(m.m23, box_aabb3.min.y, box_aabb3.max.y);
        let (zlo, zhi) = span_exec(m.m33, box_aabb3.min.z, box_aabb3.max.z);
        self.min.z = (m.tz as i128 + xlo_z + ylo_z + zlo) as i64;
        self.max.z = (m.tz as i128 + xhi_z + yhi_z + zhi) as i64;
    }
}

/// Executable form of `span_lo`/`span_hi` for one matrix element.
fn span_exec(e: i64, lo: i64, hi: i64) -> (r: (i128, i128))
    requires
        -COORD_LIMIT <= e <= COORD_LIMIT,
        -COORD_LIMIT <= lo <= COORD_LIMIT,
        -COORD_LIMIT <= hi <= COORD_LIMIT,
    ensures
        r.0 == span_lo(e as int, lo as int, hi as int),
        r.1 == span_hi(e as int, lo as int, hi as int),
        -(COORD_LIMIT as int) * (COORD_LIMIT as int) <= r.0
            <= (COORD_LIMIT as int) * (COORD_LIMIT as int),
        -(COORD_LIMIT as int) * (COORD_LIMIT as int) <= r.1
            <= (COORD_LIMIT as int) * (COORD_LIMIT as int),
{
    proof {
        lemma_span_product(e as int, lo as int);
        lemma_span_product(e as int, hi as int);
    }
    if e > 0 {
        ((e as i128) * (lo as i128), (e as i128) * (hi as i128))
    } else {
        ((e as i128) * (hi as i128), (e as i128) * (lo as i128))
    }
}

/// A product of an in-range matrix element and an in-range coordinate.
proof fn lemma_span_product(a: int, c: int)
    requires
        -COORD_LIMIT <= a <= COORD_LIMIT,
        -COORD_LIMIT <= c <= COORD_LIMIT,
    ensures
        -(COORD_LIMIT as int) * (COORD_LIMIT as int) <= a * c
            <= (COORD_LIMIT as int) * (COORD_LIMIT as int),
{
    assert(-(COORD_LIMIT as int) * (COORD_LIMIT as int) <= a * c
        <= (COORD_LIMIT as int) * (COORD_LIMIT as int)) by (nonlinear_arith)
        requires
            -COORD_LIMIT <= a <= COORD_LIMIT,
            -COORD_LIMIT <= c <= COORD_LIMIT,
    ;
}

/// Executable projection range of a box onto a normal.
fn box_proj_exec(b: &AABB3, n: &Vector3) -> (r: (i128, i128))
    requires
        normal_in_range(*n),
    ensures
        r.0 == box_min_proj(*b, *n),
        r.1 == box_max_proj(*b, *n),
        -30_000_000_000_000_000_000_000_000_000 <= r.0 <= 30_000_000_000_000_000_000_000_000_000,
        -30_000_000_000_000_000_000_000_000_000 <= r.1 <= 30_000_000_000_000_000_000_000_000_000,
{
    proof {
        lemma_proj_term(n.x as int, b.min.x as int);
        lemma_proj_term(n.x as int, b.max.x as int);
        lemma_proj_term(n.y as int, b.min.y as int);
        lemma_proj_term(n.y as int, b.max.y as int);
        lemma_proj_term(n.z as int, b.min.z as int);
        lemma_proj_term(n.z as int, b.max.z as int);
    }
    let mut min_d: i128;
    let mut max_d: i128;
    if n.x > 0 {
        min_d = (n.x as i128) * (b.min.x as i128);
        max_d = (n.x as i128) * (b.max.x as i128);
    } else {
        min_d = (n.x as i128) * (b.max.x as i128);
        max_d = (n.x as i128) * (b.min.x as i128);
    }
    if n.y > 0 {
        min_d = min_d + (n.y as i128) * (b.min.y as i128);
        max_d = max_d + (n.y as i128) * (b.max.y as i128);
    } else {
        min_d = min_d + (n.y as i128) * (b.max.y as i128);
        max_d = max_d + (n.y as i128) * (b.min.y as i128);
    }
    if n.z > 0 {
        min_d = min_d + (n.z as i128) * (b.min.z as i128);
        max_d = max_d + (n.z as i128) * (b.max.z as i128);
    } else {
        min_d = min_d + (n.z as i128) * (b.max.z as i128);
        max_d = max_d + (n.z as i128) * (b.min.z as i128);
    }
    (min_d, max_d)
}

/// A product of one normal component and one coordinate stays within
/// one third of the projection bound.
proof fn lemma_proj_term(a: int, c: int)
    requires
        -NORMAL_LIMIT <= a <= NORMAL_LIMIT,
        i64::MIN <= c <= i64::MAX,
    ensures
        -10_000_000_000_000_000_000_000_000_000 <= a * c
            <= 10_000_000_000_000_000_000_000_000_000,
{
    assert(-10_000_000_000_000_000_000_000_000_000 <= a * c
        <= 10_000_000_000_000_000_000_000_000_000) by (nonlinear_arith)
        requires
            -1_000_000_000 <= a <= 1_000_000_000,
            i64::MIN <= c <= i64::MAX,
    ;
}

/// Executable form of `axis_interval`; `r.0` reports rejection, and on
/// success the interval stays within the bound of its inputs.
fn axis_interval_exec(
    t_enter: i128,
    t_leave: i128,
    smin: i64,
    smax: i64,
    mmin: i64,
    mmax: i64,
    dc: i64,
) -> (r: (bool, i128, i128))
    requires
        0 <= t_enter <= t_leave,
        t_leave <= T_ONE,
    ensures
        ({
            let spec_r = axis_interval(t_enter as int, t_leave as int, smin as int, smax as int,
                mmin as int, mmax as int, dc as int);
            &&& r.0 == spec_r.is_none()
            &&& !r.0 ==> spec_r == Option::Some((r.1 as int, r.2 as int))
            &&& !r.0 ==> 0 <= r.1 <= r.2 <= T_ONE
        }),
{
    if dc == 0 {
        if smin >= mmax || smax <= mmin {
            return (true, 0, 0);
        }
        return (false, t_enter, t_leave);
    }
    proof {
        lemma_axis_entry_bound(smin as int, mmax as int, dc as int);
        lemma_axis_entry_bound(smax as int, mmin as int, dc as int);
    }
    let mut e = div_trunc_i128((smin as i128 - mmax as i128) * (T_ONE as i128), dc as i128);
    let mut l = div_trunc_i128((smax as i128 - mmin as i128) * (T_ONE as i128), dc as i128);
    if e > l {
        let tmp = e;
        e = l;
        l = tmp;
    }
    let te = if e > t_enter { e } else { t_enter };
    let tl = if l < t_leave { l } else { t_leave };
    if te > tl {
        return (true, 0, 0);
    }
    (false, te, tl)
}

/// The scaled overlap-time numerators of one axis fit comfortably in
/// 128 bits.
proof fn lemma_axis_entry_bound(a: int, b: int, dc: int)
    requires
        i64::MIN <= a <= i64::MAX,
        i64::MIN <= b <= i64::MAX,
        dc != 0,
        i64::MIN <= dc <= i64::MAX,
    ensures
        -20_000_000_000_000_000_000_000_000 <= (a - b) * T_ONE
            <= 20_000_000_000_000_000_000_000_000,
{
    assert(-20_000_000_000_000_000_000_000_000 <= (a - b) * T_ONE
        <= 20_000_000_000_000_000_000_000_000) by (nonlinear_arith)
        requires
            -0x1_0000_0000_0000_0000 <= a - b <= 0x1_0000_0000_0000_0000,
            T_ONE == 1_000_000i64,
    ;
}




/// One row's contribution to the transformed box: the matrix element's
/// sign picks which bound feeds the new minimum and which the maximum.
pub open spec fn span_lo(e: int, lo: int, hi: int) -> int {
    if e > 0 { e * lo } else { e * hi }
}

pub open spec fn span_hi(e: int, lo: int, hi: int) -> int {
    if e > 0 { e * hi } else { e * lo }
}

/// Bounds of the transformed box along X (and Y, Z below): translation
/// plus the sign-picked extreme contribution of each source axis.
pub open spec fn xform_min_x(b: AABB3, m: Matrix4x3) -> int {
    m.tx + span_lo(m.m11 as int, b.min.x as int, b.max.x as int)
        + span_lo(m.m21 as int, b.min.y as int, b.max.y as int)
        + span_lo(m.m31 as int, b.min.z as int, b.max.z as int)
}

pub open spec fn xform_max_x(b: AABB3, m: Matrix4x3) -> int {
    m.tx + span_hi(m.m11 as int, b.min.x as int, b.max.x as int)
        + span_hi(m.m21 as int, b.min.y as int, b.max.y as int)
        + span_hi(m.m31 as int, b.min.z as int, b.max.z as int)
}

pub open spec fn xform_min_y(b: AABB3, m: Matrix4x3) -> int {
    m.ty + span_lo(m.m12 as int, b.min.x as int, b.max.x as int)
        + span_lo(m.m22 as int, b.min.y as int, b.max.y as int)
        + span_lo(m.m32 as int, b.min.z as int, b.max.z as int)
}

pub open spec fn xform_max_y(b: AABB3, m: Matrix4x3) -> int {
    m.ty + span_hi(m.m12 as int, b.min.x as int, b.max.x as int)
        + span_hi(m.m22 as int, b.min.y as int, b.max.y as int)
        + span_hi(m.m32 as int, b.min.z as int, b.max.z as int)
}

pub open spec fn xform_min_z(b: AABB3, m: Matrix4x3) -> int {
    m.tz + span_lo(m.m13 as int, b.min.x as int, b.max.x as int)
        + span_lo(m.m23 as int, b.min.y as int, b.max.y as int)
        + span_lo(m.m33 as int, b.min.z as int, b.max.z as int)
}

pub open spec fn xform_max_z(b: AABB3, m: Matrix4x3) -> int {
    m.tz + span_hi(m.m13 as int, b.min.x as int, b.max.x as int)
        + span_hi(m.m23 as int, b.min.y as int, b.max.y as int)
        + span_hi(m.m33 as int, b.min.z as int, b.max.z as int)
}

/// All six bounds of the transformed box fit 64-bit coordinates.
pub open spec fn xform_fits(b: AABB3, m: Matrix4x3) -> bool {
    &&& i64::MIN <= xform_min_x(b, m) <= i64::MAX
    &&& i64::MIN <= xform_max_x(b, m) <= i64::MAX
    &&& i64::MIN <= xform_min_y(b, m) <= i64::MAX
    &&& i64::MIN <= xform_max_y(b, m) <= i64::MAX
    &&& i64::MIN <= xform_min_z(b, m) <= i64::MAX
    &&& i64::MIN <= xform_max_z(b, m) <= i64::MAX
}

/// The axis-aligned bounds of the affine image of a box: empty boxes
/// map to the canonical empty box.
pub open spec fn spec_transformed_box(b: AABB3, m: Matrix4x3) -> AABB3 {
    if spec_is_empty(b) {
        empty_box()
    } else {
        AABB3 {
            min: Vector3 {
                x: xform_min_x(b, m) as i64,
                y: xform_min_y(b, m) as i64,
                z: xform_min_z(b, m) as i64,
            },
            max: Vector3 {
                x: xform_max_x(b, m) as i64,
                y: xform_max_y(b, m) as i64,
                z: xform_max_z(b, m) as i64,
            },
        }
    }
}

/// Normal components small enough for the plane queries.
pub open spec fn normal_in_range(n: Vector3) -> bool {
    &&& -NORMAL_LIMIT <= n.x <= NORMAL_LIMIT
    &&& -NORMAL_LIMIT <= n.y <= NORMAL_LIMIT
    &&& -NORMAL_LIMIT <= n.z <= NORMAL_LIMIT
}

/// Smallest projection of the box onto `n`: per axis, the sign of the
/// normal component picks which bound contributes.
pub open spec fn box_min_proj(b: AABB3, n: Vector3) -> int {
    (if n.x > 0 { n.x * b.min.x } else { n.x * b.max.x })
        + (if n.y > 0 { n.y * b.min.y } else { n.y * b.max.y })
        + (if n.z > 0 { n.z * b.min.z } else { n.z * b.max.z })
}

/// Largest projection of the box onto `n`.
pub open spec fn box_max_proj(b: AABB3, n: Vector3) -> int {
    (if n.x > 0 { n.x * b.max.x } else { n.x * b.min.x })
        + (if n.y > 0 { n.y * b.max.y } else { n.y * b.min.y })
        + (if n.z > 0 { n.z * b.max.z } else { n.z * b.min.z })
}

/// What `classify_plane` returns for the plane `n . x = d`.
pub open spec fn spec_classify_plane(b: AABB3, n: Vector3, d: int) -> int {
    if box_min_proj(b, n) >= d {
        1int
    } else if box_max_proj(b, n) <= d {
        -1int
    } else {
        0int
    }
}

/// What `intersect_plane` returns: the sentinel when moving away from
/// (or parallel to) the plane or when the box is already wholly behind
/// it; `0` when already penetrating; otherwise the scaled travel time
/// of the frontmost corner, saturated at the sentinel.
pub open spec fn spec_intersect_plane(b: AABB3, n: Vector3, plane_d: int, dir: Vector3) -> int {
    let dot = spec_dot(n, dir);
    if dot >= 0 {
        NO_INTERSECTION as int
    } else if box_max_proj(b, n) <= plane_d {
        NO_INTERSECTION as int
    } else {
        let t = div_trunc((plane_d - box_min_proj(b, n)) * T_ONE, dot);
        if t < 0 {
            0int
        } else if t > NO_INTERSECTION {
            NO_INTERSECTION as int
        } else {
            t
        }
    }
}

/// One axis of the moving-box test: intersect the running time
/// interval with the axis's overlap interval, or reject.
pub open spec fn axis_interval(
    t_enter: int,
    t_leave: int,
    smin: int,
    smax: int,
    mmin: int,
    mmax: int,
    dc: int,
) -> Option<(int, int)> {
    if dc == 0 {
        if smin >= mmax || smax <= mmin {
            None
        } else {
            Some((t_enter, t_leave))
        }
    } else {
        let e0 = div_trunc((smin - mmax) * T_ONE, dc);
        let l0 = div_trunc((smax - mmin) * T_ONE, dc);
        let e = if e0 > l0 { l0 } else { e0 };
        let l = if e0 > l0 { e0 } else { l0 };
        let te = if e > t_enter { e } else { t_enter };
        let tl = if l < t_leave { l } else { t_leave };
        if te > tl {
            None
        } else {
            Some((te, tl))
        }
    }
}

/// What `intersect_moving_aabb` returns: the first time in `[0, T_ONE]`
/// at which the moving box overlaps the stationary one on all three
/// axes, or the sentinel.
pub open spec fn spec_intersect_moving_aabb(s: AABB3, m: AABB3, d: Vector3) -> int {
    match axis_interval(0, T_ONE as int, s.min.x as int, s.max.x as int, m.min.x as int,
        m.max.x as int, d.x as int) {
        Option::None => NO_INTERSECTION as int,
        Option::Some(ix) => match axis_interval(ix.0, ix.1, s.min.y as int, s.max.y as int,
            m.min.y as int, m.max.y as int, d.y as int) {
            Option::None => NO_INTERSECTION as int,
            Option::Some(iy) => match axis_interval(iy.0, iy.1, s.min.z as int, s.max.z as int,
                m.min.z as int, m.max.z as int, d.z as int) {
                Option::None => NO_INTERSECTION as int,
                Option::Some(iz) => iz.0,
            },
        },
    }
}

/// Outcome of the slab test on one axis: whether the ray is rejected
/// outright, the candidate entry time in millionths (`-1` when the
/// origin is already between the slabs), and the face normal component.
pub open spec fn axis_slab(org: int, delta: int, lo: int, hi: int) -> (bool, int, int) {
    if org < lo {
        if lo - org > delta {
            (true, 0int, 0int)
        } else {
            (false, div_trunc((lo - org) * T_ONE, delta), -NORM_ONE as int)
        }
    } else if org > hi {
        if hi - org < delta {
            (true, 0int, 0int)
        } else {
            (false, div_trunc((hi - org) * T_ONE, delta), NORM_ONE as int)
        }
    } else {
        (false, -1int, 0int)
    }
}

/// Ray coordinate at parametric time `t` (in millionths), truncated.
pub open spec fn point_at(org: int, delta: int, t: int) -> int {
    org + div_trunc(delta * t, T_ONE as int)
}

/// What `ray_intersect` returns: the parametric entry time in
/// millionths together with the outward normal of the face hit
/// (scaled by `NORM_ONE`), or the sentinel and a zero normal.
pub open spec fn spec_ray_intersect(b: AABB3, org: Vector3, delta: Vector3) -> (int, Vector3) {
    let ax = axis_slab(org.x as int, delta.x as int, b.min.x as int, b.max.x as int);
    let ay = axis_slab(org.y as int, delta.y as int, b.min.y as int, b.max.y as int);
    let az = axis_slab(org.z as int, delta.z as int, b.min.z as int, b.max.z as int);
    if ax.0 || ay.0 || az.0 {
        (NO_INTERSECTION as int, Vector3 { x: 0i64, y: 0i64, z: 0i64 })
    } else if ax.1 == -1 && ay.1 == -1 && az.1 == -1 {
        (
            0int,
            spec_normalize(
                Vector3 { x: (-delta.x) as i64, y: (-delta.y) as i64, z: (-delta.z) as i64 },
            ),
        )
    } else {
        let t = vstd::math::max3(ax.1, ay.1, az.1);
        if az.1 > ax.1 && az.1 > ay.1 {
            let x = point_at(org.x as int, delta.x as int, t);
            let y = point_at(org.y as int, delta.y as int, t);
            if x < b.min.x || x > b.max.x || y < b.min.y || y > b.max.y {
                (NO_INTERSECTION as int, Vector3 { x: 0i64, y: 0i64, z: 0i64 })
            } else {
                (t, Vector3 { x: 0i64, y: 0i64, z: az.2 as i64 })
            }
        } else if ay.1 > ax.1 {
            let x = point_at(org.x as int, delta.x as int, t);
            let z = point_at(org.z as int, delta.z as int, t);
            if x < b.min.x || x > b.max.x || z < b.min.z || z > b.max.z {
                (NO_INTERSECTION as int, Vector3 { x: 0i64, y: 0i64, z: 0i64 })
            } else {
                (t, Vector3 { x: 0i64, y: ay.2 as i64, z: 0i64 })
            }
        } else {
            let y = point_at(org.y as int, delta.y as int, t);
            let z = point_at(org.z as int, delta.z as int, t);
            if y < b.min.y || y > b.max.y || z < b.min.z || z > b.max.z {
                (NO_INTERSECTION as int, Vector3 { x: 0i64, y: 0i64, z: 0i64 })
            } else {
                (t, Vector3 { x: ax.2 as i64, y: 0i64, z: 0i64 })
            }
        }
    }
}

/// Executable slab test on one axis; `r.1 == -1` marks "origin between
/// the slabs" and a computed candidate time always lies in
/// `[0, T_ONE]`.
fn axis_slab_exec(org: i64, delta: i64, lo: i64, hi: i64) -> (r: (bool, i64, i64))
    ensures
        (r.0, r.1 as int, r.2 as int) == axis_slab(org as int, delta as int, lo as int, hi as int),
        !r.0 ==> -1 <= r.1 <= T_ONE,
        !r.0 ==> (r.1 == -1 <==> lo <= org <= hi),
{
    if org < lo {
        let num: i128 = lo as i128 - org as i128;
        if num > delta as i128 {
            return (true, 0, 0);
        }
        proof {
            lemma_slab_quotient(num as int, delta as int);
        }
        let t = div_trunc_i128(num * (T_ONE as i128), delta as i128);
        (false, t as i64, -NORM_ONE)
    } else if org > hi {
        let num: i128 = hi as i128 - org as i128;
        if num < delta as i128 {
            return (true, 0, 0);
        }
        proof {
            lemma_slab_quotient_neg(num as int, delta as int);
        }
        let t = div_trunc_i128(num * (T_ONE as i128), delta as i128);
        (false, t as i64, NORM_ONE)
    } else {
        (false, -1, 0)
    }
}

/// Entry-time quotient for a ray approaching from below: with
/// `0 < num <= delta` the scaled quotient lies in `[0, T_ONE]`.
proof fn lemma_slab_quotient(num: int, delta: int)
    requires
        0 < num <= delta,
        delta <= 0x2_0000_0000_0000_0000,
    ensures
        0 <= div_trunc(num * T_ONE, delta) <= T_ONE,
        i128::MIN < num * T_ONE <= i128::MAX,
{
    assert(0 < num * T_ONE <= T_ONE * delta) by (nonlinear_arith)
        requires 0 < num <= delta, T_ONE == 1_000_000i64;
    assert(T_ONE * delta <= i128::MAX) by (nonlinear_arith)
        requires delta <= 0x2_0000_0000_0000_0000, T_ONE == 1_000_000i64;
    lemma_div_trunc_nonneg(num * T_ONE, delta);
    lemma_div_trunc_le(num * T_ONE, delta, T_ONE as int);
    assert(vstd::math::abs(delta) == delta);
}

/// Entry-time quotient for a ray approaching from above: with
/// `delta <= num < 0` the scaled quotient lies in `[0, T_ONE]`.
proof fn lemma_slab_quotient_neg(num: int, delta: int)
    requires
        delta <= num < 0,
        -0x2_0000_0000_0000_0000 <= delta,
    ensures
        0 <= div_trunc(num * T_ONE, delta) <= T_ONE,
        i128::MIN < num * T_ONE <= i128::MAX,
{
    assert(T_ONE * delta <= num * T_ONE < 0) by (nonlinear_arith)
        requires delta <= num < 0, T_ONE == 1_000_000i64;
    assert(i128::MIN < T_ONE * delta) by (nonlinear_arith)
        requires -0x2_0000_0000_0000_0000 <= delta, T_ONE == 1_000_000i64;
    assert(div_trunc(num * T_ONE, delta) == (-(num * T_ONE)) / -delta);
    vstd::arithmetic::div_mod::lemma_div_pos_is_pos(-(num * T_ONE), -delta);
    lemma_div_trunc_le(num * T_ONE, delta, T_ONE as int);
    assert(vstd::math::abs(delta) == -delta);
    assert(-(T_ONE as int) * -delta <= num * T_ONE <= (T_ONE as int) * -delta) by (nonlinear_arith)
        requires delta <= num < 0, T_ONE == 1_000_000i64;
}

/// Executable ray coordinate at time `t`, kept wide for comparison.
fn point_at_exec(org: i64, delta: i64, t: i64) -> (c: i128)
    requires
        0 <= t <= T_ONE,
    ensures
        c == point_at(org as int, delta as int, t as int),
        -0x1_0000_0000_0000_0000 <= c <= 0x1_0000_0000_0000_0000,
{
    proof {
        assert(vstd::math::abs(T_ONE as int) == T_ONE);
        assert(-0x8000_0000_0000_0000 * (T_ONE as int) <= (delta as int) * t
            <= 0x8000_0000_0000_0000 * (T_ONE as int)) by (nonlinear_arith)
            requires i64::MIN <= delta <= i64::MAX, 0 <= t <= 1_000_000, T_ONE == 1_000_000i64;
        lemma_div_trunc_le((delta as int) * t, T_ONE as int, 0x8000_0000_0000_0000);
    }
    let prod: i128 = (delta as i128) * (t as i128);
    let step = div_trunc_i128(prod, T_ONE as i128);
    org as i128 + step
}

/// Halved sums of two coordinates stay in coordinate range.
proof fn lemma_halving_fits(a: int, b: int)
    requires
        i64::MIN <= a <= i64::MAX,
        i64::MIN <= b <= i64::MAX,
        i64::MIN <= a + b <= i64::MAX,
    ensures
        i64::MIN <= div_trunc(a + b, 2) <= i64::MAX,
        i128::MIN < a + b,
{
    lemma_div_trunc_le(a + b, 2, i64::MAX as int);
    assert(vstd::math::abs(2) == 2);
}

/// The emptied box grown by one point bounds exactly that point: with
/// the extreme initial bounds, the minimum and maximum both land on the
/// added coordinates, so the result contains `p` and nothing else.
pub proof fn lemma_empty_add_point(p: Vector3)
    ensures
        !spec_is_empty(spec_add_point(empty_box(), p)),
        spec_add_point(empty_box(), p).min == p,
        spec_add_point(empty_box(), p).max == p,
        forall|q: Vector3| spec_contains(spec_add_point(empty_box(), p), q) ==> q == p,
{
}

/// A point is inside a box exactly when clamping moves it nowhere.
pub proof fn lemma_contains_iff_closest_point(b: AABB3, p: Vector3)
    ensures
        spec_contains(b, p) <==> spec_closest_point(b, p) == p,
{
}

/// The static box intersection test is symmetric, in the overlap
/// verdict and in the returned intersection box.
pub proof fn lemma_intersect_aabbs_symmetric(a: AABB3, b: AABB3)
    ensures
        spec_boxes_overlap(a, b) == spec_boxes_overlap(b, a),
        spec_box_intersection(a, b) == spec_box_intersection(b, a),
{
}

/// The returned intersection box contains exactly the points lying in
/// both boxes.
pub proof fn lemma_intersection_contains_common_points(a: AABB3, b: AABB3, q: Vector3)
    ensures
        spec_contains(spec_box_intersection(a, b), q)
            <==> spec_contains(a, q) && spec_contains(b, q),
{
}

} // verus!
