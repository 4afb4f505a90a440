//! Integer 3D math and editable-triangle-mesh toolkit.
//!
//! Geometry is carried on `i64` world coordinates. Parametric times
//! (ray and swept-box intersections) are fixed-point values measured in
//! millionths (`T_ONE`), and derived unit vectors (normals) are stored
//! in millionths as well (`NORM_ONE`), so that every operation has an
//! exact, machine-checked contract.

use vstd::prelude::*;

pub mod aabb3;
pub mod edit_tri_mesh;
pub mod bitmap;
pub mod model;
pub mod num;
pub mod tri_mesh;
pub mod renderer;
pub mod vector3;
pub mod matrix4x3;

verus! {

/// Sum of two mesh-entity counts.
pub fn add(left: usize, right: usize) -> (r: usize)
    requires
        left + right <= usize::MAX,
    ensures
        r == left + right,
{
    left + right
}

} // verus!
