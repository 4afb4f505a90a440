use math_lib_3d::aabb3::AABB3;
use math_lib_3d::matrix4x3::Matrix4x3;
use math_lib_3d::num::{NO_INTERSECTION, NORM_ONE, T_ONE};
use math_lib_3d::vector3::{cross_product, distance, distance_squared, Vector3};
use math_lib_3d::add;

#[test]
fn it_works() {
    let result = add(2, 2);
    assert_eq!(result, 4);
}

fn boxed(min: (i64, i64, i64), max: (i64, i64, i64)) -> AABB3 {
    AABB3 {
        min: Vector3 { x: min.0, y: min.1, z: min.2 },
        max: Vector3 { x: max.0, y: max.1, z: max.2 },
    }
}

#[test]
fn corners_of_unit_box() {
    let b = boxed((-1, -1, -1), (1, 1, 1));
    assert_eq!(b.corner(0), Vector3 { x: -1, y: -1, z: -1 });
    assert_eq!(b.corner(7), Vector3 { x: 1, y: 1, z: 1 });
    assert_eq!(b.corner(3), Vector3 { x: 1, y: 1, z: -1 });
}

#[test]
fn empty_then_add_point_bounds_exactly() {
    let mut b = AABB3::new();
    b.empty();
    assert!(b.is_empty());
    let p = Vector3 { x: 2, y: -3, z: 4 };
    b.add_point(&p);
    assert!(!b.is_empty());
    assert_eq!(b.min, p);
    assert_eq!(b.max, p);
    assert!(b.contains(&p));
}

#[test]
fn contains_iff_closest_point_fixed() {
    let b = boxed((0, 0, 0), (10, 10, 10));
    let inside = Vector3 { x: 5, y: 5, z: 5 };
    assert!(b.contains(&inside));
    assert_eq!(b.closest_point_to(&inside), inside);
    let outside = Vector3 { x: 12, y: 5, z: -3 };
    assert!(!b.contains(&outside));
    assert_eq!(b.closest_point_to(&outside), Vector3 { x: 10, y: 5, z: 0 });
}

#[test]
fn intersect_aabbs_symmetric_and_exact() {
    let a = boxed((0, 0, 0), (10, 10, 10));
    let b = boxed((5, 5, 5), (15, 15, 15));
    let ab = AABB3::intersect_aabbs(&a, &b);
    let ba = AABB3::intersect_aabbs(&b, &a);
    assert_eq!(ab, ba);
    let ib = ab.unwrap();
    assert_eq!(ib, boxed((5, 5, 5), (10, 10, 10)));
    let c = boxed((20, 20, 20), (30, 30, 30));
    assert_eq!(AABB3::intersect_aabbs(&a, &c), None);
    assert_eq!(AABB3::intersect_aabbs(&c, &a), None);
}

#[test]
fn ray_from_inside_hits_at_zero() {
    let b = boxed((-1, -1, -1), (1, 1, 1));
    let org = Vector3 { x: 0, y: 0, z: 0 };
    let delta = Vector3 { x: 0, y: 0, z: 5 };
    let (t, n) = b.ray_intersect(&org, &delta);
    assert_eq!(t, 0);
    assert_eq!(n, Vector3 { x: 0, y: 0, z: -NORM_ONE });
}

#[test]
fn ray_hits_front_face() {
    let b = boxed((-1, -1, -1), (1, 1, 1));
    let org = Vector3 { x: -5, y: 0, z: 0 };
    let delta = Vector3 { x: 10, y: 0, z: 0 };
    let (t, n) = b.ray_intersect(&org, &delta);
    assert_eq!(t, 2 * T_ONE / 5);
    assert_eq!(n, Vector3 { x: -NORM_ONE, y: 0, z: 0 });
}

#[test]
fn ray_misses_box() {
    let b = boxed((-1, -1, -1), (1, 1, 1));
    let org = Vector3 { x: -5, y: 5, z: 0 };
    let delta = Vector3 { x: 10, y: 0, z: 0 };
    let (t, _) = b.ray_intersect(&org, &delta);
    assert_eq!(t, NO_INTERSECTION);
}

#[test]
fn sphere_tangency_does_not_intersect() {
    let b = boxed((0, 0, 0), (10, 10, 10));
    let center = Vector3 { x: 15, y: 5, z: 5 };
    assert!(!b.intersects_sphere(&center, 5));
    assert!(b.intersects_sphere(&center, 6));
}

#[test]
fn classify_plane_three_ways() {
    let b = boxed((0, 0, 0), (10, 10, 10));
    let n = Vector3 { x: 1, y: 0, z: 0 };
    assert_eq!(b.classify_plane(&n, -5), 1);
    assert_eq!(b.classify_plane(&n, 20), -1);
    assert_eq!(b.classify_plane(&n, 5), 0);
}

#[test]
fn plane_time_of_impact() {
    let b = boxed((0, 0, 0), (10, 10, 10));
    let n = Vector3 { x: 1, y: 0, z: 0 };
    let dir = Vector3 { x: -1, y: 0, z: 0 };
    assert_eq!(b.intersect_plane(&n, -10, &dir), 10 * T_ONE);
    // moving away from the plane's front side
    let away = Vector3 { x: 1, y: 0, z: 0 };
    assert_eq!(b.intersect_plane(&n, -10, &away), NO_INTERSECTION);
    // already penetrating
    assert_eq!(b.intersect_plane(&n, 5, &dir), 0);
}

#[test]
fn moving_box_enters_at_three_tenths() {
    let stationary = boxed((-1, -1, -1), (1, 1, 1));
    let moving = boxed((4, -1, -1), (6, 1, 1));
    let d = Vector3 { x: -10, y: 0, z: 0 };
    let t = AABB3::intersect_moving_aabb(&stationary, &moving, &d);
    assert_eq!(t, 3 * T_ONE / 10);
}

#[test]
fn moving_box_never_overlaps() {
    let stationary = boxed((-1, -1, -1), (1, 1, 1));
    let moving = boxed((4, 10, -1), (6, 12, 1));
    let d = Vector3 { x: -10, y: 0, z: 0 };
    assert_eq!(AABB3::intersect_moving_aabb(&stationary, &moving, &d), NO_INTERSECTION);
}

#[test]
fn box_sizes_and_center() {
    let b = boxed((0, 2, 4), (10, 8, 6));
    assert_eq!(b.x_size(), 10);
    assert_eq!(b.y_size(), 6);
    assert_eq!(b.z_size(), 2);
    assert_eq!(b.size(), Vector3 { x: 10, y: 6, z: 2 });
    assert_eq!(b.center(), Vector3 { x: 5, y: 5, z: 5 });
}

#[test]
fn translated_box_bounds() {
    let b = boxed((0, 0, 0), (2, 2, 2));
    let mut m = Matrix4x3::identity();
    m.setup_translation(&Vector3 { x: 5, y: -1, z: 0 });
    let mut out = AABB3::new();
    out.set_to_transformed_box(&b, &m);
    assert_eq!(out, boxed((5, -1, 0), (7, 1, 2)));
    let mut empty_src = AABB3::new();
    empty_src.empty();
    out.set_to_transformed_box(&empty_src, &m);
    assert!(out.is_empty());
}

#[test]
fn vector_normalize_three_four_zero() {
    let mut v = Vector3 { x: 3, y: 4, z: 0 };
    v.normalize();
    assert_eq!(v, Vector3 { x: 3 * NORM_ONE / 5, y: 4 * NORM_ONE / 5, z: 0 });
    let mut z = Vector3 { x: 0, y: 0, z: 0 };
    z.normalize();
    assert_eq!(z, Vector3 { x: 0, y: 0, z: 0 });
}

#[test]
fn vector_algebra() {
    let a = Vector3 { x: 1, y: 0, z: 0 };
    let b = Vector3 { x: 0, y: 1, z: 0 };
    assert_eq!(cross_product(&a, &b), Vector3 { x: 0, y: 0, z: 1 });
    assert_eq!(a.dot(&b), 0);
    let c = Vector3 { x: 3, y: 4, z: 0 };
    assert_eq!(c.magnitude(), 5);
    assert_eq!(c.dot(&c), 25);
    let o = Vector3 { x: 0, y: 0, z: 0 };
    assert_eq!(distance(&o, &c), 5);
    assert_eq!(distance_squared(&o, &c), 25);
    // the length of the unit cube's diagonal rounds down
    let d = Vector3 { x: 1, y: 1, z: 1 };
    assert_eq!(d.magnitude(), 1);
    assert_eq!(a.add(&b), Vector3 { x: 1, y: 1, z: 0 });
    assert_eq!(c.sub(&a), Vector3 { x: 2, y: 4, z: 0 });
    assert_eq!(c.neg(), Vector3 { x: -3, y: -4, z: 0 });
    assert!(a.eq(&a));
    assert!(a.not_eq(&b));
}

#[test]
fn transform_point_affine() {
    let mut m = Matrix4x3::identity();
    m.set_translation(&Vector3 { x: 10, y: 20, z: 30 });
    let p = Vector3 { x: 1, y: 2, z: 3 };
    assert_eq!(m.transform_point(&p), Vector3 { x: 11, y: 22, z: 33 });
    m.zero_translation();
    assert_eq!(m.transform_point(&p), p);
    assert_eq!(m.get_translation(), Vector3 { x: 0, y: 0, z: 0 });
}
