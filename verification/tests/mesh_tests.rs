use math_lib_3d::bitmap::{Bitmap, EFormat};
use math_lib_3d::edit_tri_mesh::{
    EditTriMesh, Material, OptimizationParameters, Part, Tri, Vert, Vertex,
};
use math_lib_3d::model::Model;
use math_lib_3d::renderer::{get_a, get_b, get_g, get_r, make_argb, make_rgb};
use math_lib_3d::tri_mesh::TriMesh;
use math_lib_3d::vector3::Vector3;
use std::cmp::Ordering;

fn vert(index: usize, u: i64, v: i64) -> Vert {
    Vert { index, u, v }
}

fn vertex_at(x: i64, y: i64, z: i64) -> Vertex {
    Vertex {
        p: Vector3 { x, y, z },
        u: 0,
        v: 0,
        normal: Vector3 { x: 0, y: 0, z: 0 },
        mark: 0,
    }
}

fn tri(a: usize, b: usize, c: usize, part: usize, material: usize) -> Tri {
    Tri {
        v: (vert(a, 0, 0), vert(b, 0, 0), vert(c, 0, 0)),
        normal: Vector3 { x: 0, y: 0, z: 0 },
        part,
        material,
        mark: 0,
    }
}

fn named_material(name: &str) -> Material {
    Material { diffuseTextureName: name.to_string(), mark: 0 }
}

fn base_mesh() -> EditTriMesh {
    let mut m = EditTriMesh::default();
    m.addVertex(vertex_at(0, 0, 0));
    m.addVertex(vertex_at(1, 0, 0));
    m.addVertex(vertex_at(0, 1, 0));
    m.addVertex(vertex_at(1, 1, 0));
    m.addMaterial(named_material("stone"));
    m.addPart(Part { name: "body".to_string(), mark: 0 });
    m
}

#[test]
fn delete_vertex_fixes_indices() {
    let mut m = base_mesh();
    m.addTri(tri(0, 1, 2, 0, 0));
    m.addTri(tri(0, 2, 3, 0, 0));
    m.deleteVertex(1);
    assert_eq!(m.vertexCount(), 3);
    assert_eq!(m.triCount(), 1);
    let t = m.tList[0];
    assert_eq!(t.v.0.index, 0);
    assert_eq!(t.v.1.index, 1);
    assert_eq!(t.v.2.index, 2);
    assert_eq!(t.findVertex(3), -1);
}

#[test]
fn delete_material_and_part() {
    let mut m = base_mesh();
    m.addMaterial(named_material("wood"));
    m.addTri(tri(0, 1, 2, 0, 0));
    m.addTri(tri(0, 2, 3, 0, 1));
    m.deleteMaterial(0);
    assert_eq!(m.materialCount(), 1);
    assert_eq!(m.triCount(), 1);
    assert_eq!(m.tList[0].material, 0);
    assert_eq!(m.mList[0].diffuseTextureName, "wood");

    let mut m2 = base_mesh();
    m2.addPart(Part { name: "lid".to_string(), mark: 0 });
    m2.addTri(tri(0, 1, 2, 0, 0));
    m2.addTri(tri(0, 2, 3, 1, 0));
    m2.deletePart(0);
    assert_eq!(m2.partCount(), 1);
    assert_eq!(m2.triCount(), 1);
    assert_eq!(m2.tList[0].part, 0);
    assert_eq!(m2.pList[0].name, "lid");
}

#[test]
fn delete_unused_materials_idempotent() {
    let mut m = base_mesh();
    m.addMaterial(named_material("wood"));
    m.addMaterial(named_material("glass"));
    m.addTri(tri(0, 1, 2, 0, 2));
    m.addTri(tri(0, 2, 3, 0, 0));
    m.deleteUnusedMaterials();
    assert_eq!(m.materialCount(), 2);
    assert_eq!(m.mList[0].diffuseTextureName, "stone");
    assert_eq!(m.mList[1].diffuseTextureName, "glass");
    assert_eq!(m.tList[0].material, 1);
    assert_eq!(m.tList[1].material, 0);
    // every remaining material is referenced by some triangle
    for j in 0..m.materialCount() {
        let mut used = false;
        for k in 0..m.triCount() {
            used = used || m.tList[k].material == j;
        }
        assert!(used);
    }
    let names_before: Vec<String> =
        m.mList.iter().map(|x| x.diffuseTextureName.clone()).collect();
    let tris_before: Vec<usize> = m.tList.iter().map(|t| t.material).collect();
    m.deleteUnusedMaterials();
    let names_after: Vec<String> =
        m.mList.iter().map(|x| x.diffuseTextureName.clone()).collect();
    let tris_after: Vec<usize> = m.tList.iter().map(|t| t.material).collect();
    assert_eq!(names_before, names_after);
    assert_eq!(tris_before, tris_after);
}

#[test]
fn delete_empty_parts_compacts() {
    let mut m = base_mesh();
    m.addPart(Part { name: "lid".to_string(), mark: 0 });
    m.addTri(tri(0, 1, 2, 1, 0));
    m.deleteEmptyParts();
    assert_eq!(m.partCount(), 1);
    assert_eq!(m.pList[0].name, "lid");
    assert_eq!(m.tList[0].part, 0);
}

#[test]
fn marked_and_degenerate_tris_removed() {
    let mut m = base_mesh();
    let mut a = tri(0, 1, 2, 0, 0);
    a.mark = 7;
    m.addTri(a);
    m.addTri(tri(0, 2, 3, 0, 0));
    m.deleteMarkedTris(7);
    assert_eq!(m.triCount(), 1);
    assert_eq!(m.tList[0].v.1.index, 2);

    let mut m2 = base_mesh();
    m2.addTri(tri(0, 0, 2, 0, 0));
    m2.addTri(tri(0, 1, 2, 0, 0));
    assert!(m2.tList[0].isDegenerate());
    m2.deleteDegenerateTris();
    assert_eq!(m2.triCount(), 1);
    assert!(!m2.tList[0].isDegenerate());
}

#[test]
fn detach_all_faces_gives_private_corners() {
    let mut m = base_mesh();
    m.addTri(tri(0, 1, 2, 0, 0));
    m.addTri(tri(0, 2, 3, 0, 0));
    m.detachAllFaces();
    assert_eq!(m.vertexCount(), 6);
    assert_eq!(m.tList[0].v.0.index, 0);
    assert_eq!(m.tList[0].v.1.index, 1);
    assert_eq!(m.tList[0].v.2.index, 2);
    assert_eq!(m.tList[1].v.0.index, 3);
    assert_eq!(m.tList[1].v.1.index, 4);
    assert_eq!(m.tList[1].v.2.index, 5);
    // both copies of the shared vertex carry its position
    assert_eq!(m.vList[0].p, Vector3 { x: 0, y: 0, z: 0 });
    assert_eq!(m.vList[3].p, Vector3 { x: 0, y: 0, z: 0 });
    assert_eq!(m.vList[5].p, Vector3 { x: 1, y: 1, z: 0 });
}

#[test]
fn optimize_vertex_order_first_use() {
    let mut m = base_mesh();
    m.addTri(tri(2, 0, 1, 0, 0));
    let positions: Vec<Vector3> = m.vList.iter().map(|v| v.p).collect();
    m.optimizeVertexOrder(true);
    assert_eq!(m.vertexCount(), 3);
    assert_eq!(m.vList[0].p, positions[2]);
    assert_eq!(m.vList[1].p, positions[0]);
    assert_eq!(m.vList[2].p, positions[1]);
    let t = m.tList[0];
    assert_eq!(t.v.0.index, 0);
    assert_eq!(t.v.1.index, 1);
    assert_eq!(t.v.2.index, 2);
    // the tuples reachable through the face are unchanged
    assert_eq!(m.vList[t.v.0.index].p, positions[2]);
    assert_eq!(m.vList[t.v.1.index].p, positions[0]);
    assert_eq!(m.vList[t.v.2.index].p, positions[1]);

    let mut kept = base_mesh();
    kept.addTri(tri(2, 0, 1, 0, 0));
    kept.optimizeVertexOrder(false);
    assert_eq!(kept.vertexCount(), 4);
    assert_eq!(kept.vList[3].p, positions[3]);
    assert_eq!(kept.vList[3].mark, 4);
}

#[test]
fn sort_tris_by_material_is_stable() {
    let mut m = base_mesh();
    m.addMaterial(named_material("wood"));
    m.addMaterial(named_material("glass"));
    m.addTri(tri(0, 1, 2, 0, 2));
    m.addTri(tri(0, 2, 3, 0, 0));
    m.addTri(tri(1, 2, 3, 0, 1));
    m.addTri(tri(0, 1, 3, 0, 0));
    m.sortTrisByMaterial();
    let mats: Vec<usize> = m.tList.iter().map(|t| t.material).collect();
    assert_eq!(mats, vec![0, 0, 1, 2]);
    // marks hold the original positions; equal materials keep their order
    let marks: Vec<i64> = m.tList.iter().map(|t| t.mark).collect();
    assert_eq!(marks, vec![1, 3, 2, 0]);
}

#[test]
fn copy_uvs_splits_shared_vertex() {
    let mut m = base_mesh();
    let mut a = tri(0, 1, 2, 0, 0);
    a.v.0.u = 11;
    a.v.0.v = 12;
    let mut b = tri(0, 2, 3, 0, 0);
    b.v.0.u = 21;
    b.v.0.v = 22;
    m.addTri(a);
    m.addTri(b);
    let before = m.vertexCount();
    m.copyUvsIntoVertices();
    assert_eq!(m.vertexCount(), before + 1);
    let ta = m.tList[0];
    let tb = m.tList[1];
    assert_eq!(m.vList[ta.v.0.index].u, 11);
    assert_eq!(m.vList[ta.v.0.index].v, 12);
    assert_eq!(m.vList[tb.v.0.index].u, 21);
    assert_eq!(m.vList[tb.v.0.index].v, 22);
    // both corners still see the shared position
    assert_eq!(m.vList[ta.v.0.index].p, Vector3 { x: 0, y: 0, z: 0 });
    assert_eq!(m.vList[tb.v.0.index].p, Vector3 { x: 0, y: 0, z: 0 });
}

#[test]
fn face_and_vertex_normals() {
    let mut m = EditTriMesh::default();
    m.addVertex(vertex_at(0, 0, 0));
    m.addVertex(vertex_at(1, 0, 0));
    m.addVertex(vertex_at(0, 1, 0));
    m.addMaterial(named_material("stone"));
    m.addPart(Part { name: "body".to_string(), mark: 0 });
    m.addTri(tri(0, 1, 2, 0, 0));
    m.computeTriNormals();
    assert_eq!(m.tList[0].normal, Vector3 { x: 0, y: 0, z: 1_000_000 });
    m.computeVertexNormals();
    for i in 0..3 {
        assert_eq!(m.vList[i].normal, Vector3 { x: 0, y: 0, z: 1_000_000 });
    }
    m.optimizeForRendering();
    assert_eq!(m.vList[0].normal, Vector3 { x: 0, y: 0, z: 1_000_000 });
}

#[test]
fn mesh_bounds_cover_vertices() {
    let mut m = EditTriMesh::default();
    m.addVertex(vertex_at(-2, 5, 1));
    m.addVertex(vertex_at(4, -1, 3));
    let b = m.computeBounds();
    assert_eq!(b.min, Vector3 { x: -2, y: -1, z: 1 });
    assert_eq!(b.max, Vector3 { x: 4, y: 5, z: 3 });
    let empty = EditTriMesh::default().computeBounds();
    assert!(empty.is_empty());
}

#[test]
fn extract_one_part_one_material_trims() {
    let mut m = base_mesh();
    m.addMaterial(named_material("wood"));
    m.addTri(tri(0, 1, 2, 0, 1));
    m.addTri(tri(1, 2, 3, 0, 0));
    let mut out = EditTriMesh::default();
    m.extractOnePartOneMaterial(0, 1, &mut out);
    assert_eq!(out.partCount(), 1);
    assert_eq!(out.materialCount(), 1);
    assert_eq!(out.mList[0].diffuseTextureName, "wood");
    assert_eq!(out.triCount(), 1);
    assert_eq!(out.vertexCount(), 3);
    let t = out.tList[0];
    assert_eq!(t.part, 0);
    assert_eq!(t.material, 0);
    assert_eq!(out.vList[t.v.0.index].p, m.vList[0].p);
    assert_eq!(out.vList[t.v.1.index].p, m.vList[1].p);
    assert_eq!(out.vList[t.v.2.index].p, m.vList[2].p);
}

#[test]
fn extracted_materials_in_first_reference_order() {
    let mut m = base_mesh();
    m.addMaterial(named_material("wood"));
    // the part's triangles reference "wood" (material 1) before
    // "stone" (material 0)
    m.addTri(tri(0, 1, 2, 0, 1));
    m.addTri(tri(1, 2, 3, 0, 0));
    m.addTri(tri(0, 2, 3, 0, 1));
    let mut meshes = vec![EditTriMesh::default()];
    m.extractParts(&mut meshes);
    assert_eq!(meshes[0].materialCount(), 2);
    assert_eq!(meshes[0].mList[0].diffuseTextureName, "wood");
    assert_eq!(meshes[0].mList[1].diffuseTextureName, "stone");
    assert_eq!(meshes[0].tList[0].material, 0);
    assert_eq!(meshes[0].tList[1].material, 1);
    assert_eq!(meshes[0].tList[2].material, 0);

    let mut model = Model::new();
    model.fromEditMesh(&mut m);
    assert_eq!(model.partCount, 2);
    assert_eq!(model.getPartTexture(0).name, "wood");
    assert_eq!(model.getPartTexture(1).name, "stone");
}

#[test]
fn delete_vertex_clears_stale_marks() {
    let mut m = base_mesh();
    let mut a = tri(0, 2, 3, 0, 0);
    a.mark = 1;
    m.addTri(a);
    m.addTri(tri(0, 1, 2, 0, 0));
    // only the triangle that uses the deleted vertex goes; the stale
    // mark on the other triangle is cleared, not acted on
    m.deleteVertex(1);
    assert_eq!(m.triCount(), 1);
    assert_eq!(m.tList[0].mark, 0);
    assert_eq!(m.tList[0].v.1.index, 1);
    assert_eq!(m.tList[0].v.2.index, 2);
}

#[test]
fn extract_parts_splits_by_part() {
    let mut m = base_mesh();
    m.addPart(Part { name: "lid".to_string(), mark: 0 });
    m.addMaterial(named_material("wood"));
    m.addTri(tri(0, 1, 2, 0, 0));
    m.addTri(tri(1, 2, 3, 1, 1));
    let mut meshes = vec![EditTriMesh::default(), EditTriMesh::default()];
    m.extractParts(&mut meshes);
    assert_eq!(meshes[0].pList[0].name, "body");
    assert_eq!(meshes[0].triCount(), 1);
    assert_eq!(meshes[0].materialCount(), 1);
    assert_eq!(meshes[0].mList[0].diffuseTextureName, "stone");
    assert_eq!(meshes[0].vertexCount(), 3);
    assert_eq!(meshes[1].pList[0].name, "lid");
    assert_eq!(meshes[1].materialCount(), 1);
    assert_eq!(meshes[1].mList[0].diffuseTextureName, "wood");
    assert_eq!(meshes[1].tList[0].part, 0);
    assert_eq!(meshes[1].tList[0].material, 0);
}

#[test]
fn model_from_edit_mesh_counts_pairs() {
    let mut m = base_mesh();
    m.addPart(Part { name: "lid".to_string(), mark: 0 });
    m.addMaterial(named_material("wood"));
    // part 0 uses materials 0 and 1, part 1 uses material 1 only
    m.addTri(tri(0, 1, 2, 0, 0));
    m.addTri(tri(0, 2, 3, 0, 1));
    m.addTri(tri(1, 2, 3, 1, 1));
    let mut model = Model::new();
    model.fromEditMesh(&mut m);
    assert_eq!(model.partCount, 3);
    assert_eq!(model.partMeshList.len(), 3);
    assert_eq!(model.partTextureList.len(), 3);
    assert_eq!(model.getPartTexture(0).name, "stone");
    assert_eq!(model.getPartTexture(1).name, "wood");
    assert_eq!(model.getPartTexture(2).name, "wood");
    assert_eq!(model.getPartMesh(0).triCount, 1);
    assert_eq!(model.getPartMesh(0).vertexCount, 3);
}

#[test]
fn tri_mesh_from_edit_mesh_flattens() {
    let mut m = base_mesh();
    m.addTri(tri(0, 1, 2, 0, 0));
    m.optimizeVertexOrder(true);
    let mut rm = TriMesh::default();
    rm.fromEditMesh(&m);
    assert_eq!(rm.vertexCount, 3);
    assert_eq!(rm.triCount, 1);
    assert_eq!(rm.triList[0].a, 0);
    assert_eq!(rm.triList[0].b, 1);
    assert_eq!(rm.triList[0].c, 2);
    assert_eq!(rm.vertexList[0].p, Vector3 { x: 0, y: 0, z: 0 });
    assert_eq!(rm.bounding_box.min, Vector3 { x: 0, y: 0, z: 0 });
    assert_eq!(rm.bounding_box.max, Vector3 { x: 1, y: 1, z: 0 });
}

#[test]
fn model_bookkeeping() {
    let mut model = Model::new();
    model.allocateMemory(4);
    assert_eq!(model.partCount, 4);
    model.freeMemory();
    assert_eq!(model.partCount, 0);
}

#[test]
fn bitmap_pixels_round_trip() {
    let mut bmp = Bitmap::default();
    bmp.allocateMemory(4, 3, EFormat::eFormat_8888);
    let argb = make_argb(255, 10, 20, 30);
    bmp.setPix(2, 1, argb);
    assert_eq!(bmp.getPix(2, 1), argb);
    assert_eq!(bmp.getPix(0, 0), 0);
    assert_eq!(get_a(argb), 255);
    assert_eq!(get_r(argb), 10);
    assert_eq!(get_g(argb), 20);
    assert_eq!(get_b(argb), 30);
    assert_eq!(make_rgb(1, 2, 3), 0x010203);
    let r = bmp.loadBMP("couch.bmp");
    assert!(r.is_err());
    assert_eq!(bmp.sizeX, 0);
}

#[test]
fn optimization_parameters_tolerances() {
    let p = OptimizationParameters::default();
    assert_eq!(p.coincidentVertexTolerance, 10_000);
    let mut q = p;
    q.setEdgeAngleToleranceInDegrees(200, 0);
    assert_eq!(q.cosOfEdgeAngleTolerance, -999_000_000);
    q.setEdgeAngleToleranceInDegrees(60, 500_000);
    assert_eq!(q.cosOfEdgeAngleTolerance, 500_000);
}

#[test]
fn comparators_order_by_keys() {
    let mut a = vertex_at(0, 0, 0);
    let mut b = vertex_at(1, 0, 0);
    a.mark = 1;
    b.mark = 2;
    assert_eq!(math_lib_3d::edit_tri_mesh::vertexCompareByMark(&a, &b), Ordering::Less);
    assert_eq!(math_lib_3d::edit_tri_mesh::vertexCompareByMark(&b, &a), Ordering::Greater);
    assert_eq!(math_lib_3d::edit_tri_mesh::vertexCompareByMark(&a, &a), Ordering::Equal);
    let mut ta = tri(0, 1, 2, 0, 1);
    let mut tb = tri(0, 1, 2, 0, 1);
    ta.mark = 5;
    tb.mark = 9;
    assert_eq!(math_lib_3d::edit_tri_mesh::triCompareByMaterial(&ta, &tb), Ordering::Less);
    tb.material = 0;
    assert_eq!(math_lib_3d::edit_tri_mesh::triCompareByMaterial(&ta, &tb), Ordering::Greater);
}

#[test]
fn default_entities_and_duplication() {
    let v = Vertex::default();
    assert_eq!(v.p, Vector3 { x: 1, y: 1, z: 1 });
    assert_eq!(v.mark, 0);
    let t = Tri::default();
    assert_eq!(t.material, usize::MAX);
    assert_eq!(t.v.0.index, 0);
    let mut m = EditTriMesh::default();
    let i0 = m.addDefaultVertex();
    assert_eq!(i0, 0);
    let i1 = m.dupVertex(0);
    assert_eq!(i1, 1);
    assert_eq!(m.vList[1].p, m.vList[0].p);
    let t0 = m.addDefaultTri();
    assert_eq!(t0, 0);
    m.markAllVertices(9);
    assert_eq!(m.vList[0].mark, 9);
    m.markAllTris(4);
    assert_eq!(m.tList[0].mark, 4);
    m.deleteTri(0);
    assert_eq!(m.triCount(), 0);
    m.empty();
    assert_eq!(m.vertexCount(), 0);
}
