//! A renderable model: one render mesh and one texture reference per
//! (part, material) combination of a source editable mesh. Texture
//! caching and draw submission belong to the renderer collaborator
//! outside this crate.
#![allow(non_snake_case)]

use vstd::prelude::*;
use crate::edit_tri_mesh::{
    compacted_tris_fn, first_use_count, first_use_rank, lemma_first_use_bounds,
    lemma_mat_first_bounds, mat_first_count, mat_first_rank, mat_remapped_tris,
    one_part_one_material_tris, one_part_tris, part_extraction_of, EditTriMesh, Tri, Vertex,
};
use crate::renderer::{RenderVertex, TextureReference};
use crate::tri_mesh::{render_bounds_of, render_tris_of, TriMesh};

verus! {

pub struct Model {
    pub partCount: usize,
    pub partMeshList: Vec<TriMesh>,
    pub partTextureList: Vec<TextureReference>,
}

/// Sum, over the first `p` parts, of the number of distinct materials
/// that part's triangles use: the number of render meshes a model
/// built from the mesh holds.
pub open spec fn parts_material_sum(tris: Seq<crate::edit_tri_mesh::Tri>, p: int) -> int
    decreases p,
{
    if p <= 0 {
        0
    } else {
        let pt = one_part_tris(tris, p - 1);
        parts_material_sum(tris, p - 1) + mat_first_count(pt, pt.len() as int)
    }
}


/// What one model entry holds for source part `p` and source material
/// `j` (used by that part): the texture reference carries that
/// material's name and a zero handle, and the render mesh is the
/// conversion of the (part, material) piece — the part's triangles
/// restricted to the material, corners replaced by first-use ranks, and
/// each used source vertex's geometry at its doubly-compacted slot.
pub open spec fn model_entry_matches(
    tm: TriMesh,
    tex: TextureReference,
    src_t: Seq<Tri>,
    src_v: Seq<Vertex>,
    src_m: Seq<crate::edit_tri_mesh::Material>,
    p: int,
    j: int,
) -> bool {
    let pt = one_part_tris(src_t, p);
    let ct = mat_remapped_tris(pt);
    let r = mat_first_rank(pt, j, pt.len() as int);
    let et2 = one_part_one_material_tris(compacted_tris_fn(ct), 0, r);
    &&& tex.name == src_m[j].diffuseTextureName
    &&& tex.handle == 0
    &&& tm.triCount == et2.len()
    &&& tm.triList@ == render_tris_of(compacted_tris_fn(et2))
    &&& tm.vertexCount == first_use_count(et2, 3 * et2.len() as int)
    &&& tm.vertexList@.len() == tm.vertexCount
    &&& (forall|vi: int| 0 <= vi < src_v.len()
        && #[trigger] first_use_rank(ct, vi, 3 * ct.len() as int) >= 0
        && first_use_rank(
            et2,
            first_use_rank(ct, vi, 3 * ct.len() as int),
            3 * et2.len() as int,
        ) >= 0 ==> tm.vertexList@[first_use_rank(
            et2,
            first_use_rank(ct, vi, 3 * ct.len() as int),
            3 * et2.len() as int,
        )] == (RenderVertex {
        p: src_v[vi].p,
        n: src_v[vi].normal,
        u: src_v[vi].u,
        v: src_v[vi].v,
    }))
    &&& tm.bounding_box == render_bounds_of(tm.vertexList@, tm.vertexList@.len() as int)
}

/// The per-part sums of distinct used materials are non-negative.
pub proof fn lemma_parts_sum_nonneg(tris: Seq<Tri>, p: int)
    requires
        p >= 0,
    ensures
        parts_material_sum(tris, p) >= 0,
    decreases p,
{
    if p > 0 {
        lemma_parts_sum_nonneg(tris, p - 1);
        let pt = one_part_tris(tris, p - 1);
        lemma_mat_first_bounds(pt, 0, pt.len() as int);
    }
}

/// The per-part sums of distinct used materials never shrink.
pub proof fn lemma_parts_sum_mono(tris: Seq<Tri>, p1: int, p2: int)
    requires
        0 <= p1 <= p2,
    ensures
        parts_material_sum(tris, p1) <= parts_material_sum(tris, p2),
    decreases p2 - p1,
{
    if p1 < p2 {
        lemma_parts_sum_mono(tris, p1, p2 - 1);
        let pt = one_part_tris(tris, p2 - 1);
        lemma_mat_first_bounds(pt, 0, pt.len() as int);
    }
}

impl Model {
    pub fn new() -> (r: Model)
        ensures
            r.partCount == 0,
            r.partMeshList@.len() == 0,
            r.partTextureList@.len() == 0,
    {
        Model { partCount: 0, partMeshList: Vec::new(), partTextureList: Vec::new() }
    }

    /// Reset to the empty state and record how many parts will follow.
    pub fn allocateMemory(&mut self, nPartCount: usize)
        ensures
            final(self).partMeshList@.len() == 0,
            final(self).partTextureList@.len() == 0,
            final(self).partCount == if nPartCount < 1 {
                0usize
            } else {
                nPartCount
            },
    {
        self.freeMemory();
        if nPartCount < 1 {
            return;
        }
        self.partCount = nPartCount;
    }

    /// Release all per-part data.
    pub fn freeMemory(&mut self)
        ensures
            final(self).partCount == 0,
            final(self).partMeshList@.len() == 0,
            final(self).partTextureList@.len() == 0,
    {
        self.partMeshList.clear();
        self.partTextureList.clear();
        self.partCount = 0;
    }

    /// The render mesh of one part entry.
    pub fn getPartMesh(&self, index: usize) -> (r: &TriMesh)
        requires
            index < self.partMeshList@.len(),
        ensures
            r == self.partMeshList@[index as int],
    {
        &self.partMeshList[index]
    }

    /// The texture reference of one part entry.
    pub fn getPartTexture(&self, index: usize) -> (r: &TextureReference)
        requires
            index < self.partTextureList@.len(),
        ensures
            r == self.partTextureList@[index as int],
    {
        &self.partTextureList[index]
    }

    /// Rename the texture of one part entry; the handle is kept.
    pub fn setPartTextureName(&mut self, index: usize, name: &str)
        requires
            index < old(self).partTextureList@.len(),
        ensures
            final(self).partCount == old(self).partCount,
            final(self).partMeshList == old(self).partMeshList,
            final(self).partTextureList@.len() == old(self).partTextureList@.len(),
            final(self).partTextureList@[index as int].name@ == name@,
            final(self).partTextureList@[index as int].handle == old(self).partTextureList@[
                index as int
            ].handle,
            forall|i: int| 0 <= i < old(self).partTextureList@.len() && i != index
                ==> final(self).partTextureList@[i] == old(self).partTextureList@[i],
    {
        let handle = self.partTextureList[index].handle;
        self.partTextureList[index] = TextureReference { name: name.to_owned(), handle };
    }

    /// Build the model from an editable mesh: split it by part, then
    /// split each part by material, convert every such piece into a
    /// render mesh, and record the piece's texture name. The model
    /// gains one entry per (part, material-used-in-that-part) pair, in
    /// part-major order, and each entry holds exactly that piece's
    /// conversion (`model_entry_matches`).
    pub fn fromEditMesh(&mut self, mesh: &mut EditTriMesh)
        requires
            crate::edit_tri_mesh::tris_ref_valid_verts(
                old(mesh).tList@,
                old(mesh).vList@.len() as int,
            ),
            crate::edit_tri_mesh::tris_ref_valid_materials(
                old(mesh).tList@,
                old(mesh).mList@.len() as int,
            ),
            old(mesh).vList@.len() <= 0x1_0000,
            old(mesh).mList@.len() < 0x8000_0000_0000_0000,
            3 * old(mesh).tList@.len() <= usize::MAX,
        ensures
            *final(mesh) == *old(mesh),
            final(self).partMeshList@.len() == final(self).partCount,
            final(self).partTextureList@.len() == final(self).partCount,
            final(self).partCount == if old(mesh).pList@.len() == 0 {
                0int
            } else {
                parts_material_sum(
                    old(mesh).tList@,
                    old(mesh).pList@.len() as int,
                )
            },
            forall|p: int, jm: int|
                #![trigger mat_first_rank(
                    one_part_tris(old(mesh).tList@, p),
                    jm,
                    one_part_tris(old(mesh).tList@, p).len() as int,
                )]
                0 <= p < old(mesh).pList@.len() && 0 <= jm < old(mesh).mList@.len()
                    && mat_first_rank(
                        one_part_tris(old(mesh).tList@, p),
                        jm,
                        one_part_tris(old(mesh).tList@, p).len() as int,
                    ) >= 0 ==> {
                    let d = parts_material_sum(
                        old(mesh).tList@,
                        p,
                    ) + mat_first_rank(
                        one_part_tris(old(mesh).tList@, p),
                        jm,
                        one_part_tris(old(mesh).tList@, p).len() as int,
                    );
                    &&& 0 <= d < final(self).partMeshList@.len()
                    &&& model_entry_matches(
                        final(self).partMeshList@[d],
                        final(self).partTextureList@[d],
                        old(mesh).tList@,
                        old(mesh).vList@,
                        old(mesh).mList@,
                        p,
                        jm,
                    )
                },
    {
        self.freeMemory();
        if mesh.partCount() < 1 {
            return;
        }
        let pcount = mesh.pList.len();
        let mut partMeshes: Vec<EditTriMesh> = Vec::new();
        let mut i0: usize = 0;
        while i0 < pcount
            invariant
                i0 <= pcount,
                partMeshes@.len() == i0,
            decreases pcount - i0,
        {
            partMeshes.push(EditTriMesh::default());
            i0 = i0 + 1;
        }
        mesh.extractParts(&mut partMeshes);
        let mut i: usize = 0;
        while i < pcount
            invariant
                i <= pcount,
                pcount == old(mesh).pList@.len(),
                *mesh == *old(mesh),
                crate::edit_tri_mesh::tris_ref_valid_verts(
                    old(mesh).tList@,
                    old(mesh).vList@.len() as int,
                ),
                old(mesh).vList@.len() <= 0x1_0000,
                old(mesh).mList@.len() < 0x8000_0000_0000_0000,
                3 * old(mesh).tList@.len() <= usize::MAX,
                partMeshes@.len() == pcount,
                forall|pp: int| 0 <= pp < pcount ==> #[trigger] part_extraction_of(
                    partMeshes@[pp],
                    old(mesh).tList@,
                    old(mesh).vList@,
                    old(mesh).mList@,
                    old(mesh).pList@,
                    pp,
                ),
                self.partMeshList@.len() == parts_material_sum(
                    old(mesh).tList@,
                    i as int,
                ),
                self.partTextureList@.len() == self.partMeshList@.len(),
                forall|p: int, jm: int|
                    #![trigger mat_first_rank(
                    one_part_tris(old(mesh).tList@, p),
                    jm,
                    one_part_tris(old(mesh).tList@, p).len() as int,
                )]
                    0 <= p < i && 0 <= jm < old(mesh).mList@.len() && mat_first_rank(
                        one_part_tris(old(mesh).tList@, p),
                        jm,
                        one_part_tris(old(mesh).tList@, p).len() as int,
                    ) >= 0 ==> {
                        let d = parts_material_sum(
                            old(mesh).tList@,
                            p,
                        ) + mat_first_rank(
                        one_part_tris(old(mesh).tList@, p),
                        jm,
                        one_part_tris(old(mesh).tList@, p).len() as int,
                    );
                        &&& 0 <= d < self.partMeshList@.len()
                        &&& model_entry_matches(
                            self.partMeshList@[d],
                            self.partTextureList@[d],
                            old(mesh).tList@,
                            old(mesh).vList@,
                            old(mesh).mList@,
                            p,
                            jm,
                        )
                    },
            decreases pcount - i,
        {
            let srcMesh = &partMeshes[i];
            let mlen = srcMesh.mList.len();
            let ghost pt_i = one_part_tris(old(mesh).tList@, i as int);
            let ghost ct_i = mat_remapped_tris(pt_i);
            let mut j: usize = 0;
            while j < mlen
                invariant
                    j <= mlen,
                    i < pcount,
                    pcount == old(mesh).pList@.len(),
                    partMeshes@.len() == pcount,
                    crate::edit_tri_mesh::tris_ref_valid_verts(
                        old(mesh).tList@,
                        old(mesh).vList@.len() as int,
                    ),
                    old(mesh).vList@.len() <= 0x1_0000,
                    old(mesh).mList@.len() < 0x8000_0000_0000_0000,
                    3 * old(mesh).tList@.len() <= usize::MAX,
                    pt_i == one_part_tris(old(mesh).tList@, i as int),
                    ct_i == mat_remapped_tris(pt_i),
                    part_extraction_of(
                        partMeshes@[i as int],
                        old(mesh).tList@,
                        old(mesh).vList@,
                        old(mesh).mList@,
                        old(mesh).pList@,
                        i as int,
                    ),
                    mlen == partMeshes@[i as int].mList@.len(),
                    srcMesh == partMeshes@[i as int],
                    self.partMeshList@.len() == parts_material_sum(
                        old(mesh).tList@,
                        i as int,
                    ) + j,
                    self.partTextureList@.len() == self.partMeshList@.len(),
                    forall|p: int, jm: int|
                        #![trigger mat_first_rank(
                    one_part_tris(old(mesh).tList@, p),
                    jm,
                    one_part_tris(old(mesh).tList@, p).len() as int,
                )]
                        0 <= p < i && 0 <= jm < old(mesh).mList@.len() && mat_first_rank(
                            one_part_tris(old(mesh).tList@, p),
                            jm,
                            one_part_tris(old(mesh).tList@, p).len() as int,
                        ) >= 0 ==> {
                            let d = parts_material_sum(
                                old(mesh).tList@,
                                p,
                            ) + mat_first_rank(
                        one_part_tris(old(mesh).tList@, p),
                        jm,
                        one_part_tris(old(mesh).tList@, p).len() as int,
                    );
                            &&& 0 <= d < self.partMeshList@.len()
                            &&& model_entry_matches(
                                self.partMeshList@[d],
                                self.partTextureList@[d],
                                old(mesh).tList@,
                                old(mesh).vList@,
                                old(mesh).mList@,
                                p,
                                jm,
                            )
                        },
                    forall|jm: int|
                        #![trigger mat_first_rank(pt_i, jm, pt_i.len() as int)]
                        0 <= jm < old(mesh).mList@.len() && mat_first_rank(pt_i, jm, pt_i.len() as int) >= 0
                            && mat_first_rank(pt_i, jm, pt_i.len() as int) < j ==> {
                            let d = parts_material_sum(
                                old(mesh).tList@,
                                i as int,
                            ) + mat_first_rank(pt_i, jm, pt_i.len() as int);
                            &&& 0 <= d < self.partMeshList@.len()
                            &&& model_entry_matches(
                                self.partMeshList@[d],
                                self.partTextureList@[d],
                                old(mesh).tList@,
                                old(mesh).vList@,
                                old(mesh).mList@,
                                i as int,
                                jm,
                            )
                        },
                decreases mlen - j,
            {
                let mut onePartOneMaterial = EditTriMesh::default();
                srcMesh.extractOnePartOneMaterial(0, j, &mut onePartOneMaterial);
                let mut partMesh = TriMesh::default();
                partMesh.fromEditMesh(&onePartOneMaterial);
                self.partMeshList.push(partMesh);
                let name = onePartOneMaterial.mList[0].diffuseTextureName.clone();
                self.partTextureList.push(TextureReference { name, handle: 0 });
                proof {
                    lemma_parts_sum_nonneg(
                        old(mesh).tList@,
                        i as int,
                    );
                    let et2 = one_part_one_material_tris(
                        partMeshes@[i as int].tList@,
                        0,
                        j as int,
                    );
                    assert(partMeshes@[i as int].tList@ == compacted_tris_fn(ct_i));
                    assert forall|jm: int|
                        0 <= jm < old(mesh).mList@.len() && mat_first_rank(pt_i, jm, pt_i.len() as int) >= 0
                            && #[trigger] mat_first_rank(pt_i, jm, pt_i.len() as int) < j + 1 implies {
                            let d = parts_material_sum(
                                old(mesh).tList@,
                                i as int,
                            ) + mat_first_rank(pt_i, jm, pt_i.len() as int);
                            &&& 0 <= d < self.partMeshList@.len()
                            &&& model_entry_matches(
                                self.partMeshList@[d],
                                self.partTextureList@[d],
                                old(mesh).tList@,
                                old(mesh).vList@,
                                old(mesh).mList@,
                                i as int,
                                jm,
                            )
                        } by {
                        if mat_first_rank(pt_i, jm, pt_i.len() as int) == j as int {
                            let d = parts_material_sum(
                                old(mesh).tList@,
                                i as int,
                            ) + j;
                            let tm = self.partMeshList@[d];
                            let tex = self.partTextureList@[d];
                            assert(tm == self.partMeshList@[self.partMeshList@.len() - 1]);
                            assert(partMeshes@[i as int].mList@[j as int]
                                == (crate::edit_tri_mesh::Material {
                                diffuseTextureName: old(
                                    mesh,
                                ).mList@[jm].diffuseTextureName,
                                mark: j as i64,
                            }));
                            assert(tex.name == old(mesh).mList@[jm].diffuseTextureName);
                            assert(onePartOneMaterial.tList@ == compacted_tris_fn(et2));
                            assert forall|vi: int| 0 <= vi < old(mesh).vList@.len()
                                && #[trigger] first_use_rank(
                                ct_i,
                                vi,
                                3 * ct_i.len() as int,
                            ) >= 0 && first_use_rank(
                                et2,
                                first_use_rank(ct_i, vi, 3 * ct_i.len() as int),
                                3 * et2.len() as int,
                            ) >= 0 implies tm.vertexList@[first_use_rank(
                                et2,
                                first_use_rank(ct_i, vi, 3 * ct_i.len() as int),
                                3 * et2.len() as int,
                            )] == (RenderVertex {
                                p: old(mesh).vList@[vi].p,
                                n: old(mesh).vList@[vi].normal,
                                u: old(mesh).vList@[vi].u,
                                v: old(mesh).vList@[vi].v,
                            }) by {
                                let r1 = first_use_rank(ct_i, vi, 3 * ct_i.len() as int);
                                let r2 = first_use_rank(et2, r1, 3 * et2.len() as int);
                                lemma_first_use_bounds(ct_i, vi, 3 * ct_i.len() as int);
                                lemma_first_use_bounds(et2, r1, 3 * et2.len() as int);
                                assert(partMeshes@[i as int].vList@[r1] == (Vertex {
                                    mark: r1 as i64,
                                    ..old(mesh).vList@[vi]
                                }));
                                assert(onePartOneMaterial.vList@[r2] == (Vertex {
                                    mark: r2 as i64,
                                    ..partMeshes@[i as int].vList@[r1]
                                }));
                                assert(tm.vertexList@[r2] == (RenderVertex {
                                    p: onePartOneMaterial.vList@[r2].p,
                                    n: onePartOneMaterial.vList@[r2].normal,
                                    u: onePartOneMaterial.vList@[r2].u,
                                    v: onePartOneMaterial.vList@[r2].v,
                                }));
                            }
                            assert(model_entry_matches(
                                tm,
                                tex,
                                old(mesh).tList@,
                                old(mesh).vList@,
                                old(mesh).mList@,
                                i as int,
                                jm,
                            ));
                        }
                    }
                }
                j = j + 1;
            }
            proof {
                assert forall|jm: int|
                    0 <= jm < old(mesh).mList@.len() && #[trigger] mat_first_rank(
                    pt_i,
                    jm,
                    pt_i.len() as int,
                ) >= 0 implies mat_first_rank(pt_i, jm, pt_i.len() as int) < mlen as int by {
                    lemma_mat_first_bounds(pt_i, jm, pt_i.len() as int);
                }
            }
            i = i + 1;
        }
        self.partCount = self.partMeshList.len();
        proof {
            if old(mesh).pList@.len() > 0 {
                lemma_parts_sum_nonneg(
                    old(mesh).tList@,
                    old(mesh).pList@.len() as int,
                );
            }
        }
    }
}

} // verus!
