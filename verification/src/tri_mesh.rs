//! The render-ready triangle mesh: a flat vertex buffer, a flat index
//! buffer of 16-bit triples, and a cached bounding box. It is built
//! once from a fully optimized single-part, single-material editable
//! mesh and never edited afterwards.
#![allow(non_snake_case)]

use vstd::prelude::*;
use crate::aabb3::{empty_box, spec_add_point, AABB3};
use crate::edit_tri_mesh::EditTriMesh;
use crate::renderer::{RenderTri, RenderVertex};

verus! {

pub struct TriMesh {
    pub vertexCount: usize,
    pub vertexList: Vec<RenderVertex>,
    pub triCount: usize,
    pub triList: Vec<RenderTri>,
    pub bounding_box: AABB3,
}

/// The flat render-vertex buffer a vertex list converts to.
pub open spec fn render_verts_of(vs: Seq<crate::edit_tri_mesh::Vertex>) -> Seq<RenderVertex> {
    Seq::new(
        vs.len(),
        |i: int| RenderVertex { p: vs[i].p, n: vs[i].normal, u: vs[i].u, v: vs[i].v },
    )
}

/// The flat 16-bit index buffer a triangle list converts to.
pub open spec fn render_tris_of(ts: Seq<crate::edit_tri_mesh::Tri>) -> Seq<RenderTri> {
    Seq::new(
        ts.len(),
        |k: int| RenderTri {
            a: ts[k].v.0.index as u16,
            b: ts[k].v.1.index as u16,
            c: ts[k].v.2.index as u16,
        },
    )
}

/// The bounding box of the first `i` render-vertex positions.
pub open spec fn render_bounds_of(vs: Seq<RenderVertex>, i: int) -> AABB3
    decreases i,
{
    if i <= 0 {
        empty_box()
    } else {
        spec_add_point(render_bounds_of(vs, i - 1), vs[i - 1].p)
    }
}

impl TriMesh {
    pub fn default() -> (r: TriMesh)
        ensures
            r.vertexCount == 0,
            r.vertexList@ == Seq::<RenderVertex>::empty(),
            r.triCount == 0,
            r.triList@ == Seq::<RenderTri>::empty(),
            r.bounding_box == empty_box(),
    {
        let mut bounding_box = AABB3::new();
        bounding_box.empty();
        TriMesh {
            vertexCount: 0,
            vertexList: Vec::new(),
            triCount: 0,
            triList: Vec::new(),
            bounding_box,
        }
    }

    /// Recompute the cached bounding box from the vertex buffer.
    pub fn computeBoundingBox(&mut self)
        ensures
            final(self).vertexCount == old(self).vertexCount,
            final(self).vertexList == old(self).vertexList,
            final(self).triCount == old(self).triCount,
            final(self).triList == old(self).triList,
            final(self).bounding_box == render_bounds_of(
                old(self).vertexList@,
                old(self).vertexList@.len() as int,
            ),
    {
        self.bounding_box.empty();
        let n = self.vertexList.len();
        let mut i: usize = 0;
        while i < n
            invariant
                n == self.vertexList@.len(),
                i <= n,
                self.vertexCount == old(self).vertexCount,
                self.vertexList == old(self).vertexList,
                self.triCount == old(self).triCount,
                self.triList == old(self).triList,
                self.bounding_box == render_bounds_of(self.vertexList@, i as int),
            decreases n - i,
        {
            let p = self.vertexList[i].p;
            self.bounding_box.add_point(&p);
            i = i + 1;
        }
    }

    /// Build the render mesh from a fully optimized editable mesh:
    /// positions, normals and vertex-level texture coordinates are
    /// copied as they stand (the caller has already split UVs and
    /// reordered the vertices), the corner indices are flattened into
    /// 16-bit triples, and the bounding box is computed.
    pub fn fromEditMesh(&mut self, mesh: &EditTriMesh)
        requires
            mesh.vList@.len() <= 0x1_0000,
            crate::edit_tri_mesh::tris_ref_valid_verts(mesh.tList@, mesh.vList@.len() as int),
        ensures
            final(self).vertexCount == mesh.vList@.len(),
            final(self).vertexList@ == render_verts_of(mesh.vList@),
            final(self).triList@ == render_tris_of(mesh.tList@),
            final(self).vertexList@.len() == mesh.vList@.len(),
            forall|i: int| 0 <= i < mesh.vList@.len() ==> #[trigger] final(self).vertexList@[i]
                == (RenderVertex {
                p: mesh.vList@[i].p,
                n: mesh.vList@[i].normal,
                u: mesh.vList@[i].u,
                v: mesh.vList@[i].v,
            }),
            final(self).triCount == mesh.tList@.len(),
            final(self).triList@.len() == mesh.tList@.len(),
            forall|k: int| 0 <= k < mesh.tList@.len() ==> #[trigger] final(self).triList@[k]
                == (RenderTri {
                a: mesh.tList@[k].v.0.index as u16,
                b: mesh.tList@[k].v.1.index as u16,
                c: mesh.tList@[k].v.2.index as u16,
            }),
            final(self).bounding_box == render_bounds_of(
                final(self).vertexList@,
                final(self).vertexList@.len() as int,
            ),
    {
        self.vertexList = Vec::new();
        self.triList = Vec::new();
        let vn = mesh.vList.len();
        let mut i: usize = 0;
        while i < vn
            invariant
                vn == mesh.vList@.len(),
                i <= vn,
                self.vertexList@.len() == i,
                forall|j: int| 0 <= j < i ==> #[trigger] self.vertexList@[j] == (RenderVertex {
                    p: mesh.vList@[j].p,
                    n: mesh.vList@[j].normal,
                    u: mesh.vList@[j].u,
                    v: mesh.vList@[j].v,
                }),
                self.triList@ == Seq::<RenderTri>::empty(),
            decreases vn - i,
        {
            let s = mesh.vList[i];
            self.vertexList.push(RenderVertex { p: s.p, n: s.normal, u: s.u, v: s.v });
            i = i + 1;
        }
        self.vertexCount = vn;
        let tn = mesh.tList.len();
        let mut k: usize = 0;
        while k < tn
            invariant
                tn == mesh.tList@.len(),
                vn == mesh.vList@.len(),
                vn <= 0x1_0000,
                crate::edit_tri_mesh::tris_ref_valid_verts(mesh.tList@, vn as int),
                k <= tn,
                self.triList@.len() == k,
                forall|j: int| 0 <= j < k ==> #[trigger] self.triList@[j] == (RenderTri {
                    a: mesh.tList@[j].v.0.index as u16,
                    b: mesh.tList@[j].v.1.index as u16,
                    c: mesh.tList@[j].v.2.index as u16,
                }),
                self.vertexCount == vn,
                self.vertexList@.len() == vn,
                forall|j: int| 0 <= j < vn ==> #[trigger] self.vertexList@[j] == (RenderVertex {
                    p: mesh.vList@[j].p,
                    n: mesh.vList@[j].normal,
                    u: mesh.vList@[j].u,
                    v: mesh.vList@[j].v,
                }),
            decreases tn - k,
        {
            let t = mesh.tList[k];
            self.triList.push(RenderTri {
                a: t.v.0.index as u16,
                b: t.v.1.index as u16,
                c: t.v.2.index as u16,
            });
            k = k + 1;
        }
        self.triCount = tn;
        proof {
            assert(self.vertexList@ =~= render_verts_of(mesh.vList@));
            assert(self.triList@ =~= render_tris_of(mesh.tList@));
        }
        self.computeBoundingBox();
    }
}

} // verus!
