//! The editable triangle mesh: four index-addressed lists (vertices,
//! triangles, materials, parts) in which every triangle refers to the
//! other lists purely by position. Every structural edit that removes
//! an entity therefore rewrites the indices of every triangle in the
//! same operation, by the mark-then-remap-then-compact pattern.
#![allow(non_snake_case)]

use vstd::prelude::*;
use vstd::seq_lib::*;
use crate::vector3::Vector3;

verus! {

/// A mesh-level vertex. The `u`/`v` pair here is derived: the
/// authoritative texture coordinates live on the triangle corners and
/// are copied up by `copyUvsIntoVertices`. `mark` is scratch space for
/// the algorithms; no value is promised to persist across calls.
#[derive(Clone, Copy, Debug)]
pub struct Vertex {
    pub p: Vector3,
    pub u: i64,
    pub v: i64,
    pub normal: Vector3,
    pub mark: i64,
}

/// One corner of a triangle: an index into the owning mesh's vertex
/// list, plus the corner's own texture coordinates.
#[derive(Clone, Copy, Debug)]
pub struct Vert {
    pub index: usize,
    pub u: i64,
    pub v: i64,
}

/// A triangle: three corners, a face normal (valid only after normal
/// computation), and indices into the part and material lists.
/// `usize::MAX` in `material` denotes "not yet resolved".
#[derive(Clone, Copy, Debug)]
pub struct Tri {
    pub v: (Vert, Vert, Vert),
    pub normal: Vector3,
    pub part: usize,
    pub material: usize,
    pub mark: i64,
}

#[derive(Debug)]
pub struct Material {
    pub diffuseTextureName: String,
    pub mark: i64,
}

#[derive(Debug)]
pub struct Part {
    pub name: String,
    pub mark: i64,
}

#[derive(Debug)]
pub struct EditTriMesh {
    pub vList: Vec<Vertex>,
    pub tList: Vec<Tri>,
    pub mList: Vec<Material>,
    pub pList: Vec<Part>,
}

/// Distance and edge-angle tolerances for vertex welding. The cosine
/// is stored in millionths, like every derived unit quantity.
#[derive(Clone, Copy, Debug)]
pub struct OptimizationParameters {
    pub coincidentVertexTolerance: i64,
    pub cosOfEdgeAngleTolerance: i64,
}

impl Clone for Material {
    fn clone(&self) -> (r: Self)
        ensures
            r == *self,
    {
        Material { diffuseTextureName: self.diffuseTextureName.clone(), mark: self.mark }
    }
}

impl Clone for Part {
    fn clone(&self) -> (r: Self)
        ensures
            r == *self,
    {
        Part { name: self.name.clone(), mark: self.mark }
    }
}

/// The corner of a triangle at position `j` (0, 1 or 2).
pub open spec fn vert_at(t: Tri, j: int) -> Vert {
    if j == 0 {
        t.v.0
    } else if j == 1 {
        t.v.1
    } else {
        t.v.2
    }
}

/// Whether the triangle refers to vertex `i` at any corner.
pub open spec fn tri_uses_vertex(t: Tri, i: int) -> bool {
    t.v.0.index == i || t.v.1.index == i || t.v.2.index == i
}

/// Whether any two corners of the triangle share a vertex index.
pub open spec fn spec_is_degenerate(t: Tri) -> bool {
    t.v.0.index == t.v.1.index || t.v.1.index == t.v.2.index || t.v.0.index == t.v.2.index
}

/// Every corner of every triangle indexes into a vertex list of length
/// `vcount`.
pub open spec fn tris_ref_valid_verts(tris: Seq<Tri>, vcount: int) -> bool {
    forall|k: int| 0 <= k < tris.len() ==> {
        &&& (#[trigger] tris[k]).v.0.index < vcount
        &&& tris[k].v.1.index < vcount
        &&& tris[k].v.2.index < vcount
    }
}

/// Every triangle's material index is below `mcount`.
pub open spec fn tris_ref_valid_materials(tris: Seq<Tri>, mcount: int) -> bool {
    forall|k: int| 0 <= k < tris.len() ==> (#[trigger] tris[k]).material < mcount
}

/// Every triangle's part index is below `pcount`.
pub open spec fn tris_ref_valid_parts(tris: Seq<Tri>, pcount: int) -> bool {
    forall|k: int| 0 <= k < tris.len() ==> (#[trigger] tris[k]).part < pcount
}

/// Index consistency of the whole mesh: every reference lands in its
/// owning list.
pub open spec fn wf(m: EditTriMesh) -> bool {
    &&& tris_ref_valid_verts(m.tList@, m.vList@.len() as int)
    &&& tris_ref_valid_materials(m.tList@, m.mList@.len() as int)
    &&& tris_ref_valid_parts(m.tList@, m.pList@.len() as int)
}


/// A corner index after vertex `i` is removed: indices past `i` shift
/// down one; corners at or before `i` are untouched.
pub open spec fn fix_vert(w: Vert, i: int) -> Vert {
    if w.index > i {
        Vert { index: (w.index - 1) as usize, ..w }
    } else {
        w
    }
}

/// A surviving triangle after vertex `i` is removed: all three corner
/// indices shifted and the scratch mark reset.
pub open spec fn fix_tri_vertex_delete(t: Tri, i: int) -> Tri {
    Tri {
        v: (fix_vert(t.v.0, i), fix_vert(t.v.1, i), fix_vert(t.v.2, i)),
        mark: 0i64,
        ..t
    }
}

/// The in-place marking pass of `deleteVertex` on one triangle: corners
/// are visited in order; a corner referring to `i` marks the triangle
/// for removal and stops the scan, otherwise the corner is shifted and
/// any stale scratch mark is cleared.
pub open spec fn mark_tri_vertex_delete(t: Tri, i: int) -> Tri {
    if t.v.0.index == i {
        Tri { mark: 1, ..t }
    } else {
        let w0 = fix_vert(t.v.0, i);
        if t.v.1.index == i {
            Tri { v: (w0, t.v.1, t.v.2), mark: 1, ..t }
        } else {
            let w1 = fix_vert(t.v.1, i);
            if t.v.2.index == i {
                Tri { v: (w0, w1, t.v.2), mark: 1, ..t }
            } else {
                Tri { v: (w0, w1, fix_vert(t.v.2, i)), mark: 0, ..t }
            }
        }
    }
}

/// The triangle list after `deleteVertex(i)`: exactly the triangles
/// that refer to `i` are gone; the rest have their corner indices
/// shifted.
pub open spec fn tris_after_vertex_delete(tris: Seq<Tri>, i: int) -> Seq<Tri> {
    tris.filter(|t: Tri| !tri_uses_vertex(t, i)).map_values(
        |t: Tri| fix_tri_vertex_delete(t, i),
    )
}

/// The marking pass of `deleteMaterial` on one triangle: users of the
/// material are marked, everyone else is unmarked and its material
/// index shifted.
pub open spec fn mark_tri_material_delete(t: Tri, i: int) -> Tri {
    if t.material == i {
        Tri { mark: 1, ..t }
    } else if t.material > i {
        Tri { material: (t.material - 1) as usize, mark: 0, ..t }
    } else {
        Tri { mark: 0, ..t }
    }
}

/// The triangle list after `deleteMaterial(i)`.
pub open spec fn tris_after_material_delete(tris: Seq<Tri>, i: int) -> Seq<Tri> {
    tris.filter(|t: Tri| t.material != i).map_values(|t: Tri| mark_tri_material_delete(t, i))
}

/// The marking pass of `deletePart` on one triangle.
pub open spec fn mark_tri_part_delete(t: Tri, i: int) -> Tri {
    if t.part == i {
        Tri { mark: 1, ..t }
    } else if t.part > i {
        Tri { part: (t.part - 1) as usize, mark: 0, ..t }
    } else {
        Tri { mark: 0, ..t }
    }
}

/// The triangle list after `deletePart(i)`.
pub open spec fn tris_after_part_delete(tris: Seq<Tri>, i: int) -> Seq<Tri> {
    tris.filter(|t: Tri| t.part != i).map_values(|t: Tri| mark_tri_part_delete(t, i))
}


/// Number of positions below `j` that satisfy `used`: the compacted
/// index that position `j` receives when the unused ones are removed.
pub open spec fn rank_below(used: spec_fn(int) -> bool, j: int) -> int
    decreases j,
{
    if j <= 0 {
        0
    } else {
        rank_below(used, j - 1) + if used(j - 1) { 1int } else { 0int }
    }
}

/// A rank over a non-negative range lies between zero and the range.
pub proof fn lemma_rank_below_nonneg(used: spec_fn(int) -> bool, j: int)
    ensures
        j >= 0 ==> 0 <= rank_below(used, j) <= j,
    decreases j,
{
    if j > 0 {
        lemma_rank_below_nonneg(used, j - 1);
    }
}

/// Ranks never shrink as the boundary moves right.
pub proof fn lemma_rank_below_monotone(used: spec_fn(int) -> bool, j1: int, j2: int)
    requires
        j1 <= j2,
    ensures
        rank_below(used, j1) <= rank_below(used, j2),
    decreases j2 - j1,
{
    if j1 < j2 {
        lemma_rank_below_monotone(used, j1, j2 - 1);
    }
}

/// A used position's rank is strictly below the rank of any later
/// boundary.
pub proof fn lemma_rank_below_strict(used: spec_fn(int) -> bool, j: int, n: int)
    requires
        0 <= j < n,
        used(j),
    ensures
        rank_below(used, j) < rank_below(used, n),
        rank_below(used, j + 1) == rank_below(used, j) + 1,
{
    lemma_rank_below_monotone(used, j + 1, n);
}

/// When the rank of the whole range equals its length, every position
/// is used and every rank is the identity.
pub proof fn lemma_rank_below_full(used: spec_fn(int) -> bool, n: int)
    requires
        0 <= n,
        rank_below(used, n) == n,
    ensures
        forall|j: int| 0 <= j < n ==> #[trigger] used(j),
        forall|j: int| 0 <= j <= n ==> #[trigger] rank_below(used, j) == j,
    decreases n,
{
    if n > 0 {
        lemma_rank_below_nonneg(used, n - 1);
        assert(rank_below(used, n - 1) == n - 1);
        lemma_rank_below_full(used, n - 1);
    }
}

/// Every compacted index below the total is hit by some used position.
pub proof fn lemma_rank_below_surjective(used: spec_fn(int) -> bool, n: int, r: int)
    requires
        0 <= r < rank_below(used, n),
    ensures
        exists|j: int| 0 <= j < n && #[trigger] used(j) && rank_below(used, j) == r,
    decreases n,
{
    if n > 0 {
        if used(n - 1) && rank_below(used, n - 1) == r {
            assert(0 <= n - 1 < n && used(n - 1) && rank_below(used, n - 1) == r);
        } else {
            lemma_rank_below_monotone(used, 0, n - 1);
            lemma_rank_below_surjective(used, n - 1, r);
        }
    }
}

/// Filtering a sequence whose elements are kept exactly at the used
/// positions compacts each kept element to its rank.
pub proof fn lemma_compact_by_rank<T>(s: Seq<T>, used: spec_fn(int) -> bool, keep: spec_fn(T) -> bool)
    requires
        forall|j: int| 0 <= j < s.len() ==> keep(s[j]) == used(j),
    ensures
        s.filter(keep).len() == rank_below(used, s.len() as int),
        forall|j: int| 0 <= j < s.len() && #[trigger] used(j) ==> 0 <= rank_below(used, j)
            && rank_below(used, j) < s.filter(keep).len()
            && s.filter(keep)[rank_below(used, j)] == s[j],
    decreases s.len(),
{
    if s.len() == 0 {
        reveal_with_fuel(Seq::filter, 1);
    } else {
        let s0 = s.drop_last();
        let x = s.last();
        let n = s.len() as int;
        assert(forall|j: int| 0 <= j < s0.len() ==> keep(s0[j]) == used(j));
        lemma_compact_by_rank(s0, used, keep);
        lemma_filter_push(s0, keep, x);
        assert(s0.push(x) =~= s);
        assert(keep(s[n - 1]) == used(n - 1));
        lemma_rank_below_nonneg(used, n - 1);
        if used(n - 1) {
            assert(s.filter(keep) == s0.filter(keep).push(x));
            assert(rank_below(used, n - 1) == s0.filter(keep).len());
            assert forall|j: int| 0 <= j < n && #[trigger] used(j) implies
                0 <= rank_below(used, j) && rank_below(used, j) < s.filter(keep).len()
                && s.filter(keep)[rank_below(used, j)] == s[j] by {
                if j < n - 1 {
                    assert(rank_below(used, j) < s0.filter(keep).len());
                    assert(s.filter(keep)[rank_below(used, j)]
                        == s0.filter(keep)[rank_below(used, j)]);
                } else {
                    assert(s.filter(keep)[rank_below(used, n - 1)] == x);
                }
            }
        } else {
            assert(s.filter(keep) == s0.filter(keep));
        }
    }
}

/// Whether any of the first `upto` triangles uses material `j`.
pub open spec fn material_used_upto(tris: Seq<Tri>, upto: int, j: int) -> bool {
    exists|k: int| 0 <= k < upto && (#[trigger] tris[k]).material == j
}

/// Whether any triangle uses material `j`.
pub open spec fn material_used(tris: Seq<Tri>, j: int) -> bool {
    material_used_upto(tris, tris.len() as int, j)
}

/// The compacted index material `j` receives once unused materials are
/// removed.
pub open spec fn material_rank(tris: Seq<Tri>, j: int) -> int {
    rank_below(|jj: int| material_used(tris, jj), j)
}

/// Whether any of the first `upto` triangles belongs to part `j`.
pub open spec fn part_used_upto(tris: Seq<Tri>, upto: int, j: int) -> bool {
    exists|k: int| 0 <= k < upto && (#[trigger] tris[k]).part == j
}

/// Whether any triangle belongs to part `j`.
pub open spec fn part_used(tris: Seq<Tri>, j: int) -> bool {
    part_used_upto(tris, tris.len() as int, j)
}

/// The compacted index part `j` receives once empty parts are removed.
pub open spec fn part_rank(tris: Seq<Tri>, j: int) -> int {
    rank_below(|jj: int| part_used(tris, jj), j)
}


/// A face-corner's private copy of a mesh vertex: geometry and texture
/// coordinates are kept, the scratch mark is reset.
pub open spec fn detached_vertex(ov: Vertex) -> Vertex {
    Vertex { mark: 0, ..ov }
}


/// The detached vertex list of the first `k` triangles: three private
/// vertex copies per face, in face-corner order.
pub open spec fn detached_verts(tris: Seq<Tri>, vs: Seq<Vertex>, k: int) -> Seq<Vertex>
    decreases k,
{
    if k <= 0 {
        Seq::empty()
    } else {
        detached_verts(tris, vs, k - 1)
            + seq![
            detached_vertex(vs[tris[k - 1].v.0.index as int]),
            detached_vertex(vs[tris[k - 1].v.1.index as int]),
            detached_vertex(vs[tris[k - 1].v.2.index as int]),
        ]
    }
}

/// Length and per-corner content of the detached vertex list.
pub proof fn lemma_detached_verts_index(tris: Seq<Tri>, vs: Seq<Vertex>, k: int)
    requires
        0 <= k <= tris.len(),
    ensures
        detached_verts(tris, vs, k).len() == 3 * k,
        forall|kk: int| 0 <= kk < k ==> {
            &&& #[trigger] detached_verts(tris, vs, k)[3 * kk] == detached_vertex(
                vs[tris[kk].v.0.index as int],
            )
            &&& detached_verts(tris, vs, k)[3 * kk + 1] == detached_vertex(
                vs[tris[kk].v.1.index as int],
            )
            &&& detached_verts(tris, vs, k)[3 * kk + 2] == detached_vertex(
                vs[tris[kk].v.2.index as int],
            )
        },
    decreases k,
{
    if k > 0 {
        lemma_detached_verts_index(tris, vs, k - 1);
    }
}


/// The vertex index of face corner `c` (corner `c % 3` of triangle
/// `c / 3`).
pub open spec fn corner_index(tris: Seq<Tri>, c: int) -> int {
    vert_at(tris[c / 3], c % 3).index as int
}

/// How many distinct vertices the first `c` face corners refer to:
/// the length of the reordered, used part of the vertex list.
pub open spec fn first_use_count(tris: Seq<Tri>, c: int) -> int
    decreases c, 1int,
{
    if c <= 0 {
        0
    } else {
        first_use_count(tris, c - 1) + if first_use_rank(tris, corner_index(tris, c - 1), c - 1)
            >= 0 {
            0int
        } else {
            1int
        }
    }
}

/// The position vertex `vi` receives in first-use order, scanning the
/// first `c` corners; `-1` while no corner has referred to it.
pub open spec fn first_use_rank(tris: Seq<Tri>, vi: int, c: int) -> int
    decreases c, 0int,
{
    if c <= 0 {
        -1
    } else if first_use_rank(tris, vi, c - 1) >= 0 {
        first_use_rank(tris, vi, c - 1)
    } else if corner_index(tris, c - 1) == vi {
        first_use_count(tris, c - 1)
    } else {
        -1
    }
}

/// First-use ranks stay below the running count, and the count stays
/// below the number of corners scanned.
pub proof fn lemma_first_use_bounds(tris: Seq<Tri>, vi: int, c: int)
    requires
        c >= 0,
    ensures
        0 <= first_use_count(tris, c) <= c,
        -1 <= first_use_rank(tris, vi, c) < first_use_count(tris, c),
        first_use_count(tris, c - 1) <= first_use_count(tris, c),
    decreases c,
{
    if c > 0 {
        lemma_first_use_bounds(tris, vi, c - 1);
        lemma_first_use_bounds(tris, corner_index(tris, c - 1), c - 1);
    }
}

/// Stability applied when the rank is known non-negative at `c1`,
/// restated over the raw corner counters of the reordering scan.
pub proof fn lemma_first_use_stable_nonneg(tris: Seq<Tri>, vi: int, c1: int, c2: int)
    requires
        0 <= c1 <= c2,
    ensures
        first_use_rank(tris, vi, c1) >= 0 ==> first_use_rank(tris, vi, c2)
            == first_use_rank(tris, vi, c1),
{
    if first_use_rank(tris, vi, c1) >= 0 {
        lemma_first_use_stable(tris, vi, c1, c2);
    }
}

/// An assigned rank never changes as more corners are scanned.
pub proof fn lemma_first_use_stable(tris: Seq<Tri>, vi: int, c1: int, c2: int)
    requires
        0 <= c1 <= c2,
        first_use_rank(tris, vi, c1) >= 0,
    ensures
        first_use_rank(tris, vi, c2) == first_use_rank(tris, vi, c1),
    decreases c2 - c1,
{
    if c1 < c2 {
        lemma_first_use_stable(tris, vi, c1, c2 - 1);
    }
}

/// Distinct vertices receive distinct ranks.
pub proof fn lemma_first_use_injective(tris: Seq<Tri>, vi1: int, vi2: int, c: int)
    requires
        c >= 0,
        vi1 != vi2,
        first_use_rank(tris, vi1, c) >= 0,
        first_use_rank(tris, vi2, c) >= 0,
    ensures
        first_use_rank(tris, vi1, c) != first_use_rank(tris, vi2, c),
    decreases c,
{
    if c > 0 {
        let r1 = first_use_rank(tris, vi1, c - 1);
        let r2 = first_use_rank(tris, vi2, c - 1);
        if r1 >= 0 && r2 >= 0 {
            lemma_first_use_injective(tris, vi1, vi2, c - 1);
        } else if r1 >= 0 {
            lemma_first_use_bounds(tris, vi1, c - 1);
        } else if r2 >= 0 {
            lemma_first_use_bounds(tris, vi2, c - 1);
        }
    }
}

/// Every position below the final count is some vertex's rank.
pub proof fn lemma_first_use_surjective(tris: Seq<Tri>, c: int, r: int)
    requires
        0 <= r < first_use_count(tris, c),
    ensures
        exists|vi: int| #[trigger] first_use_rank(tris, vi, c) == r,
    decreases c,
{
    if c > 0 {
        if r < first_use_count(tris, c - 1) {
            lemma_first_use_surjective(tris, c - 1, r);
            let vi = choose|vi: int| #[trigger] first_use_rank(tris, vi, c - 1) == r;
            lemma_first_use_stable(tris, vi, c - 1, c);
            assert(first_use_rank(tris, vi, c) == r);
        } else {
            let vi = corner_index(tris, c - 1);
            assert(first_use_rank(tris, vi, c) == r);
        }
    }
}


/// Two pointwise-equal predicates count the same positions.
pub proof fn lemma_rank_below_same(p1: spec_fn(int) -> bool, p2: spec_fn(int) -> bool, n: int)
    requires
        forall|w: int| #[trigger] p1(w) == p2(w),
    ensures
        rank_below(p1, n) == rank_below(p2, n),
    decreases n,
{
    if n > 0 {
        lemma_rank_below_same(p1, p2, n - 1);
    }
}

/// Turning exactly one position true raises the count by one.
pub proof fn lemma_rank_below_flip(
    p1: spec_fn(int) -> bool,
    p2: spec_fn(int) -> bool,
    vi: int,
    n: int,
)
    requires
        0 <= vi < n,
        !p1(vi),
        p2(vi),
        forall|w: int| w != vi ==> #[trigger] p1(w) == p2(w),
    ensures
        rank_below(p2, n) == rank_below(p1, n) + 1,
    decreases n,
{
    if vi == n - 1 {
        lemma_rank_below_same_upto(p1, p2, n - 1);
    } else {
        lemma_rank_below_flip(p1, p2, vi, n - 1);
    }
}

/// Predicates that agree below `n` count the same there.
pub proof fn lemma_rank_below_same_upto(p1: spec_fn(int) -> bool, p2: spec_fn(int) -> bool, n: int)
    requires
        forall|w: int| 0 <= w < n ==> #[trigger] p1(w) == p2(w),
    ensures
        rank_below(p1, n) == rank_below(p2, n),
    decreases n,
{
    if n > 0 {
        lemma_rank_below_same_upto(p1, p2, n - 1);
    }
}

/// A predicate and its negation split the range between them.
pub proof fn lemma_rank_below_complement(
    p1: spec_fn(int) -> bool,
    p2: spec_fn(int) -> bool,
    n: int,
)
    requires
        n >= 0,
        forall|w: int| #[trigger] p1(w) == !p2(w),
    ensures
        rank_below(p1, n) + rank_below(p2, n) == n,
    decreases n,
{
    if n > 0 {
        lemma_rank_below_complement(p1, p2, n - 1);
    }
}

/// The number of distinct vertices seen equals the number of vertex
/// slots already ranked, so it never exceeds the vertex count.
pub proof fn lemma_first_use_count_le(tris: Seq<Tri>, c: int, vbound: int)
    requires
        0 <= c <= 3 * tris.len(),
        0 <= vbound,
        forall|cc: int| 0 <= cc < c ==> 0 <= #[trigger] corner_index(tris, cc) < vbound,
    ensures
        first_use_count(tris, c) == rank_below(
            |w: int| first_use_rank(tris, w, c) >= 0,
            vbound,
        ),
        first_use_count(tris, c) <= vbound,
    decreases c,
{
    let pc = |w: int| first_use_rank(tris, w, c) >= 0;
    if c == 0 {
        assert forall|w: int| !(#[trigger] pc(w)) by {}
        lemma_rank_below_same_upto(pc, |w: int| false, vbound);
        lemma_rank_below_false(vbound);
    } else {
        lemma_first_use_count_le(tris, c - 1, vbound);
        let pp = |w: int| first_use_rank(tris, w, c - 1) >= 0;
        let vi = corner_index(tris, c - 1);
        assert(0 <= vi < vbound);
        if first_use_rank(tris, vi, c - 1) >= 0 {
            assert forall|w: int| #[trigger] pp(w) == pc(w) by {
                if first_use_rank(tris, w, c - 1) >= 0 {
                    assert(first_use_rank(tris, w, c) == first_use_rank(tris, w, c - 1));
                }
            }
            lemma_rank_below_same(pp, pc, vbound);
        } else {
            lemma_first_use_bounds(tris, vi, c - 1);
            assert(pc(vi));
            assert forall|w: int| w != vi ==> #[trigger] pp(w) == pc(w) by {}
            lemma_rank_below_flip(pp, pc, vi, vbound);
        }
    }
    lemma_rank_below_nonneg(|w: int| first_use_rank(tris, w, c) >= 0, vbound);
}

/// A range with one false position counts at most its length less one.
pub proof fn lemma_rank_below_skip(p: spec_fn(int) -> bool, vi: int, n: int)
    requires
        0 <= vi < n,
        !p(vi),
    ensures
        rank_below(p, n) <= n - 1,
    decreases n,
{
    if vi == n - 1 {
        lemma_rank_below_nonneg(p, n - 1);
    } else {
        lemma_rank_below_skip(p, vi, n - 1);
    }
}

/// The always-false predicate counts nothing.
pub proof fn lemma_rank_below_false(n: int)
    ensures
        rank_below(|w: int| false, n) == 0,
    decreases n,
{
    if n > 0 {
        lemma_rank_below_false(n - 1);
    }
}


/// Corner indices of an index-consistent triangle list land in the
/// vertex list.
pub proof fn lemma_corners_valid(tris: Seq<Tri>, vbound: int)
    requires
        tris_ref_valid_verts(tris, vbound),
    ensures
        forall|cc: int| 0 <= cc < 3 * tris.len() ==> 0 <= #[trigger] corner_index(tris, cc)
            < vbound,
{
    assert forall|cc: int| 0 <= cc < 3 * tris.len() implies 0 <= #[trigger] corner_index(
        tris,
        cc,
    ) < vbound by {
        assert(0 <= cc / 3 < tris.len() && 0 <= cc % 3 < 3) by (nonlinear_arith)
            requires 0 <= cc < 3 * tris.len();
    }
}



/// The reordering scan's output triangle, as a value: each corner index
/// replaced by its first-use rank at scan point `c`.
pub open spec fn vo_remap_tri(t: Tri, tris: Seq<Tri>, c: int) -> Tri {
    Tri {
        v: (
            Vert { index: first_use_rank(tris, t.v.0.index as int, c) as usize, ..t.v.0 },
            Vert { index: first_use_rank(tris, t.v.1.index as int, c) as usize, ..t.v.1 },
            Vert { index: first_use_rank(tris, t.v.2.index as int, c) as usize, ..t.v.2 },
        ),
        ..t
    }
}

/// The whole triangle list of a vertex-compacted mesh, as a value.
pub open spec fn compacted_tris_fn(et: Seq<Tri>) -> Seq<Tri> {
    Seq::new(et.len(), |k: int| vo_remap_tri(et[k], et, 3 * et.len() as int))
}

/// One triangle of the reordering scan's output: the corner indices
/// replaced by their first-use ranks at scan point `c`, everything else
/// as in the source triangle.
pub open spec fn vo_tri_remapped(cur: Tri, orig: Tri, tris0: Seq<Tri>, c: int) -> bool {
    &&& first_use_rank(tris0, orig.v.0.index as int, c) >= 0
    &&& first_use_rank(tris0, orig.v.1.index as int, c) >= 0
    &&& first_use_rank(tris0, orig.v.2.index as int, c) >= 0
    &&& cur.v.0 == (Vert {
        index: first_use_rank(tris0, orig.v.0.index as int, c) as usize,
        ..orig.v.0
    })
    &&& cur.v.1 == (Vert {
        index: first_use_rank(tris0, orig.v.1.index as int, c) as usize,
        ..orig.v.1
    })
    &&& cur.v.2 == (Vert {
        index: first_use_rank(tris0, orig.v.2.index as int, c) as usize,
        ..orig.v.2
    })
    &&& cur.normal == orig.normal
    &&& cur.part == orig.part
    &&& cur.material == orig.material
    &&& cur.mark == orig.mark
}

/// The scratch-mark value a vertex holds while vertices are being
/// reordered: its first-use rank once seen, the original vertex count
/// while unseen.
pub open spec fn vo_mark(tris: Seq<Tri>, w: int, c: int, vl: int) -> i64 {
    if first_use_rank(tris, w, c) >= 0 {
        first_use_rank(tris, w, c) as i64
    } else {
        vl as i64
    }
}

/// Position an unused vertex keeps (relative to the used block) when
/// unused vertices are retained: unused slots stay in original order.
pub open spec fn unused_rank(tris: Seq<Tri>, vi: int) -> int {
    rank_below(|w: int| first_use_rank(tris, w, 3 * tris.len() as int) == -1, vi)
}


/// The triangle list with each triangle's scratch mark set to its
/// current position, the tiebreaker that keeps the material sort
/// stable.
pub open spec fn position_marked_tris(s: Seq<Tri>) -> Seq<Tri> {
    Seq::new(s.len(), |i: int| Tri { mark: i as i64, ..s[i] })
}

/// The triangles grouped by ascending material index `0 .. m`, each
/// group in original order.
pub open spec fn tris_by_material(s: Seq<Tri>, m: int) -> Seq<Tri>
    decreases m,
{
    if m <= 0 {
        Seq::empty()
    } else {
        tris_by_material(s, m - 1) + s.filter(|t: Tri| t.material == m - 1)
    }
}


/// The triangles of one part that use one material, relabeled to the
/// extracted mesh's single part and material slot.
pub open spec fn one_part_one_material_tris(s: Seq<Tri>, p: int, m: int) -> Seq<Tri> {
    s.filter(|t: Tri| t.part == p && t.material == m).map_values(
        |t: Tri| Tri { part: 0usize, material: 0usize, ..t },
    )
}

/// The triangles of one part, relabeled to part slot zero with their
/// material indices still pointing into the source material list.
pub open spec fn one_part_tris(s: Seq<Tri>, p: int) -> Seq<Tri> {
    s.filter(|t: Tri| t.part == p).map_values(|t: Tri| Tri { part: 0usize, ..t })
}




/// How many distinct materials the first `k` triangles reference: the
/// size of a part mesh's material list.
pub open spec fn mat_first_count(tris: Seq<Tri>, k: int) -> int
    decreases k, 1int,
{
    if k <= 0 {
        0
    } else {
        mat_first_count(tris, k - 1) + if mat_first_rank(
            tris,
            tris[k - 1].material as int,
            k - 1,
        ) >= 0 {
            0int
        } else {
            1int
        }
    }
}

/// The position material `j` receives in first-reference order,
/// scanning the first `k` triangles; `-1` while no triangle has
/// referred to it.
pub open spec fn mat_first_rank(tris: Seq<Tri>, j: int, k: int) -> int
    decreases k, 0int,
{
    if k <= 0 {
        -1
    } else if mat_first_rank(tris, j, k - 1) >= 0 {
        mat_first_rank(tris, j, k - 1)
    } else if tris[k - 1].material == j {
        mat_first_count(tris, k - 1)
    } else {
        -1
    }
}

/// First-reference material ranks stay below the running count, which
/// stays below the number of triangles scanned.
pub proof fn lemma_mat_first_bounds(tris: Seq<Tri>, j: int, k: int)
    requires
        k >= 0,
    ensures
        0 <= mat_first_count(tris, k) <= k,
        -1 <= mat_first_rank(tris, j, k) < mat_first_count(tris, k),
        mat_first_count(tris, k - 1) <= mat_first_count(tris, k),
    decreases k,
{
    if k > 0 {
        lemma_mat_first_bounds(tris, j, k - 1);
        lemma_mat_first_bounds(tris, tris[k - 1].material as int, k - 1);
    }
}

/// An assigned first-reference material rank never changes as more
/// triangles are scanned.
pub proof fn lemma_mat_first_stable(tris: Seq<Tri>, j: int, k1: int, k2: int)
    requires
        0 <= k1 <= k2,
        mat_first_rank(tris, j, k1) >= 0,
    ensures
        mat_first_rank(tris, j, k2) == mat_first_rank(tris, j, k1),
    decreases k2 - k1,
{
    if k1 < k2 {
        lemma_mat_first_stable(tris, j, k1, k2 - 1);
    }
}

/// One triangle of the material scan's output: the material index
/// replaced by its first-reference rank at scan point `k`, everything
/// else as in the source triangle.
pub open spec fn mat_tri_remapped(cur: Tri, orig: Tri, pt: Seq<Tri>, k: int) -> bool {
    &&& mat_first_rank(pt, orig.material as int, k) >= 0
    &&& cur.material == mat_first_rank(pt, orig.material as int, k)
    &&& cur.v == orig.v
    &&& cur.normal == orig.normal
    &&& cur.part == orig.part
    &&& cur.mark == orig.mark
}

/// The triangle list of an extracted part after its material indices
/// are replaced by their first-reference ranks.
pub open spec fn mat_remapped_tris(pt: Seq<Tri>) -> Seq<Tri> {
    Seq::new(
        pt.len(),
        |k: int| Tri {
            material: mat_first_rank(pt, pt[k].material as int, pt.len() as int) as usize,
            ..pt[k]
        },
    )
}

/// Everything the extraction of one part guarantees about its result,
/// relative to the source mesh's four lists: one part, the materials
/// that part uses (in first-reference order, marked with their new
/// indices), the part's triangles with corners replaced by first-use
/// ranks, and the used vertices placed at their ranks.
pub open spec fn part_extraction_of(
    dst: EditTriMesh,
    src_t: Seq<Tri>,
    src_v: Seq<Vertex>,
    src_m: Seq<Material>,
    src_p: Seq<Part>,
    p: int,
) -> bool {
    let pt = one_part_tris(src_t, p);
    let ct = mat_remapped_tris(pt);
    let c3 = 3 * ct.len() as int;
    &&& tris_ref_valid_verts(dst.tList@, dst.vList@.len() as int)
    &&& dst.vList@.len() <= src_v.len()
    &&& dst.tList@.len() <= src_t.len()
    &&& dst.pList@.len() == 1
    &&& dst.pList@[0] == src_p[p]
    &&& dst.mList@.len() == mat_first_count(pt, pt.len() as int)
    &&& (forall|j: int| 0 <= j < src_m.len() && #[trigger] mat_first_rank(
        pt,
        j,
        pt.len() as int,
    ) >= 0 ==> mat_first_rank(pt, j, pt.len() as int) < dst.mList@.len()
        && dst.mList@[mat_first_rank(pt, j, pt.len() as int)] == (Material {
        diffuseTextureName: src_m[j].diffuseTextureName,
        mark: mat_first_rank(pt, j, pt.len() as int) as i64,
    }))
    &&& dst.tList@.len() == ct.len()
    &&& dst.tList@ == compacted_tris_fn(ct)
    &&& dst.vList@.len() == first_use_count(ct, c3)
    &&& (forall|vi: int| 0 <= vi < src_v.len() && #[trigger] first_use_rank(ct, vi, c3) >= 0
        ==> dst.vList@[first_use_rank(ct, vi, c3)] == (Vertex {
        mark: first_use_rank(ct, vi, c3) as i64,
        ..src_v[vi]
    }))
}

/// The triangle list after the unused-material compaction: every
/// material index replaced by its compacted rank.
pub open spec fn material_compacted_tris(s: Seq<Tri>) -> Seq<Tri> {
    Seq::new(s.len(), |k: int| Tri { material: material_rank(s, s[k].material as int) as usize, ..s[k] })
}



/// First index at or after `from` of a vertex geometrically identical
/// to `base` that can take the coordinates `(cu, cv)`: one still
/// unclaimed, or one claimed with exactly those coordinates. `-1` when
/// the whole list holds none.
pub open spec fn uv_find(vs: Seq<Vertex>, base: Vertex, cu: i64, cv: i64, from: int) -> int
    decreases vs.len() - from,
{
    if from < 0 || from >= vs.len() {
        -1
    } else if vs[from].p == base.p && vs[from].normal == base.normal && (vs[from].mark == 0
        || (vs[from].u == cu && vs[from].v == cv)) {
        from
    } else {
        uv_find(vs, base, cu, cv, from + 1)
    }
}

/// One corner of the UV-splitting pass, as a value: the vertex list
/// after the corner settles, and the index the corner ends on. The
/// corner claims its own vertex if free, keeps it if it already agrees,
/// otherwise moves to the first geometric match that fits, and only
/// when none exists appends a fresh copy.
pub open spec fn uv_corner_step(vs: Seq<Vertex>, vi: int, cu: i64, cv: i64) -> (Seq<Vertex>, int) {
    let v = vs[vi];
    if v.mark == 0 {
        (vs.update(vi, Vertex { u: cu, v: cv, mark: 1, ..v }), vi)
    } else if v.u == cu && v.v == cv {
        (vs, vi)
    } else {
        let f = uv_find(vs, v, cu, cv, 0);
        if f >= 0 {
            if vs[f].mark == 0 {
                (vs.update(f, Vertex { u: cu, v: cv, mark: 1, ..vs[f] }), f)
            } else {
                (vs, f)
            }
        } else {
            (vs.push(Vertex { u: cu, v: cv, mark: 1, ..v }), vs.len() as int)
        }
    }
}

/// The triangle with corner `j`'s vertex index replaced.
pub open spec fn with_corner_index(t: Tri, j: int, ni: int) -> Tri {
    if j == 0 {
        Tri { v: (Vert { index: ni as usize, ..t.v.0 }, t.v.1, t.v.2), ..t }
    } else if j == 1 {
        Tri { v: (t.v.0, Vert { index: ni as usize, ..t.v.1 }, t.v.2), ..t }
    } else {
        Tri { v: (t.v.0, t.v.1, Vert { index: ni as usize, ..t.v.2 }), ..t }
    }
}

/// The mesh state after the UV-splitting pass has settled the first `c`
/// face corners (three per triangle, in list order), starting from
/// vertex list `vs0` and triangle list `ts0`.
pub open spec fn uv_state(vs0: Seq<Vertex>, ts0: Seq<Tri>, c: int) -> (Seq<Vertex>, Seq<Tri>)
    decreases c,
{
    if c <= 0 {
        (vs0, ts0)
    } else {
        let prev = uv_state(vs0, ts0, c - 1);
        let w = vert_at(ts0[(c - 1) / 3], (c - 1) % 3);
        let stepped = uv_corner_step(prev.0, w.index as int, w.u, w.v);
        (
            stepped.0,
            prev.1.update(
                (c - 1) / 3,
                with_corner_index(prev.1[(c - 1) / 3], (c - 1) % 3, stepped.1),
            ),
        )
    }
}

/// A vertex list with every scratch mark zeroed, the state the
/// UV-splitting pass starts from.
pub open spec fn zero_marked(vs: Seq<Vertex>) -> Seq<Vertex> {
    Seq::new(vs.len(), |i: int| Vertex { mark: 0i64, ..vs[i] })
}

/// A found index of `uv_find` lies in the list and satisfies the
/// search predicate.
pub proof fn lemma_uv_find_props(vs: Seq<Vertex>, base: Vertex, cu: i64, cv: i64, from: int)
    ensures
        ({
            let f = uv_find(vs, base, cu, cv, from);
            f == -1 || (0 <= f && from <= f && f < vs.len() && vs[f].p == base.p
                && vs[f].normal == base.normal && (vs[f].mark == 0 || (vs[f].u == cu
                && vs[f].v == cv)))
        }),
    decreases vs.len() - from,
{
    if from < 0 || from >= vs.len() {
    } else if vs[from as int].p == base.p && vs[from as int].normal == base.normal
        && (vs[from as int].mark == 0 || (vs[from as int].u == cu && vs[from as int].v == cv)) {
    } else {
        lemma_uv_find_props(vs, base, cu, cv, from + 1);
    }
}

/// Shape of the UV-splitting state: the triangle count never changes,
/// triangles not yet reached are untouched, and the vertex list grows
/// by at most one entry per settled corner.
pub proof fn lemma_uv_state_shape(vs0: Seq<Vertex>, ts0: Seq<Tri>, c: int)
    requires
        0 <= c <= 3 * ts0.len(),
        tris_ref_valid_verts(ts0, vs0.len() as int),
    ensures
        uv_state(vs0, ts0, c).1.len() == ts0.len(),
        forall|kk: int| 3 * kk >= c && 0 <= kk < ts0.len() ==> #[trigger] uv_state(
            vs0,
            ts0,
            c,
        ).1[kk] == ts0[kk],
        vs0.len() <= uv_state(vs0, ts0, c).0.len() <= vs0.len() + c,
    decreases c,
{
    if c > 0 {
        lemma_uv_state_shape(vs0, ts0, c - 1);
        assert(0 <= (c - 1) / 3 && (c - 1) / 3 < ts0.len()) by (nonlinear_arith)
            requires 1 <= c <= 3 * ts0.len();
        assert forall|kk: int| 3 * kk >= c && 0 <= kk < ts0.len() implies #[trigger] uv_state(
            vs0,
            ts0,
            c,
        ).1[kk] == ts0[kk] by {
            assert((c - 1) / 3 < kk) by (nonlinear_arith)
                requires 3 * kk >= c, c >= 1;
            assert(uv_state(vs0, ts0, c - 1).1[kk] == ts0[kk]);
        }
        let prev = uv_state(vs0, ts0, c - 1);
        let w = vert_at(ts0[(c - 1) / 3], (c - 1) % 3);
        let stepped = uv_corner_step(prev.0, w.index as int, w.u, w.v);
        assert(w.index < vs0.len());
        lemma_uv_find_props(prev.0, prev.0[w.index as int], w.u, w.v, 0);
        assert(prev.0.len() <= stepped.0.len() <= prev.0.len() + 1);
        assert(uv_state(vs0, ts0, c).0 == stepped.0);
    }
}

/// A face corner is settled when it points at a claimed vertex that
/// carries the corner's own texture coordinates and the geometry of the
/// vertex the corner originally referred to.
pub open spec fn corner_settled(
    vs: Seq<Vertex>,
    vs0: Seq<Vertex>,
    cur: Tri,
    orig: Tri,
    j: int,
) -> bool {
    let w = vert_at(cur, j);
    let w0 = vert_at(orig, j);
    &&& w.index < vs.len()
    &&& vs[w.index as int].mark == 1
    &&& vs[w.index as int].u == w0.u
    &&& vs[w.index as int].v == w0.v
    &&& vs[w.index as int].p == vs0[w0.index as int].p
    &&& vs[w.index as int].normal == vs0[w0.index as int].normal
    &&& w.u == w0.u
    &&& w.v == w0.v
}

/// The bounding box of the first `i` vertex positions, grown one point
/// at a time from the canonical empty box.
pub open spec fn bounds_of(vs: Seq<Vertex>, i: int) -> crate::aabb3::AABB3
    decreases i,
{
    if i <= 0 {
        crate::aabb3::empty_box()
    } else {
        crate::aabb3::spec_add_point(bounds_of(vs, i - 1), vs[i - 1].p)
    }
}


/// Coordinate magnitude under which triangle normals can be computed
/// exactly: edge cross products then stay within 64 bits.
pub const MESH_COORD_LIMIT: i64 = 1_000_000_000;

/// Every vertex position within the normal-computation range.
pub open spec fn vertex_positions_bounded(vs: Seq<Vertex>) -> bool {
    forall|i: int| 0 <= i < vs.len() ==> {
        &&& -MESH_COORD_LIMIT <= (#[trigger] vs[i]).p.x <= MESH_COORD_LIMIT
        &&& -MESH_COORD_LIMIT <= vs[i].p.y <= MESH_COORD_LIMIT
        &&& -MESH_COORD_LIMIT <= vs[i].p.z <= MESH_COORD_LIMIT
    }
}

/// The face normal of a triangle: the normalized cross product of the
/// clockwise edge vectors `p3 - p2` and `p1 - p3`.
pub open spec fn tri_normal_of(vs: Seq<Vertex>, t: Tri) -> Vector3 {
    let p1 = vs[t.v.0.index as int].p;
    let p2 = vs[t.v.1.index as int].p;
    let p3 = vs[t.v.2.index as int].p;
    let e1 = Vector3 {
        x: (p3.x - p2.x) as i64,
        y: (p3.y - p2.y) as i64,
        z: (p3.z - p2.z) as i64,
    };
    let e2 = Vector3 {
        x: (p1.x - p3.x) as i64,
        y: (p1.y - p3.y) as i64,
        z: (p1.z - p3.z) as i64,
    };
    crate::vector3::spec_normalize(
        Vector3 {
            x: crate::vector3::cross_x(e1, e2) as i64,
            y: crate::vector3::cross_y(e1, e2) as i64,
            z: crate::vector3::cross_z(e1, e2) as i64,
        },
    )
}

/// A triangle with its face normal freshly computed.
pub open spec fn tri_with_normal(vs: Seq<Vertex>, t: Tri) -> Tri {
    Tri { normal: tri_normal_of(vs, t), ..t }
}

/// Sum of the face normals over the first `c` face corners (three per
/// triangle, in list order) that refer to vertex `vi`, one coordinate
/// triple per component.
pub open spec fn vertex_normal_sum(tris: Seq<Tri>, vi: int, c: int) -> (int, int, int)
    decreases c,
{
    if c <= 0 {
        (0int, 0int, 0int)
    } else {
        let prev = vertex_normal_sum(tris, vi, c - 1);
        let t = tris[(c - 1) / 3];
        if vert_at(t, (c - 1) % 3).index == vi {
            (prev.0 + t.normal.x, prev.1 + t.normal.y, prev.2 + t.normal.z)
        } else {
            prev
        }
    }
}

/// The cross product of two edge vectors of bounded triangles fits in
/// 64 bits.
proof fn lemma_mesh_cross_fits(ax: int, ay: int, az: int, bx: int, by: int, bz: int)
    requires
        -2 * MESH_COORD_LIMIT <= ax <= 2 * MESH_COORD_LIMIT,
        -2 * MESH_COORD_LIMIT <= ay <= 2 * MESH_COORD_LIMIT,
        -2 * MESH_COORD_LIMIT <= az <= 2 * MESH_COORD_LIMIT,
        -2 * MESH_COORD_LIMIT <= bx <= 2 * MESH_COORD_LIMIT,
        -2 * MESH_COORD_LIMIT <= by <= 2 * MESH_COORD_LIMIT,
        -2 * MESH_COORD_LIMIT <= bz <= 2 * MESH_COORD_LIMIT,
    ensures
        -8_000_000_000_000_000_000 <= ay * bz - az * by <= 8_000_000_000_000_000_000,
        -8_000_000_000_000_000_000 <= az * bx - ax * bz <= 8_000_000_000_000_000_000,
        -8_000_000_000_000_000_000 <= ax * by - ay * bx <= 8_000_000_000_000_000_000,
{
    assert(-8_000_000_000_000_000_000 <= ay * bz - az * by <= 8_000_000_000_000_000_000
        && -8_000_000_000_000_000_000 <= az * bx - ax * bz <= 8_000_000_000_000_000_000
        && -8_000_000_000_000_000_000 <= ax * by - ay * bx <= 8_000_000_000_000_000_000)
        by (nonlinear_arith)
        requires
            -2_000_000_000 <= ax <= 2_000_000_000,
            -2_000_000_000 <= ay <= 2_000_000_000,
            -2_000_000_000 <= az <= 2_000_000_000,
            -2_000_000_000 <= bx <= 2_000_000_000,
            -2_000_000_000 <= by <= 2_000_000_000,
            -2_000_000_000 <= bz <= 2_000_000_000,
    ;
}

impl Vertex {
    pub fn default() -> (r: Vertex)
        ensures
            r == (Vertex {
                p: Vector3 { x: 1i64, y: 1i64, z: 1i64 },
                u: 0i64,
                v: 0i64,
                normal: Vector3 { x: 1i64, y: 1i64, z: 1i64 },
                mark: 0i64,
            }),
    {
        Vertex {
            p: Vector3::identity(),
            u: 0,
            v: 0,
            normal: Vector3::identity(),
            mark: 0,
        }
    }
}

impl Vert {
    pub fn default() -> (r: Vert)
        ensures
            r == (Vert { index: 0usize, u: 0i64, v: 0i64 }),
    {
        Vert { index: 0, u: 0, v: 0 }
    }
}

impl Tri {
    /// The default triangle's material is the unresolved sentinel.
    pub fn default() -> (r: Tri)
        ensures
            r.v.0 == (Vert { index: 0usize, u: 0i64, v: 0i64 }),
            r.v.1 == (Vert { index: 0usize, u: 0i64, v: 0i64 }),
            r.v.2 == (Vert { index: 0usize, u: 0i64, v: 0i64 }),
            r.normal == (Vector3 { x: 1i64, y: 1i64, z: 1i64 }),
            r.part == 0,
            r.material == usize::MAX,
            r.mark == 0,
    {
        Tri {
            v: (Vert::default(), Vert::default(), Vert::default()),
            normal: Vector3::identity(),
            part: 0,
            material: usize::MAX,
            mark: 0,
        }
    }

    /// True when two corners share a vertex index.
    pub fn isDegenerate(&self) -> (r: bool)
        ensures
            r == spec_is_degenerate(*self),
    {
        (self.v.0.index == self.v.1.index) || (self.v.1.index == self.v.2.index)
            || (self.v.0.index == self.v.2.index)
    }

    /// First corner position (0..2) referring to `vertexIndex`, or -1.
    pub fn findVertex(&self, vertexIndex: usize) -> (r: i32)
        ensures
            r == if self.v.0.index == vertexIndex {
                0int
            } else if self.v.1.index == vertexIndex {
                1int
            } else if self.v.2.index == vertexIndex {
                2int
            } else {
                -1int
            },
            r != -1 <==> tri_uses_vertex(*self, vertexIndex as int),
    {
        if self.v.0.index == vertexIndex {
            return 0;
        }
        if self.v.1.index == vertexIndex {
            return 1;
        }
        if self.v.2.index == vertexIndex {
            return 2;
        }
        -1
    }
}

impl Material {
    pub fn default() -> (r: Material)
        ensures
            r.diffuseTextureName@ == Seq::<char>::empty(),
            r.mark == 0,
    {
        Material { diffuseTextureName: String::new(), mark: 0 }
    }
}

impl Part {
    pub fn default() -> (r: Part)
        ensures
            r.name@ == Seq::<char>::empty(),
            r.mark == 0,
    {
        Part { name: String::new(), mark: 0 }
    }
}

impl OptimizationParameters {
    /// The stock tolerances: a small coincidence distance and an
    /// 80-degree edge-angle threshold (its cosine, in millionths).
    pub fn default() -> (r: OptimizationParameters)
        ensures
            r.coincidentVertexTolerance == 10_000,
            r.cosOfEdgeAngleTolerance == 173_648,
    {
        OptimizationParameters {
            coincidentVertexTolerance: 10_000,
            cosOfEdgeAngleTolerance: 173_648,
        }
    }

    /// Set the welding angle threshold from a whole-degree angle;
    /// anything of 180 degrees or more welds regardless of angle, which
    /// a cosine below every real one expresses.
    pub fn setEdgeAngleToleranceInDegrees(&mut self, degrees: i64, cos_millionths: i64)
        requires
            degrees < 180 ==> -1_000_000 <= cos_millionths <= 1_000_000,
        ensures
            degrees >= 180 ==> final(self).cosOfEdgeAngleTolerance == -999_000_000,
            degrees < 180 ==> final(self).cosOfEdgeAngleTolerance == cos_millionths,
            final(self).coincidentVertexTolerance == old(self).coincidentVertexTolerance,
    {
        if degrees >= 180 {
            self.cosOfEdgeAngleTolerance = -999_000_000;
        } else {
            self.cosOfEdgeAngleTolerance = cos_millionths;
        }
    }
}

impl EditTriMesh {
    pub fn default() -> (r: EditTriMesh)
        ensures
            r.vList@ == Seq::<Vertex>::empty(),
            r.tList@ == Seq::<Tri>::empty(),
            r.mList@ == Seq::<Material>::empty(),
            r.pList@ == Seq::<Part>::empty(),
    {
        EditTriMesh { vList: Vec::new(), tList: Vec::new(), mList: Vec::new(), pList: Vec::new() }
    }

    pub fn materialCount(&self) -> (r: usize)
        ensures
            r == self.mList@.len(),
    {
        self.mList.len()
    }

    pub fn partCount(&self) -> (r: usize)
        ensures
            r == self.pList@.len(),
    {
        self.pList.len()
    }

    pub fn triCount(&self) -> (r: usize)
        ensures
            r == self.tList@.len(),
    {
        self.tList.len()
    }

    pub fn vertexCount(&self) -> (r: usize)
        ensures
            r == self.vList@.len(),
    {
        self.vList.len()
    }

    /// Reset the mesh to the empty state.
    pub fn empty(&mut self)
        ensures
            final(self).vList@ == Seq::<Vertex>::empty(),
            final(self).tList@ == Seq::<Tri>::empty(),
            final(self).mList@ == Seq::<Material>::empty(),
            final(self).pList@ == Seq::<Part>::empty(),
    {
        self.vList.clear();
        self.tList.clear();
        self.mList.clear();
        self.pList.clear();
    }

    /// Append a default triangle; the new index is returned.
    pub fn addDefaultTri(&mut self) -> (r: usize)
        ensures
            final(self).tList@ == old(self).tList@.push(
                Tri {
                    v: (
                        Vert { index: 0usize, u: 0i64, v: 0i64 },
                        Vert { index: 0usize, u: 0i64, v: 0i64 },
                        Vert { index: 0usize, u: 0i64, v: 0i64 },
                    ),
                    normal: Vector3 { x: 1i64, y: 1i64, z: 1i64 },
                    part: 0usize,
                    material: usize::MAX,
                    mark: 0i64,
                },
            ),
            r == old(self).tList@.len(),
            final(self).vList == old(self).vList,
            final(self).mList == old(self).mList,
            final(self).pList == old(self).pList,
    {
        self.tList.push(Tri::default());
        self.tList.len() - 1
    }

    /// Append a triangle; the new index is returned.
    pub fn addTri(&mut self, tri: Tri) -> (r: usize)
        ensures
            final(self).tList@ == old(self).tList@.push(tri),
            r == old(self).tList@.len(),
            final(self).vList == old(self).vList,
            final(self).mList == old(self).mList,
            final(self).pList == old(self).pList,
    {
        self.tList.push(tri);
        self.tList.len() - 1
    }

    /// Append a default vertex; the new index is returned.
    pub fn addDefaultVertex(&mut self) -> (r: usize)
        ensures
            final(self).vList@ == old(self).vList@.push(
                Vertex {
                    p: Vector3 { x: 1i64, y: 1i64, z: 1i64 },
                    u: 0i64,
                    v: 0i64,
                    normal: Vector3 { x: 1i64, y: 1i64, z: 1i64 },
                    mark: 0i64,
                },
            ),
            r == old(self).vList@.len(),
            final(self).tList == old(self).tList,
            final(self).mList == old(self).mList,
            final(self).pList == old(self).pList,
    {
        self.vList.push(Vertex::default());
        self.vList.len() - 1
    }

    /// Append a vertex; the new index is returned.
    pub fn addVertex(&mut self, vertex: Vertex) -> (r: usize)
        ensures
            final(self).vList@ == old(self).vList@.push(vertex),
            r == old(self).vList@.len(),
            final(self).tList == old(self).tList,
            final(self).mList == old(self).mList,
            final(self).pList == old(self).pList,
    {
        self.vList.push(vertex);
        self.vList.len() - 1
    }

    /// Append a copy of an existing vertex; the new index is returned.
    pub fn dupVertex(&mut self, srcVertexIndex: usize) -> (r: usize)
        requires
            srcVertexIndex < old(self).vList@.len(),
        ensures
            final(self).vList@ == old(self).vList@.push(
                old(self).vList@[srcVertexIndex as int],
            ),
            r == old(self).vList@.len(),
            final(self).tList == old(self).tList,
            final(self).mList == old(self).mList,
            final(self).pList == old(self).pList,
    {
        let dup = self.vList[srcVertexIndex];
        self.vList.push(dup);
        self.vList.len() - 1
    }

    /// Append a material; the new index is returned.
    pub fn addMaterial(&mut self, m: Material) -> (r: usize)
        ensures
            final(self).mList@ == old(self).mList@.push(m),
            r == old(self).mList@.len(),
            final(self).vList == old(self).vList,
            final(self).tList == old(self).tList,
            final(self).pList == old(self).pList,
    {
        self.mList.push(m);
        self.mList.len() - 1
    }

    /// Append a part; the new index is returned.
    pub fn addPart(&mut self, p: Part) -> (r: usize)
        ensures
            final(self).pList@ == old(self).pList@.push(p),
            r == old(self).pList@.len(),
            final(self).vList == old(self).vList,
            final(self).tList == old(self).tList,
            final(self).mList == old(self).mList,
    {
        self.pList.push(p);
        self.pList.len() - 1
    }

    /// Set every vertex's scratch mark.
    pub fn markAllVertices(&mut self, mark: i64)
        ensures
            final(self).vList@.len() == old(self).vList@.len(),
            forall|i: int| 0 <= i < old(self).vList@.len() ==> final(self).vList@[i]
                == (Vertex { mark, ..old(self).vList@[i] }),
            final(self).tList == old(self).tList,
            final(self).mList == old(self).mList,
            final(self).pList == old(self).pList,
    {
        let n = self.vList.len();
        let mut i: usize = 0;
        while i < n
            invariant
                n == self.vList@.len(),
                i <= n,
                forall|k: int| 0 <= k < i ==> self.vList@[k]
                    == (Vertex { mark, ..old(self).vList@[k] }),
                forall|k: int| i <= k < n ==> self.vList@[k] == old(self).vList@[k],
                self.tList == old(self).tList,
                self.mList == old(self).mList,
                self.pList == old(self).pList,
            decreases n - i,
        {
            let mut vx = self.vList[i];
            vx.mark = mark;
            self.vList[i] = vx;
            i = i + 1;
        }
    }

    /// Set every triangle's scratch mark.
    pub fn markAllTris(&mut self, mark: i64)
        ensures
            final(self).tList@.len() == old(self).tList@.len(),
            forall|i: int| 0 <= i < old(self).tList@.len() ==> final(self).tList@[i]
                == (Tri { mark, ..old(self).tList@[i] }),
            final(self).vList == old(self).vList,
            final(self).mList == old(self).mList,
            final(self).pList == old(self).pList,
    {
        let n = self.tList.len();
        let mut i: usize = 0;
        while i < n
            invariant
                n == self.tList@.len(),
                i <= n,
                forall|k: int| 0 <= k < i ==> self.tList@[k]
                    == (Tri { mark, ..old(self).tList@[k] }),
                forall|k: int| i <= k < n ==> self.tList@[k] == old(self).tList@[k],
                self.vList == old(self).vList,
                self.mList == old(self).mList,
                self.pList == old(self).pList,
            decreases n - i,
        {
            let mut tx = self.tList[i];
            tx.mark = mark;
            self.tList[i] = tx;
            i = i + 1;
        }
    }

    /// Set every material's scratch mark.
    pub fn markAllMaterials(&mut self, mark: i64)
        ensures
            final(self).mList@.len() == old(self).mList@.len(),
            forall|i: int| 0 <= i < old(self).mList@.len() ==> final(self).mList@[i]
                == (Material {
                    diffuseTextureName: old(self).mList@[i].diffuseTextureName,
                    mark,
                }),
            final(self).vList == old(self).vList,
            final(self).tList == old(self).tList,
            final(self).pList == old(self).pList,
    {
        let n = self.mList.len();
        let mut i: usize = 0;
        while i < n
            invariant
                n == self.mList@.len(),
                i <= n,
                forall|k: int| 0 <= k < i ==> self.mList@[k]
                    == (Material {
                        diffuseTextureName: old(self).mList@[k].diffuseTextureName,
                        mark,
                    }),
                forall|k: int| i <= k < n ==> self.mList@[k] == old(self).mList@[k],
                self.vList == old(self).vList,
                self.tList == old(self).tList,
                self.pList == old(self).pList,
            decreases n - i,
        {
            let name = self.mList[i].diffuseTextureName.clone();
            self.mList[i] = Material { diffuseTextureName: name, mark };
            i = i + 1;
        }
    }

    /// Set every part's scratch mark.
    pub fn markAllParts(&mut self, mark: i64)
        ensures
            final(self).pList@.len() == old(self).pList@.len(),
            forall|i: int| 0 <= i < old(self).pList@.len() ==> final(self).pList@[i]
                == (Part { name: old(self).pList@[i].name, mark }),
            final(self).vList == old(self).vList,
            final(self).tList == old(self).tList,
            final(self).mList == old(self).mList,
    {
        let n = self.pList.len();
        let mut i: usize = 0;
        while i < n
            invariant
                n == self.pList@.len(),
                i <= n,
                forall|k: int| 0 <= k < i ==> self.pList@[k]
                    == (Part { name: old(self).pList@[k].name, mark }),
                forall|k: int| i <= k < n ==> self.pList@[k] == old(self).pList@[k],
                self.vList == old(self).vList,
                self.tList == old(self).tList,
                self.mList == old(self).mList,
            decreases n - i,
        {
            let name = self.pList[i].name.clone();
            self.pList[i] = Part { name, mark };
            i = i + 1;
        }
    }



    /// Remove every material no triangle uses, in linear time: mark the
    /// used ones, assign each its compacted index through its scratch
    /// mark, remap the triangles once, and compact the material list.
    /// Kept materials stay in order; each ends with its new index in
    /// its mark.
    pub fn deleteUnusedMaterials(&mut self)
        requires
            tris_ref_valid_materials(old(self).tList@, old(self).mList@.len() as int),
            old(self).mList@.len() < 0x8000_0000_0000_0000,
        ensures
            final(self).vList == old(self).vList,
            final(self).pList == old(self).pList,
            final(self).mList@.len() == material_rank(
                old(self).tList@,
                old(self).mList@.len() as int,
            ),
            forall|j: int| 0 <= j < old(self).mList@.len()
                && #[trigger] material_used(old(self).tList@, j)
                ==> 0 <= material_rank(old(self).tList@, j) < final(self).mList@.len()
                    && final(self).mList@[material_rank(old(self).tList@, j)] == (Material {
                    diffuseTextureName: old(self).mList@[j].diffuseTextureName,
                    mark: material_rank(old(self).tList@, j) as i64,
                }),
            final(self).tList@.len() == old(self).tList@.len(),
            forall|k: int| 0 <= k < old(self).tList@.len() ==> #[trigger] final(self).tList@[k]
                == (Tri {
                material: material_rank(
                    old(self).tList@,
                    old(self).tList@[k].material as int,
                ) as usize,
                ..old(self).tList@[k]
            }),
    {
        let ghost tris0 = old(self).tList@;
        let ghost used = |jj: int| material_used(tris0, jj);
        // Assume all materials will be unused
        self.markAllMaterials(0);
        // Scan triangle list and mark referenced materials
        let n = self.tList.len();
        let mlen = self.mList.len();
        let mut k: usize = 0;
        while k < n
            invariant
                n == self.tList@.len(),
                mlen == self.mList@.len(),
                k <= n,
                self.tList@ == tris0,
                tris_ref_valid_materials(tris0, mlen as int),
                self.vList == old(self).vList,
                self.pList == old(self).pList,
                forall|j: int| 0 <= j < mlen ==> (#[trigger] self.mList@[j]).diffuseTextureName
                    == old(self).mList@[j].diffuseTextureName,
                forall|j: int| 0 <= j < mlen ==> (#[trigger] self.mList@[j]).mark == if
                    material_used_upto(tris0, k as int, j) {
                    1i64
                } else {
                    0i64
                },
            decreases n - k,
        {
            let mi = self.tList[k].material;
            let name = self.mList[mi].diffuseTextureName.clone();
            self.mList[mi] = Material { diffuseTextureName: name, mark: 1 };
            proof {
                assert(tris0[k as int].material == mi);
                assert forall|j: int| 0 <= j < mlen implies (#[trigger] self.mList@[j]).mark
                    == if material_used_upto(tris0, k as int + 1, j) { 1i64 } else { 0i64 } by {
                    if j == mi {
                        assert(material_used_upto(tris0, k as int + 1, j));
                    } else {
                        assert(material_used_upto(tris0, k as int + 1, j)
                            == material_used_upto(tris0, k as int, j));
                    }
                }
            }
            k = k + 1;
        }
        proof {
            assert(forall|j: int| material_used_upto(tris0, n as int, j)
                == #[trigger] material_used(tris0, j));
        }
        // Assign each used material its compacted index; flag the rest
        let mut new_material_count: usize = 0;
        let mut j: usize = 0;
        while j < mlen
            invariant
                mlen == self.mList@.len(),
                mlen < 0x8000_0000_0000_0000,
                j <= mlen,
                self.tList@ == tris0,
                tris_ref_valid_materials(tris0, mlen as int),
                self.vList == old(self).vList,
                self.pList == old(self).pList,
                used == (|jj: int| material_used(tris0, jj)),
                new_material_count == rank_below(used, j as int),
                new_material_count <= j,
                forall|jj: int| 0 <= jj < mlen ==> (#[trigger] self.mList@[jj]).diffuseTextureName
                    == old(self).mList@[jj].diffuseTextureName,
                forall|jj: int| j <= jj < mlen ==> (#[trigger] self.mList@[jj]).mark == if used(jj) {
                    1i64
                } else {
                    0i64
                },
                forall|jj: int| 0 <= jj < j ==> (#[trigger] self.mList@[jj]).mark == if used(jj) {
                    rank_below(used, jj) as i64
                } else {
                    -1i64
                },
            decreases mlen - j,
        {
            proof {
                lemma_rank_below_nonneg(used, j as int);
            }
            let name = self.mList[j].diffuseTextureName.clone();
            if self.mList[j].mark == 0 {
                self.mList[j] = Material { diffuseTextureName: name, mark: -1 };
            } else {
                self.mList[j] = Material {
                    diffuseTextureName: name,
                    mark: new_material_count as i64,
                };
                new_material_count = new_material_count + 1;
            }
            j = j + 1;
        }
        // If nothing is unused, the indices already agree
        if new_material_count == self.mList.len() {
            proof {
                lemma_rank_below_full(used, mlen as int);
                assert forall|k2: int| 0 <= k2 < old(self).tList@.len() implies
                    #[trigger] self.tList@[k2] == (Tri {
                    material: material_rank(
                        old(self).tList@,
                        old(self).tList@[k2].material as int,
                    ) as usize,
                    ..old(self).tList@[k2]
                }) by {
                    assert(material_used(tris0, tris0[k2].material as int));
                    assert(rank_below(used, tris0[k2].material as int)
                        == tris0[k2].material as int);
                }
            }
            return;
        }
        // Remap material indices in the face list
        let mut k2: usize = 0;
        while k2 < n
            invariant
                n == self.tList@.len(),
                n == tris0.len(),
                mlen == self.mList@.len(),
                mlen < 0x8000_0000_0000_0000,
                k2 <= n,
                tris_ref_valid_materials(tris0, mlen as int),
                self.vList == old(self).vList,
                self.pList == old(self).pList,
                used == (|jj: int| material_used(tris0, jj)),
                forall|jj: int| 0 <= jj < mlen ==> (#[trigger] self.mList@[jj]).diffuseTextureName
                    == old(self).mList@[jj].diffuseTextureName,
                forall|jj: int| 0 <= jj < mlen ==> (#[trigger] self.mList@[jj]).mark == if used(jj) {
                    rank_below(used, jj) as i64
                } else {
                    -1i64
                },
                forall|kk: int| k2 <= kk < n ==> #[trigger] self.tList@[kk] == tris0[kk],
                forall|kk: int| 0 <= kk < k2 ==> {
                    &&& (#[trigger] self.tList@[kk]).material
                        == rank_below(used, tris0[kk].material as int)
                    &&& self.tList@[kk].v == tris0[kk].v
                    &&& self.tList@[kk].normal == tris0[kk].normal
                    &&& self.tList@[kk].part == tris0[kk].part
                    &&& self.tList@[kk].mark == tris0[kk].mark
                },
            decreases n - k2,
        {
            let mut t = self.tList[k2];
            proof {
                assert(material_used(tris0, tris0[k2 as int].material as int));
                lemma_rank_below_nonneg(used, t.material as int);
                lemma_rank_below_strict(used, t.material as int, mlen as int);
                lemma_rank_below_nonneg(used, mlen as int);
            }
            let mk = self.mList[t.material].mark;
            assert(mk == rank_below(used, t.material as int) as i64);
            assert(mk >= 0);
            t.material = mk as usize;
            self.tList[k2] = t;
            assert(self.tList@[k2 as int].material
                == rank_below(used, tris0[k2 as int].material as int));
            assert(self.tList@[k2 as int].v == tris0[k2 as int].v);
            assert(self.tList@[k2 as int].mark == tris0[k2 as int].mark);
            k2 = k2 + 1;
        }
        // Compact the material list
        let mut kept: Vec<Material> = Vec::new();
        let ghost marked = self.mList@;
        let mut j2: usize = 0;
        while j2 < mlen
            invariant
                mlen == self.mList@.len(),
                j2 <= mlen,
                self.mList@ == marked,
                kept@ == marked.subrange(0, j2 as int).filter(|m: Material| m.mark != -1),
            decreases mlen - j2,
        {
            let m = self.mList[j2].clone();
            proof {
                lemma_filter_push(
                    marked.subrange(0, j2 as int),
                    |mm: Material| mm.mark != -1,
                    marked[j2 as int],
                );
                assert(marked.subrange(0, j2 as int).push(marked[j2 as int])
                    =~= marked.subrange(0, j2 as int + 1));
            }
            if m.mark != -1 {
                kept.push(m);
            }
            j2 = j2 + 1;
        }
        proof {
            assert(marked.subrange(0, mlen as int) =~= marked);
        }
        self.mList = kept;
        proof {
            assert forall|jj: int| 0 <= jj < mlen implies
                ((#[trigger] marked[jj]).mark != -1) == used(jj) by {
                if used(jj) {
                    lemma_rank_below_nonneg(used, jj);
                }
            }
            lemma_compact_by_rank(marked, used, |m: Material| m.mark != -1);
            assert forall|k3: int| 0 <= k3 < old(self).tList@.len() implies
                #[trigger] self.tList@[k3] == (Tri {
                material: material_rank(
                    old(self).tList@,
                    old(self).tList@[k3].material as int,
                ) as usize,
                ..old(self).tList@[k3]
            }) by {
                assert(material_used(tris0, tris0[k3].material as int));
                lemma_rank_below_nonneg(used, tris0[k3].material as int);
            }
            assert forall|j3: int| 0 <= j3 < old(self).mList@.len()
                && #[trigger] material_used(old(self).tList@, j3) implies
                0 <= material_rank(old(self).tList@, j3) < self.mList@.len()
                    && self.mList@[material_rank(old(self).tList@, j3)] == (Material {
                    diffuseTextureName: old(self).mList@[j3].diffuseTextureName,
                    mark: material_rank(old(self).tList@, j3) as i64,
                }) by {
                assert(used(j3));
                lemma_rank_below_nonneg(used, j3);
                assert(marked[j3].mark == rank_below(used, j3) as i64);
                assert(self.mList@ == marked.filter(|m: Material| m.mark != -1));
                assert(material_rank(old(self).tList@, j3) == rank_below(used, j3));
            }
        }
    }

    /// Remove every part that contains no triangle, in linear time, by
    /// the same mark-and-compact pattern as `deleteUnusedMaterials`.
    /// Kept parts stay in order; each ends with its new index in its
    /// mark.
    pub fn deleteEmptyParts(&mut self)
        requires
            tris_ref_valid_parts(old(self).tList@, old(self).pList@.len() as int),
            old(self).pList@.len() < 0x8000_0000_0000_0000,
        ensures
            final(self).vList == old(self).vList,
            final(self).mList == old(self).mList,
            final(self).pList@.len() == part_rank(
                old(self).tList@,
                old(self).pList@.len() as int,
            ),
            forall|j: int| 0 <= j < old(self).pList@.len()
                && #[trigger] part_used(old(self).tList@, j)
                ==> 0 <= part_rank(old(self).tList@, j) < final(self).pList@.len()
                    && final(self).pList@[part_rank(old(self).tList@, j)] == (Part {
                    name: old(self).pList@[j].name,
                    mark: part_rank(old(self).tList@, j) as i64,
                }),
            final(self).tList@.len() == old(self).tList@.len(),
            forall|k: int| 0 <= k < old(self).tList@.len() ==> #[trigger] final(self).tList@[k]
                == (Tri {
                part: part_rank(
                    old(self).tList@,
                    old(self).tList@[k].part as int,
                ) as usize,
                ..old(self).tList@[k]
            }),
    {
        let ghost tris0 = old(self).tList@;
        let ghost used = |jj: int| part_used(tris0, jj);
        // Assume all materials will be unused
        self.markAllParts(0);
        // Scan triangle list and mark referenced materials
        let n = self.tList.len();
        let mlen = self.pList.len();
        let mut k: usize = 0;
        while k < n
            invariant
                n == self.tList@.len(),
                mlen == self.pList@.len(),
                k <= n,
                self.tList@ == tris0,
                tris_ref_valid_parts(tris0, mlen as int),
                self.vList == old(self).vList,
                self.mList == old(self).mList,
                forall|j: int| 0 <= j < mlen ==> (#[trigger] self.pList@[j]).name
                    == old(self).pList@[j].name,
                forall|j: int| 0 <= j < mlen ==> (#[trigger] self.pList@[j]).mark == if
                    part_used_upto(tris0, k as int, j) {
                    1i64
                } else {
                    0i64
                },
            decreases n - k,
        {
            let mi = self.tList[k].part;
            let name = self.pList[mi].name.clone();
            self.pList[mi] = Part { name: name, mark: 1 };
            proof {
                assert(tris0[k as int].part == mi);
                assert forall|j: int| 0 <= j < mlen implies (#[trigger] self.pList@[j]).mark
                    == if part_used_upto(tris0, k as int + 1, j) { 1i64 } else { 0i64 } by {
                    if j == mi {
                        assert(part_used_upto(tris0, k as int + 1, j));
                    } else {
                        assert(part_used_upto(tris0, k as int + 1, j)
                            == part_used_upto(tris0, k as int, j));
                    }
                }
            }
            k = k + 1;
        }
        proof {
            assert(forall|j: int| part_used_upto(tris0, n as int, j)
                == #[trigger] part_used(tris0, j));
        }
        // Assign each used material its compacted index; flag the rest
        let mut new_part_count: usize = 0;
        let mut j: usize = 0;
        while j < mlen
            invariant
                mlen == self.pList@.len(),
                mlen < 0x8000_0000_0000_0000,
                j <= mlen,
                self.tList@ == tris0,
                tris_ref_valid_parts(tris0, mlen as int),
                self.vList == old(self).vList,
                self.mList == old(self).mList,
                used == (|jj: int| part_used(tris0, jj)),
                new_part_count == rank_below(used, j as int),
                new_part_count <= j,
                forall|jj: int| 0 <= jj < mlen ==> (#[trigger] self.pList@[jj]).name
                    == old(self).pList@[jj].name,
                forall|jj: int| j <= jj < mlen ==> (#[trigger] self.pList@[jj]).mark == if used(jj) {
                    1i64
                } else {
                    0i64
                },
                forall|jj: int| 0 <= jj < j ==> (#[trigger] self.pList@[jj]).mark == if used(jj) {
                    rank_below(used, jj) as i64
                } else {
                    -1i64
                },
            decreases mlen - j,
        {
            proof {
                lemma_rank_below_nonneg(used, j as int);
            }
            let name = self.pList[j].name.clone();
            if self.pList[j].mark == 0 {
                self.pList[j] = Part { name: name, mark: -1 };
            } else {
                self.pList[j] = Part {
                    name: name,
                    mark: new_part_count as i64,
                };
                new_part_count = new_part_count + 1;
            }
            j = j + 1;
        }
        // If nothing is unused, the indices already agree
        if new_part_count == self.pList.len() {
            proof {
                lemma_rank_below_full(used, mlen as int);
                assert forall|k2: int| 0 <= k2 < old(self).tList@.len() implies
                    #[trigger] self.tList@[k2] == (Tri {
                    part: part_rank(
                        old(self).tList@,
                        old(self).tList@[k2].part as int,
                    ) as usize,
                    ..old(self).tList@[k2]
                }) by {
                    assert(part_used(tris0, tris0[k2].part as int));
                    assert(rank_below(used, tris0[k2].part as int)
                        == tris0[k2].part as int);
                }
            }
            return;
        }
        // Remap material indices in the face list
        let mut k2: usize = 0;
        while k2 < n
            invariant
                n == self.tList@.len(),
                n == tris0.len(),
                mlen == self.pList@.len(),
                mlen < 0x8000_0000_0000_0000,
                k2 <= n,
                tris_ref_valid_parts(tris0, mlen as int),
                self.vList == old(self).vList,
                self.mList == old(self).mList,
                used == (|jj: int| part_used(tris0, jj)),
                forall|jj: int| 0 <= jj < mlen ==> (#[trigger] self.pList@[jj]).name
                    == old(self).pList@[jj].name,
                forall|jj: int| 0 <= jj < mlen ==> (#[trigger] self.pList@[jj]).mark == if used(jj) {
                    rank_below(used, jj) as i64
                } else {
                    -1i64
                },
                forall|kk: int| k2 <= kk < n ==> #[trigger] self.tList@[kk] == tris0[kk],
                forall|kk: int| 0 <= kk < k2 ==> {
                    &&& (#[trigger] self.tList@[kk]).part
                        == rank_below(used, tris0[kk].part as int)
                    &&& self.tList@[kk].v == tris0[kk].v
                    &&& self.tList@[kk].normal == tris0[kk].normal
                    &&& self.tList@[kk].material == tris0[kk].material
                    &&& self.tList@[kk].mark == tris0[kk].mark
                },
            decreases n - k2,
        {
            let mut t = self.tList[k2];
            proof {
                assert(part_used(tris0, tris0[k2 as int].part as int));
                lemma_rank_below_nonneg(used, t.part as int);
                lemma_rank_below_strict(used, t.part as int, mlen as int);
                lemma_rank_below_nonneg(used, mlen as int);
            }
            let mk = self.pList[t.part].mark;
            assert(mk == rank_below(used, t.part as int) as i64);
            assert(mk >= 0);
            t.part = mk as usize;
            self.tList[k2] = t;
            assert(self.tList@[k2 as int].part
                == rank_below(used, tris0[k2 as int].part as int));
            assert(self.tList@[k2 as int].v == tris0[k2 as int].v);
            assert(self.tList@[k2 as int].mark == tris0[k2 as int].mark);
            k2 = k2 + 1;
        }
        // Compact the material list
        let mut kept: Vec<Part> = Vec::new();
        let ghost marked = self.pList@;
        let mut j2: usize = 0;
        while j2 < mlen
            invariant
                mlen == self.pList@.len(),
                j2 <= mlen,
                self.pList@ == marked,
                kept@ == marked.subrange(0, j2 as int).filter(|m: Part| m.mark != -1),
            decreases mlen - j2,
        {
            let m = self.pList[j2].clone();
            proof {
                lemma_filter_push(
                    marked.subrange(0, j2 as int),
                    |mm: Part| mm.mark != -1,
                    marked[j2 as int],
                );
                assert(marked.subrange(0, j2 as int).push(marked[j2 as int])
                    =~= marked.subrange(0, j2 as int + 1));
            }
            if m.mark != -1 {
                kept.push(m);
            }
            j2 = j2 + 1;
        }
        proof {
            assert(marked.subrange(0, mlen as int) =~= marked);
        }
        self.pList = kept;
        proof {
            assert forall|jj: int| 0 <= jj < mlen implies
                ((#[trigger] marked[jj]).mark != -1) == used(jj) by {
                if used(jj) {
                    lemma_rank_below_nonneg(used, jj);
                }
            }
            lemma_compact_by_rank(marked, used, |m: Part| m.mark != -1);
            assert forall|k3: int| 0 <= k3 < old(self).tList@.len() implies
                #[trigger] self.tList@[k3] == (Tri {
                part: part_rank(
                    old(self).tList@,
                    old(self).tList@[k3].part as int,
                ) as usize,
                ..old(self).tList@[k3]
            }) by {
                assert(part_used(tris0, tris0[k3].part as int));
                lemma_rank_below_nonneg(used, tris0[k3].part as int);
            }
            assert forall|j3: int| 0 <= j3 < old(self).pList@.len()
                && #[trigger] part_used(old(self).tList@, j3) implies
                0 <= part_rank(old(self).tList@, j3) < self.pList@.len()
                    && self.pList@[part_rank(old(self).tList@, j3)] == (Part {
                    name: old(self).pList@[j3].name,
                    mark: part_rank(old(self).tList@, j3) as i64,
                }) by {
                assert(used(j3));
                lemma_rank_below_nonneg(used, j3);
                assert(marked[j3].mark == rank_below(used, j3) as i64);
                assert(self.pList@ == marked.filter(|m: Part| m.mark != -1));
                assert(part_rank(old(self).tList@, j3) == rank_below(used, j3));
            }
        }
    }

    /// Remove one vertex. Triangles that referred to it are deleted;
    /// every other triangle is unmarked and its corner indices past the
    /// removed slot shift down one.
    pub fn deleteVertex(&mut self, vertexIndex: usize)
        requires
            vertexIndex < old(self).vList@.len(),
        ensures
            final(self).vList@ == old(self).vList@.remove(vertexIndex as int),
            final(self).tList@ == tris_after_vertex_delete(
                old(self).tList@,
                vertexIndex as int,
            ),
            final(self).mList == old(self).mList,
            final(self).pList == old(self).pList,
    {
        let n = self.tList.len();
        let mut k: usize = 0;
        while k < n
            invariant
                n == self.tList@.len(),
                n == old(self).tList@.len(),
                k <= n,
                self.vList == old(self).vList,
                self.mList == old(self).mList,
                self.pList == old(self).pList,
                vertexIndex < self.vList@.len(),
                forall|j: int| 0 <= j < k ==> self.tList@[j]
                    == mark_tri_vertex_delete(old(self).tList@[j], vertexIndex as int),
                forall|j: int| k <= j < n ==> self.tList@[j] == old(self).tList@[j],
            decreases n - k,
        {
            let mut t = self.tList[k];
            if t.v.0.index == vertexIndex {
                t.mark = 1;
            } else {
                if t.v.0.index > vertexIndex {
                    t.v.0.index = t.v.0.index - 1;
                }
                if t.v.1.index == vertexIndex {
                    t.mark = 1;
                } else {
                    if t.v.1.index > vertexIndex {
                        t.v.1.index = t.v.1.index - 1;
                    }
                    if t.v.2.index == vertexIndex {
                        t.mark = 1;
                    } else {
                        t.mark = 0;
                        if t.v.2.index > vertexIndex {
                            t.v.2.index = t.v.2.index - 1;
                        }
                    }
                }
            }
            self.tList[k] = t;
            k = k + 1;
        }
        proof {
            assert(self.tList@ =~= old(self).tList@.map_values(
                |t: Tri| mark_tri_vertex_delete(t, vertexIndex as int),
            ));
        }
        self.vList.remove(vertexIndex);
        self.deleteMarkedTris(1);
        proof {
            lemma_filter_map_exchange(
                old(self).tList@,
                |t: Tri| mark_tri_vertex_delete(t, vertexIndex as int),
                |t: Tri| t.mark != 1,
                |t: Tri| !tri_uses_vertex(t, vertexIndex as int),
                |t: Tri| fix_tri_vertex_delete(t, vertexIndex as int),
            );
        }
    }

    /// Remove one material. Triangles that used it are deleted; every
    /// other triangle is unmarked and its material index past the
    /// removed slot shifts down one.
    pub fn deleteMaterial(&mut self, materialIndex: usize)
        requires
            materialIndex < old(self).mList@.len(),
        ensures
            final(self).mList@ == old(self).mList@.remove(materialIndex as int),
            final(self).tList@ == tris_after_material_delete(
                old(self).tList@,
                materialIndex as int,
            ),
            final(self).vList == old(self).vList,
            final(self).pList == old(self).pList,
    {
        let n = self.tList.len();
        let mut k: usize = 0;
        while k < n
            invariant
                n == self.tList@.len(),
                n == old(self).tList@.len(),
                k <= n,
                self.vList == old(self).vList,
                self.mList == old(self).mList,
                self.pList == old(self).pList,
                materialIndex < self.mList@.len(),
                forall|j: int| 0 <= j < k ==> self.tList@[j]
                    == mark_tri_material_delete(old(self).tList@[j], materialIndex as int),
                forall|j: int| k <= j < n ==> self.tList@[j] == old(self).tList@[j],
            decreases n - k,
        {
            let mut t = self.tList[k];
            if t.material == materialIndex {
                t.mark = 1;
            } else {
                t.mark = 0;
                if t.material > materialIndex {
                    t.material = t.material - 1;
                }
            }
            self.tList[k] = t;
            k = k + 1;
        }
        proof {
            assert(self.tList@ =~= old(self).tList@.map_values(
                |t: Tri| mark_tri_material_delete(t, materialIndex as int),
            ));
        }
        self.mList.remove(materialIndex);
        self.deleteMarkedTris(1);
        proof {
            lemma_filter_map_exchange(
                old(self).tList@,
                |t: Tri| mark_tri_material_delete(t, materialIndex as int),
                |t: Tri| t.mark != 1,
                |t: Tri| t.material != materialIndex as int,
                |t: Tri| mark_tri_material_delete(t, materialIndex as int),
            );
        }
    }

    /// Remove one part. Triangles belonging to it are deleted; every
    /// other triangle is unmarked and its part index past the removed
    /// slot shifts down one.
    pub fn deletePart(&mut self, partIndex: usize)
        requires
            partIndex < old(self).pList@.len(),
        ensures
            final(self).pList@ == old(self).pList@.remove(partIndex as int),
            final(self).tList@ == tris_after_part_delete(old(self).tList@, partIndex as int),
            final(self).vList == old(self).vList,
            final(self).mList == old(self).mList,
    {
        let n = self.tList.len();
        let mut k: usize = 0;
        while k < n
            invariant
                n == self.tList@.len(),
                n == old(self).tList@.len(),
                k <= n,
                self.vList == old(self).vList,
                self.mList == old(self).mList,
                self.pList == old(self).pList,
                partIndex < self.pList@.len(),
                forall|j: int| 0 <= j < k ==> self.tList@[j]
                    == mark_tri_part_delete(old(self).tList@[j], partIndex as int),
                forall|j: int| k <= j < n ==> self.tList@[j] == old(self).tList@[j],
            decreases n - k,
        {
            let mut t = self.tList[k];
            if t.part == partIndex {
                t.mark = 1;
            } else {
                t.mark = 0;
                if t.part > partIndex {
                    t.part = t.part - 1;
                }
            }
            self.tList[k] = t;
            k = k + 1;
        }
        proof {
            assert(self.tList@ =~= old(self).tList@.map_values(
                |t: Tri| mark_tri_part_delete(t, partIndex as int),
            ));
        }
        self.pList.remove(partIndex);
        self.deleteMarkedTris(1);
        proof {
            lemma_filter_map_exchange(
                old(self).tList@,
                |t: Tri| mark_tri_part_delete(t, partIndex as int),
                |t: Tri| t.mark != 1,
                |t: Tri| t.part != partIndex as int,
                |t: Tri| mark_tri_part_delete(t, partIndex as int),
            );
        }
    }


    /// Give every triangle three vertices of its own: the new vertex
    /// list has exactly one entry per face corner, a copy of the
    /// original corner vertex's geometry, and the triangles are
    /// renumbered accordingly. A mesh without faces is left untouched.
    #[verifier::rlimit(50)]
    pub fn detachAllFaces(&mut self)
        requires
            tris_ref_valid_verts(old(self).tList@, old(self).vList@.len() as int),
            old(self).tList@.len() * 3 <= usize::MAX,
        ensures
            final(self).mList == old(self).mList,
            final(self).pList == old(self).pList,
            final(self).tList@.len() == old(self).tList@.len(),
            old(self).tList@.len() == 0 ==> *final(self) == *old(self),
            old(self).tList@.len() > 0 ==> {
                &&& final(self).vList@.len() == 3 * old(self).tList@.len()
                &&& forall|k: int| 0 <= k < old(self).tList@.len()
                    ==> #[trigger] final(self).tList@[k] == (Tri {
                    v: (
                        Vert { index: (3 * k) as usize, ..old(self).tList@[k].v.0 },
                        Vert { index: (3 * k + 1) as usize, ..old(self).tList@[k].v.1 },
                        Vert { index: (3 * k + 2) as usize, ..old(self).tList@[k].v.2 },
                    ),
                    ..old(self).tList@[k]
                })
                &&& final(self).vList@ == detached_verts(
                    old(self).tList@,
                    old(self).vList@,
                    old(self).tList@.len() as int,
                )
            },
    {
        if self.tList.len() == 0 {
            return;
        }
        let n = self.tList.len();
        let mut newVertexList: Vec<Vertex> = Vec::new();
        let mut k: usize = 0;
        while k < n
            invariant
                n == self.tList@.len(),
                n == old(self).tList@.len(),
                n * 3 <= usize::MAX,
                k <= n,
                self.vList == old(self).vList,
                self.mList == old(self).mList,
                self.pList == old(self).pList,
                tris_ref_valid_verts(old(self).tList@, self.vList@.len() as int),
                newVertexList@ == detached_verts(old(self).tList@, old(self).vList@, k as int),
                newVertexList@.len() == 3 * k,
                forall|kk: int| k <= kk < n ==> #[trigger] self.tList@[kk] == old(self).tList@[kk],
                forall|kk: int| 0 <= kk < k ==> #[trigger] self.tList@[kk] == (Tri {
                    v: (
                        Vert { index: (3 * kk) as usize, ..old(self).tList@[kk].v.0 },
                        Vert { index: (3 * kk + 1) as usize, ..old(self).tList@[kk].v.1 },
                        Vert { index: (3 * kk + 2) as usize, ..old(self).tList@[kk].v.2 },
                    ),
                    ..old(self).tList@[kk]
                }),
            decreases n - k,
        {
            let mut t = self.tList[k];
            let ov0 = self.vList[t.v.0.index];
            newVertexList.push(Vertex { p: ov0.p, u: ov0.u, v: ov0.v, normal: ov0.normal, mark: 0 });
            t.v.0.index = 3 * k;
            let ov1 = self.vList[t.v.1.index];
            newVertexList.push(Vertex { p: ov1.p, u: ov1.u, v: ov1.v, normal: ov1.normal, mark: 0 });
            t.v.1.index = 3 * k + 1;
            let ov2 = self.vList[t.v.2.index];
            newVertexList.push(Vertex { p: ov2.p, u: ov2.u, v: ov2.v, normal: ov2.normal, mark: 0 });
            t.v.2.index = 3 * k + 2;
            self.tList[k] = t;
            proof {
                assert(newVertexList@ =~= detached_verts(
                    old(self).tList@,
                    old(self).vList@,
                    k as int,
                ) + seq![
                    detached_vertex(
                        old(self).vList@[old(self).tList@[k as int].v.0.index as int],
                    ),
                    detached_vertex(
                        old(self).vList@[old(self).tList@[k as int].v.1.index as int],
                    ),
                    detached_vertex(
                        old(self).vList@[old(self).tList@[k as int].v.2.index as int],
                    ),
                ]);
            }
            k = k + 1;
        }
        self.vList = newVertexList;
    }

    /// Apply an affine transform to every vertex position. Normals are
    /// left untouched on purpose: they may be stale anyway, and the
    /// caller recomputes them when needed.
    pub fn transformVertices(&mut self, m: &crate::matrix4x3::Matrix4x3)
        requires
            crate::matrix4x3::matrix_in_range(*m),
            forall|i: int| 0 <= i < old(self).vList@.len() ==> crate::vector3::in_coord_range(
                (#[trigger] old(self).vList@[i]).p,
            ) && crate::matrix4x3::transform_fits(*m, old(self).vList@[i].p),
        ensures
            final(self).tList == old(self).tList,
            final(self).mList == old(self).mList,
            final(self).pList == old(self).pList,
            final(self).vList@.len() == old(self).vList@.len(),
            forall|i: int| 0 <= i < old(self).vList@.len() ==> #[trigger] final(self).vList@[i]
                == (Vertex {
                p: Vector3 {
                    x: crate::matrix4x3::transformed_x(*m, old(self).vList@[i].p) as i64,
                    y: crate::matrix4x3::transformed_y(*m, old(self).vList@[i].p) as i64,
                    z: crate::matrix4x3::transformed_z(*m, old(self).vList@[i].p) as i64,
                },
                ..old(self).vList@[i]
            }),
    {
        let n = self.vList.len();
        let mut i: usize = 0;
        while i < n
            invariant
                n == self.vList@.len(),
                n == old(self).vList@.len(),
                i <= n,
                self.tList == old(self).tList,
                self.mList == old(self).mList,
                self.pList == old(self).pList,
                crate::matrix4x3::matrix_in_range(*m),
                forall|j: int| 0 <= j < n ==> crate::vector3::in_coord_range(
                    (#[trigger] old(self).vList@[j]).p,
                ) && crate::matrix4x3::transform_fits(*m, old(self).vList@[j].p),
                forall|j: int| i <= j < n ==> #[trigger] self.vList@[j] == old(self).vList@[j],
                forall|j: int| 0 <= j < i ==> #[trigger] self.vList@[j] == (Vertex {
                    p: Vector3 {
                        x: crate::matrix4x3::transformed_x(*m, old(self).vList@[j].p) as i64,
                        y: crate::matrix4x3::transformed_y(*m, old(self).vList@[j].p) as i64,
                        z: crate::matrix4x3::transformed_z(*m, old(self).vList@[j].p) as i64,
                    },
                    ..old(self).vList@[j]
                }),
            decreases n - i,
        {
            let mut vx = self.vList[i];
            vx.p = m.transform_point(&vx.p);
            self.vList[i] = vx;
            i = i + 1;
        }
    }

    /// The axis-aligned bounding box of all vertex positions, grown
    /// point by point from the canonical empty box.
    pub fn computeBounds(&self) -> (r: crate::aabb3::AABB3)
        ensures
            r == bounds_of(self.vList@, self.vList@.len() as int),
    {
        let mut bounding_box = crate::aabb3::AABB3::new();
        bounding_box.empty();
        let n = self.vList.len();
        let mut i: usize = 0;
        while i < n
            invariant
                n == self.vList@.len(),
                i <= n,
                bounding_box == bounds_of(self.vList@, i as int),
            decreases n - i,
        {
            let p = self.vList[i].p;
            bounding_box.add_point(&p);
            i = i + 1;
        }
        bounding_box
    }


    /// Recompute the face normal of the triangle at `triIndex` from the
    /// current vertex positions.
    pub fn computeOneTriNormal_with_index(&mut self, triIndex: usize)
        requires
            triIndex < old(self).tList@.len(),
            old(self).tList@[triIndex as int].v.0.index < old(self).vList@.len(),
            old(self).tList@[triIndex as int].v.1.index < old(self).vList@.len(),
            old(self).tList@[triIndex as int].v.2.index < old(self).vList@.len(),
            vertex_positions_bounded(old(self).vList@),
        ensures
            final(self).vList == old(self).vList,
            final(self).mList == old(self).mList,
            final(self).pList == old(self).pList,
            final(self).tList@ == old(self).tList@.update(
                triIndex as int,
                tri_with_normal(old(self).vList@, old(self).tList@[triIndex as int]),
            ),
    {
        let mut t = self.tList[triIndex];
        self.computeOneTriNormal(&mut t);
        self.tList[triIndex] = t;
        proof {
            assert(self.tList@ =~= old(self).tList@.update(
                triIndex as int,
                tri_with_normal(old(self).vList@, old(self).tList@[triIndex as int]),
            ));
        }
    }

    /// Recompute the face normal of a triangle against this mesh's
    /// vertex list, with the fixed clockwise edge-winding convention.
    pub fn computeOneTriNormal(&self, t: &mut Tri)
        requires
            old(t).v.0.index < self.vList@.len(),
            old(t).v.1.index < self.vList@.len(),
            old(t).v.2.index < self.vList@.len(),
            vertex_positions_bounded(self.vList@),
        ensures
            *final(t) == tri_with_normal(self.vList@, *old(t)),
    {
        let p1 = self.vList[t.v.0.index].p;
        let p2 = self.vList[t.v.1.index].p;
        let p3 = self.vList[t.v.2.index].p;
        let e1 = p3.sub(&p2);
        let e2 = p1.sub(&p3);
        proof {
            lemma_mesh_cross_fits(e1.x as int, e1.y as int, e1.z as int, e2.x as int,
                e2.y as int, e2.z as int);
        }
        let mut normal = crate::vector3::cross_product(&e1, &e2);
        normal.normalize();
        t.normal = normal;
    }

    /// Recompute every triangle's face normal.
    pub fn computeTriNormals(&mut self)
        requires
            tris_ref_valid_verts(old(self).tList@, old(self).vList@.len() as int),
            vertex_positions_bounded(old(self).vList@),
        ensures
            final(self).vList == old(self).vList,
            final(self).mList == old(self).mList,
            final(self).pList == old(self).pList,
            final(self).tList@.len() == old(self).tList@.len(),
            forall|k: int| 0 <= k < old(self).tList@.len() ==> #[trigger] final(self).tList@[k]
                == tri_with_normal(old(self).vList@, old(self).tList@[k]),
    {
        let n = self.tList.len();
        let mut k: usize = 0;
        while k < n
            invariant
                n == self.tList@.len(),
                n == old(self).tList@.len(),
                k <= n,
                self.vList == old(self).vList,
                self.mList == old(self).mList,
                self.pList == old(self).pList,
                tris_ref_valid_verts(old(self).tList@, old(self).vList@.len() as int),
                vertex_positions_bounded(old(self).vList@),
                forall|kk: int| k <= kk < n ==> #[trigger] self.tList@[kk] == old(self).tList@[kk],
                forall|kk: int| 0 <= kk < k ==> #[trigger] self.tList@[kk] == tri_with_normal(
                    old(self).vList@,
                    old(self).tList@[kk],
                ),
            decreases n - k,
        {
            self.computeOneTriNormal_with_index(k);
            k = k + 1;
        }
    }

    /// Recompute vertex-level normals: first refresh the face normals,
    /// then give each vertex the normalized, unweighted sum of the face
    /// normals of every corner that refers to it. A vertex no face uses
    /// keeps a zero normal.
    #[verifier::rlimit(80)]
    pub fn computeVertexNormals(&mut self)
        requires
            tris_ref_valid_verts(old(self).tList@, old(self).vList@.len() as int),
            vertex_positions_bounded(old(self).vList@),
            old(self).tList@.len() <= 1_000_000_000_000,
        ensures
            final(self).mList == old(self).mList,
            final(self).pList == old(self).pList,
            final(self).tList@.len() == old(self).tList@.len(),
            forall|k: int| 0 <= k < old(self).tList@.len() ==> #[trigger] final(self).tList@[k]
                == tri_with_normal(old(self).vList@, old(self).tList@[k]),
            final(self).vList@.len() == old(self).vList@.len(),
            forall|i: int| 0 <= i < old(self).vList@.len() ==> #[trigger] final(self).vList@[i]
                == (Vertex {
                normal: crate::vector3::spec_normalize(
                    sum_vector(
                        vertex_normal_sum(
                            final(self).tList@,
                            i,
                            3 * old(self).tList@.len() as int,
                        ),
                    ),
                ),
                ..old(self).vList@[i]
            }),
    {
        // First, make sure triangle level surface normals are up-to-date
        self.computeTriNormals();
        let ghost tris = self.tList@;
        let ghost vs0 = old(self).vList@;
        proof {
            assert forall|k: int| 0 <= k < tris.len() implies
                -1_000_000 <= (#[trigger] tris[k]).normal.x <= 1_000_000
                && -1_000_000 <= tris[k].normal.y <= 1_000_000
                && -1_000_000 <= tris[k].normal.z <= 1_000_000 by {
                crate::vector3::lemma_spec_normalize_bounded(
                    tri_cross_vector(vs0, old(self).tList@[k]),
                );
            }
        }
        // Zero out vertex normals
        let vn = self.vList.len();
        let mut i: usize = 0;
        while i < vn
            invariant
                vn == self.vList@.len(),
                vn == vs0.len(),
                i <= vn,
                self.tList@ == tris,
                self.mList == old(self).mList,
                self.pList == old(self).pList,
                forall|j: int| i <= j < vn ==> #[trigger] self.vList@[j] == vs0[j],
                forall|j: int| 0 <= j < i ==> #[trigger] self.vList@[j] == (Vertex {
                    normal: Vector3 { x: 0i64, y: 0i64, z: 0i64 },
                    ..vs0[j]
                }),
            decreases vn - i,
        {
            let mut vx = self.vList[i];
            vx.normal = crate::vector3::Vector3::zero();
            self.vList[i] = vx;
            i = i + 1;
        }
        // Sum each face normal into its three corner vertices
        let n = self.tList.len();
        let mut k: usize = 0;
        while k < n
            invariant
                n == self.tList@.len(),
                n == tris.len(),
                n <= 1_000_000_000_000,
                vn == self.vList@.len(),
                vn == vs0.len(),
                k <= n,
                self.tList@ == tris,
                self.mList == old(self).mList,
                self.pList == old(self).pList,
                tris_ref_valid_verts(tris, vn as int),
                forall|kk: int| 0 <= kk < n ==> {
                    &&& -1_000_000 <= (#[trigger] tris[kk]).normal.x <= 1_000_000
                    &&& -1_000_000 <= tris[kk].normal.y <= 1_000_000
                    &&& -1_000_000 <= tris[kk].normal.z <= 1_000_000
                },
                forall|j: int| 0 <= j < vn ==> #[trigger] self.vList@[j] == (Vertex {
                    normal: sum_vector(vertex_normal_sum(tris, j, 3 * k as int)),
                    ..vs0[j]
                }),
                forall|j: int| 0 <= j < vn ==> {
                    &&& -3_000_000_000_000_000_000
                        <= (#[trigger] self.vList@[j]).normal.x <= 3_000_000_000_000_000_000
                    &&& -3_000_000_000_000_000_000 <= self.vList@[j].normal.y
                        <= 3_000_000_000_000_000_000
                    &&& -3_000_000_000_000_000_000 <= self.vList@[j].normal.z
                        <= 3_000_000_000_000_000_000
                },
            decreases n - k,
        {
            let t = self.tList[k];
            proof {
                assert forall|j: int| 0 <= j < vn implies {
                    let s = #[trigger] vertex_normal_sum(tris, j, 3 * k as int);
                    &&& -3_000_000_000_000_000_000 <= s.0 <= 3_000_000_000_000_000_000
                    &&& -3_000_000_000_000_000_000 <= s.1 <= 3_000_000_000_000_000_000
                    &&& -3_000_000_000_000_000_000 <= s.2 <= 3_000_000_000_000_000_000
                } by {
                    lemma_normal_sum_bound(tris, j, 3 * k as int);
                }
            }
            proof {
                lemma_normal_sum_bound(tris, t.v.0.index as int, 3 * k as int);
            }
            self.add_normal_to_vertex(t.v.0.index, &t.normal);
            proof {
                lemma_normal_sum_step(tris, k as int, 0, self.vList@, vs0, vn as int);
                lemma_normal_sum_bound(tris, t.v.1.index as int, 3 * k as int + 1);
                assert(vertex_normal_sum(tris, t.v.1.index as int, 3 * k as int + 0 + 1)
                    == vertex_normal_sum(tris, t.v.1.index as int, 3 * k as int + 1));
            }
            self.add_normal_to_vertex(t.v.1.index, &t.normal);
            proof {
                lemma_normal_sum_step(tris, k as int, 1, self.vList@, vs0, vn as int);
                lemma_normal_sum_bound(tris, t.v.2.index as int, 3 * k as int + 2);
                assert(vertex_normal_sum(tris, t.v.2.index as int, 3 * k as int + 1 + 1)
                    == vertex_normal_sum(tris, t.v.2.index as int, 3 * k as int + 2));
            }
            self.add_normal_to_vertex(t.v.2.index, &t.normal);
            proof {
                lemma_normal_sum_step(tris, k as int, 2, self.vList@, vs0, vn as int);
                assert forall|j: int| 0 <= j < vn implies {
                    let s = #[trigger] vertex_normal_sum(tris, j, 3 * (k + 1) as int);
                    &&& -3_000_000_000_000_000_000 <= s.0 <= 3_000_000_000_000_000_000
                    &&& -3_000_000_000_000_000_000 <= s.1 <= 3_000_000_000_000_000_000
                    &&& -3_000_000_000_000_000_000 <= s.2 <= 3_000_000_000_000_000_000
                } by {
                    lemma_normal_sum_bound(tris, j, 3 * (k + 1) as int);
                }
                assert(3 * (k + 1) as int == 3 * k as int + 2 + 1);
            }
            k = k + 1;
        }
        // Average by normalizing each accumulated vertex normal
        let mut i2: usize = 0;
        let ghost summed = self.vList@;
        while i2 < vn
            invariant
                vn == self.vList@.len(),
                i2 <= vn,
                self.tList@ == tris,
                self.mList == old(self).mList,
                self.pList == old(self).pList,
                forall|j: int| i2 <= j < vn ==> #[trigger] self.vList@[j] == summed[j],
                forall|j: int| 0 <= j < i2 ==> #[trigger] self.vList@[j] == (Vertex {
                    normal: crate::vector3::spec_normalize(summed[j].normal),
                    ..summed[j]
                }),
            decreases vn - i2,
        {
            let mut vx = self.vList[i2];
            vx.normal.normalize();
            self.vList[i2] = vx;
            i2 = i2 + 1;
        }
    }

    /// Add a face normal into one vertex's accumulating normal.
    fn add_normal_to_vertex(&mut self, vi: usize, nrm: &Vector3)
        requires
            vi < old(self).vList@.len(),
            -1_000_000 <= nrm.x <= 1_000_000,
            -1_000_000 <= nrm.y <= 1_000_000,
            -1_000_000 <= nrm.z <= 1_000_000,
            -4_000_000_000_000_000_000 <= old(self).vList@[vi as int].normal.x
                <= 4_000_000_000_000_000_000,
            -4_000_000_000_000_000_000 <= old(self).vList@[vi as int].normal.y
                <= 4_000_000_000_000_000_000,
            -4_000_000_000_000_000_000 <= old(self).vList@[vi as int].normal.z
                <= 4_000_000_000_000_000_000,
        ensures
            final(self).tList == old(self).tList,
            final(self).mList == old(self).mList,
            final(self).pList == old(self).pList,
            final(self).vList@ == old(self).vList@.update(
                vi as int,
                Vertex {
                    normal: Vector3 {
                        x: (old(self).vList@[vi as int].normal.x + nrm.x) as i64,
                        y: (old(self).vList@[vi as int].normal.y + nrm.y) as i64,
                        z: (old(self).vList@[vi as int].normal.z + nrm.z) as i64,
                    },
                    ..old(self).vList@[vi as int]
                },
            ),
    {
        let mut vx = self.vList[vi];
        vx.normal.x = vx.normal.x + nrm.x;
        vx.normal.y = vx.normal.y + nrm.y;
        vx.normal.z = vx.normal.z + nrm.z;
        self.vList[vi] = vx;
        proof {
            assert(self.vList@ =~= old(self).vList@.update(
                vi as int,
                Vertex {
                    normal: Vector3 {
                        x: (old(self).vList@[vi as int].normal.x + nrm.x) as i64,
                        y: (old(self).vList@[vi as int].normal.y + nrm.y) as i64,
                        z: (old(self).vList@[vi as int].normal.z + nrm.z) as i64,
                    },
                    ..old(self).vList@[vi as int]
                },
            ));
        }
    }


    /// Reorder the vertex list into first-use order: the first face
    /// corner to refer to a vertex fixes its new position, triangles
    /// are remapped in the same scan, and vertices no face uses either
    /// move after all used ones (in their original order, marked with
    /// the old vertex count) or are dropped.
    #[verifier::rlimit(100)]
    pub fn optimizeVertexOrder(&mut self, removeUnusedVertices: bool)
        requires
            tris_ref_valid_verts(old(self).tList@, old(self).vList@.len() as int),
            old(self).vList@.len() < 0x8000_0000_0000_0000,
        ensures
            final(self).mList == old(self).mList,
            final(self).pList == old(self).pList,
            final(self).tList@.len() == old(self).tList@.len(),
            forall|k: int| 0 <= k < old(self).tList@.len() ==> #[trigger] vo_tri_remapped(
                final(self).tList@[k],
                old(self).tList@[k],
                old(self).tList@,
                3 * old(self).tList@.len() as int,
            ),
            final(self).vList@.len() == if removeUnusedVertices {
                first_use_count(old(self).tList@, 3 * old(self).tList@.len() as int)
            } else {
                old(self).vList@.len() as int
            },
            forall|vi: int| 0 <= vi < old(self).vList@.len() && #[trigger] first_use_rank(
                old(self).tList@,
                vi,
                3 * old(self).tList@.len() as int,
            ) >= 0 ==> final(self).vList@[first_use_rank(
                old(self).tList@,
                vi,
                3 * old(self).tList@.len() as int,
            )] == (Vertex {
                mark: first_use_rank(
                    old(self).tList@,
                    vi,
                    3 * old(self).tList@.len() as int,
                ) as i64,
                ..old(self).vList@[vi]
            }),
            !removeUnusedVertices ==> forall|vi: int| 0 <= vi < old(self).vList@.len()
                && #[trigger] first_use_rank(
                old(self).tList@,
                vi,
                3 * old(self).tList@.len() as int,
            ) == -1 ==> final(self).vList@[first_use_count(
                old(self).tList@,
                3 * old(self).tList@.len() as int,
            ) + unused_rank(old(self).tList@, vi)] == (Vertex {
                mark: old(self).vList@.len() as i64,
                ..old(self).vList@[vi]
            }),
    {
        let ghost tris0 = old(self).tList@;
        let ghost vs0 = old(self).vList@;
        let vl = self.vList.len();
        self.markAllVertices(vl as i64);
        proof {
            lemma_corners_valid(tris0, vs0.len() as int);
            assert forall|w: int| 0 <= w < vs0.len() implies #[trigger] self.vList@[w] == (Vertex {
                mark: vo_mark(tris0, w, 0, vs0.len() as int),
                ..vs0[w]
            }) by {}
        }
        let usedVertexCount = self.vo_scan(Ghost(tris0), Ghost(vs0));
        let ghost c3 = 3 * tris0.len() as int;
        let mut out = vo_build_used(&self.vList, usedVertexCount, Ghost(tris0), Ghost(vs0));
        if removeUnusedVertices {
            self.vList = out;
            return;
        }
        // Keep the unused vertices, after the used block
        let ghost marked = self.vList@;
        let ghost placed = out@;
        let mut vi2: usize = 0;
        while vi2 < vl
            invariant
                vl == self.vList@.len(),
                vl == marked.len(),
                vi2 <= vl,
                self.vList@ == marked,
                self.mList == old(self).mList,
                self.pList == old(self).pList,
                tris_ref_valid_verts(tris0, vs0.len() as int),
                out@ == placed + marked.subrange(0, vi2 as int).filter(
                    |v: Vertex| v.mark == vl as i64,
                ),
            decreases vl - vi2,
        {
            let vx = self.vList[vi2];
            proof {
                lemma_filter_push(
                    marked.subrange(0, vi2 as int),
                    |v: Vertex| v.mark == vl as i64,
                    marked[vi2 as int],
                );
                assert(marked.subrange(0, vi2 as int).push(marked[vi2 as int])
                    =~= marked.subrange(0, vi2 as int + 1));
                if vi2 == 0 {
                    assert(marked.subrange(0, 0).filter(|v: Vertex| v.mark == vl as i64)
                        =~= Seq::<Vertex>::empty());
                }
            }
            if vx.mark == vl as i64 {
                out.push(vx);
            }
            vi2 = vi2 + 1;
        }
        self.vList = out;
        proof {
            assert forall|w: int| 0 <= w < vl && #[trigger] first_use_rank(tris0, w, c3) >= 0
                implies self.vList@[first_use_rank(tris0, w, c3)] == (Vertex {
                mark: first_use_rank(tris0, w, c3) as i64,
                ..vs0[w]
            }) by {
                lemma_first_use_bounds(tris0, w, c3);
                assert(placed[first_use_rank(tris0, w, c3)] == (Vertex {
                    mark: first_use_rank(tris0, w, c3) as i64,
                    ..vs0[w]
                }));
            }
            assert(marked.subrange(0, vl as int) =~= marked);
            lemma_corners_valid(tris0, vs0.len() as int);
            lemma_first_use_count_le(tris0, c3, vl as int);
            assert forall|w: int| 0 <= w < vl implies
                ((#[trigger] marked[w]).mark == vl as i64) == (first_use_rank(
                tris0,
                w,
                3 * tris0.len() as int,
            ) == -1) by {
                lemma_first_use_bounds(tris0, w, c3);
            }
            lemma_compact_by_rank(
                marked,
                |w: int| first_use_rank(tris0, w, 3 * tris0.len() as int) == -1,
                |v: Vertex| v.mark == vl as i64,
            );
            lemma_rank_below_complement(
                |w: int| first_use_rank(tris0, w, 3 * tris0.len() as int) >= 0,
                |w: int| first_use_rank(tris0, w, 3 * tris0.len() as int) == -1,
                vl as int,
            );
            assert forall|w: int| 0 <= w < vl && #[trigger] first_use_rank(tris0, w, c3) == -1
                implies self.vList@[first_use_count(tris0, c3) + unused_rank(tris0, w)]
                == (Vertex { mark: vl as i64, ..vs0[w] }) by {
                lemma_rank_below_nonneg(
                    |ww: int| first_use_rank(tris0, ww, 3 * tris0.len() as int) == -1,
                    w,
                );
                lemma_rank_below_strict(
                    |ww: int| first_use_rank(tris0, ww, 3 * tris0.len() as int) == -1,
                    w,
                    vl as int,
                );
                assert(marked.filter(|v: Vertex| v.mark == vl as i64)[unused_rank(tris0, w)]
                    == marked[w]);
                assert(self.vList@[first_use_count(tris0, c3) + unused_rank(tris0, w)]
                    == marked.filter(|v: Vertex| v.mark == vl as i64)[unused_rank(tris0, w)]);
            }
        }
    }



    /// The reordering scan: assign every used vertex its first-use rank
    /// through its scratch mark and remap the triangle corners, in one
    /// pass over the faces.
    #[verifier::rlimit(100)]
    fn vo_scan(
        &mut self,
        Ghost(tris0): Ghost<Seq<Tri>>,
        Ghost(vs0): Ghost<Seq<Vertex>>,
    ) -> (used: usize)
        requires
            old(self).tList@ == tris0,
            old(self).vList@.len() == vs0.len(),
            vs0.len() < 0x8000_0000_0000_0000,
            tris_ref_valid_verts(tris0, vs0.len() as int),
            forall|w: int| 0 <= w < vs0.len() ==> #[trigger] old(self).vList@[w] == (Vertex {
                mark: vo_mark(tris0, w, 0, vs0.len() as int),
                ..vs0[w]
            }),
        ensures
            final(self).mList == old(self).mList,
            final(self).pList == old(self).pList,
            final(self).vList@.len() == vs0.len(),
            final(self).tList@.len() == tris0.len(),
            used == first_use_count(tris0, 3 * tris0.len() as int),
            forall|w: int| 0 <= w < vs0.len() ==> #[trigger] final(self).vList@[w] == (Vertex {
                mark: vo_mark(tris0, w, 3 * tris0.len() as int, vs0.len() as int),
                ..vs0[w]
            }),
            forall|kk: int| 0 <= kk < tris0.len() ==> #[trigger] vo_tri_remapped(
                final(self).tList@[kk],
                tris0[kk],
                tris0,
                3 * tris0.len() as int,
            ),
    {
        let vl = self.vList.len();
        proof {
            lemma_corners_valid(tris0, vs0.len() as int);
        }
        let n = self.tList.len();
        let mut usedVertexCount: usize = 0;
        let mut k: usize = 0;
        while k < n
            invariant
                n == self.tList@.len(),
                n == tris0.len(),
                vl == vs0.len(),
                vl == self.vList@.len(),
                vl < 0x8000_0000_0000_0000,
                k <= n,
                self.mList == old(self).mList,
                self.pList == old(self).pList,
                tris_ref_valid_verts(tris0, vs0.len() as int),
                forall|cc: int| 0 <= cc < 3 * tris0.len() ==> 0 <= #[trigger] corner_index(
                    tris0,
                    cc,
                ) < vs0.len(),
                usedVertexCount == first_use_count(tris0, 3 * k as int),
                forall|w: int| 0 <= w < vs0.len() ==> #[trigger] self.vList@[w] == (Vertex {
                    mark: vo_mark(tris0, w, 3 * k as int, vs0.len() as int),
                    ..vs0[w]
                }),
                forall|kk: int| k <= kk < n ==> #[trigger] self.tList@[kk] == tris0[kk],
                forall|kk: int| 0 <= kk < k ==> #[trigger] vo_tri_remapped(
                    self.tList@[kk],
                    tris0[kk],
                    tris0,
                    3 * k as int,
                ),
            decreases n - k,
        {
            let ghost tl0 = self.tList@;
            let mut t = self.tList[k];
            proof {
                assert(t == tris0[k as int]);
                assert((3 * k as int) / 3 == k as int && (3 * k as int) % 3 == 0
                    && (3 * k as int + 1) / 3 == k as int && (3 * k as int + 1) % 3 == 1
                    && (3 * k as int + 2) / 3 == k as int && (3 * k as int + 2) % 3 == 2)
                    by (nonlinear_arith);
                assert(corner_index(tris0, 3 * k as int) == t.v.0.index as int);
                assert(corner_index(tris0, 3 * k as int + 1) == t.v.1.index as int);
                assert(corner_index(tris0, 3 * k as int + 2) == t.v.2.index as int);
                assert(0 <= 3 * (k as int) && 3 * (k as int) < 3 * (tris0.len() as int));
            }
            let r0 = vo_process_corner(&mut self.vList, t.v.0.index, usedVertexCount,
                Ghost(tris0), Ghost(3 * k as int), Ghost(vs0));
            t.v.0.index = r0.0;
            usedVertexCount = r0.1;
            let r1 = vo_process_corner(&mut self.vList, t.v.1.index, usedVertexCount,
                Ghost(tris0), Ghost(3 * k as int + 1), Ghost(vs0));
            t.v.1.index = r1.0;
            usedVertexCount = r1.1;
            let r2 = vo_process_corner(&mut self.vList, t.v.2.index, usedVertexCount,
                Ghost(tris0), Ghost(3 * k as int + 2), Ghost(vs0));
            t.v.2.index = r2.0;
            usedVertexCount = r2.1;
            self.tList[k] = t;
            k = k + 1;
            proof {
                assert(3 * k as int == 3 * (k - 1) as int + 2 + 1);
                assert forall|kk: int| 0 <= kk < k implies #[trigger] vo_tri_remapped(
                    self.tList@[kk],
                    tris0[kk],
                    tris0,
                    3 * k as int,
                ) by {
                    if kk < k - 1 {
                        assert(self.tList@[kk] == tl0[kk]);
                        assert(vo_tri_remapped(tl0[kk], tris0[kk], tris0, 3 * (k - 1) as int));
                        lemma_first_use_stable_nonneg(tris0, tris0[kk].v.0.index as int,
                            3 * (k - 1) as int, 3 * k as int);
                        lemma_first_use_stable_nonneg(tris0, tris0[kk].v.1.index as int,
                            3 * (k - 1) as int, 3 * k as int);
                        lemma_first_use_stable_nonneg(tris0, tris0[kk].v.2.index as int,
                            3 * (k - 1) as int, 3 * k as int);
                    } else {
                        assert(self.tList@[kk] == t);
                        assert(r0.0 == first_use_rank(tris0, tris0[kk].v.0.index as int,
                            3 * (k - 1) as int + 1));
                        assert(r1.0 == first_use_rank(tris0, tris0[kk].v.1.index as int,
                            3 * (k - 1) as int + 2));
                        assert(r2.0 == first_use_rank(tris0, tris0[kk].v.2.index as int,
                            3 * (k - 1) as int + 3));
                        lemma_first_use_stable(tris0, tris0[kk].v.0.index as int,
                            3 * (k - 1) as int + 1, 3 * k as int);
                        lemma_first_use_stable(tris0, tris0[kk].v.1.index as int,
                            3 * (k - 1) as int + 2, 3 * k as int);
                        assert(first_use_rank(tris0, tris0[kk].v.0.index as int,
                            3 * k as int) == r0.0);
                        assert(first_use_rank(tris0, tris0[kk].v.1.index as int,
                            3 * k as int) == r1.0);
                        assert(first_use_rank(tris0, tris0[kk].v.2.index as int,
                            3 * k as int) == r2.0);
                        assert(t.v.0 == (Vert { index: r0.0, ..tris0[kk].v.0 }));
                        assert(t.v.1 == (Vert { index: r1.0, ..tris0[kk].v.1 }));
                        assert(t.v.2 == (Vert { index: r2.0, ..tris0[kk].v.2 }));
                    }
                }
            }
        }
        usedVertexCount
    }

    /// Stable sort of the triangles by material index: materials in
    /// ascending order, original order within one material. Each
    /// triangle's scratch mark first receives its original position, so
    /// equal keys keep a deterministic order.
    pub fn sortTrisByMaterial(&mut self)
        requires
            tris_ref_valid_materials(old(self).tList@, old(self).mList@.len() as int),
            old(self).tList@.len() < 0x8000_0000_0000_0000,
        ensures
            final(self).vList == old(self).vList,
            final(self).mList == old(self).mList,
            final(self).pList == old(self).pList,
            final(self).tList@ == tris_by_material(
                position_marked_tris(old(self).tList@),
                old(self).mList@.len() as int,
            ),
    {
        let n = self.tList.len();
        let mut i: usize = 0;
        while i < n
            invariant
                n == self.tList@.len(),
                n == old(self).tList@.len(),
                n < 0x8000_0000_0000_0000,
                i <= n,
                self.vList == old(self).vList,
                self.mList == old(self).mList,
                self.pList == old(self).pList,
                forall|k: int| i <= k < n ==> #[trigger] self.tList@[k] == old(self).tList@[k],
                forall|k: int| 0 <= k < i ==> #[trigger] self.tList@[k]
                    == position_marked_tris(old(self).tList@)[k],
            decreases n - i,
        {
            let mut t = self.tList[i];
            t.mark = i as i64;
            self.tList[i] = t;
            i = i + 1;
        }
        proof {
            assert(self.tList@ =~= position_marked_tris(old(self).tList@));
        }
        let ghost marked = self.tList@;
        let mcount = self.mList.len();
        let mut sorted: Vec<Tri> = Vec::new();
        let mut m: usize = 0;
        while m < mcount
            invariant
                n == self.tList@.len(),
                self.tList@ == marked,
                self.vList == old(self).vList,
                self.mList == old(self).mList,
                self.pList == old(self).pList,
                m <= mcount,
                sorted@ == tris_by_material(marked, m as int),
            decreases mcount - m,
        {
            let mut k: usize = 0;
            while k < n
                invariant
                    n == self.tList@.len(),
                    self.tList@ == marked,
                    k <= n,
                    m < mcount,
                    sorted@ == tris_by_material(marked, m as int) + marked.subrange(
                        0,
                        k as int,
                    ).filter(|t: Tri| t.material == m as int),
                decreases n - k,
            {
                let t = self.tList[k];
                proof {
                    lemma_filter_push(
                        marked.subrange(0, k as int),
                        |tt: Tri| tt.material == m as int,
                        marked[k as int],
                    );
                    assert(marked.subrange(0, k as int).push(marked[k as int])
                        =~= marked.subrange(0, k as int + 1));
                }
                if t.material == m {
                    sorted.push(t);
                }
                k = k + 1;
            }
            proof {
                assert(marked.subrange(0, n as int) =~= marked);
            }
            m = m + 1;
        }
        proof {
            if mcount == 0 {
                if marked.len() > 0 {
                    assert(old(self).tList@[0].material < 0);
                }
                assert(sorted@ =~= tris_by_material(marked, mcount as int));
            }
        }
        self.tList = sorted;
    }


    /// Extract the faces of one part that use one material into a
    /// fresh single-part, single-material mesh: the faces keep their
    /// order, and the vertex list is trimmed to the vertices those
    /// faces use, in first-use order.
    pub fn extractOnePartOneMaterial(
        &self,
        partIndex: usize,
        materialIndex: usize,
        result: &mut EditTriMesh,
    )
        requires
            partIndex < self.pList@.len(),
            materialIndex < self.mList@.len(),
            tris_ref_valid_verts(self.tList@, self.vList@.len() as int),
            self.vList@.len() < 0x8000_0000_0000_0000,
            3 * self.tList@.len() <= usize::MAX,
        ensures
            tris_ref_valid_verts(final(result).tList@, final(result).vList@.len() as int),
            final(result).vList@.len() <= self.vList@.len(),
            final(result).pList@.len() == 1,
            final(result).pList@[0] == self.pList@[partIndex as int],
            final(result).mList@.len() == 1,
            final(result).mList@[0] == self.mList@[materialIndex as int],
            ({
                let et = one_part_one_material_tris(
                    self.tList@,
                    partIndex as int,
                    materialIndex as int,
                );
                let c3 = 3 * et.len() as int;
                &&& final(result).tList@.len() == et.len()
                &&& final(result).tList@ == compacted_tris_fn(et)
                &&& forall|kk: int| 0 <= kk < et.len() ==> #[trigger] vo_tri_remapped(
                    final(result).tList@[kk],
                    et[kk],
                    et,
                    c3,
                )
                &&& final(result).vList@.len() == first_use_count(et, c3)
                &&& forall|vi: int| 0 <= vi < self.vList@.len() && #[trigger] first_use_rank(
                    et,
                    vi,
                    c3,
                ) >= 0 ==> final(result).vList@[first_use_rank(et, vi, c3)] == (Vertex {
                    mark: first_use_rank(et, vi, c3) as i64,
                    ..self.vList@[vi]
                })
            }),
    {
        result.empty();
        let pclone = self.pList[partIndex].clone();
        result.pList.push(pclone);
        let mclone = self.mList[materialIndex].clone();
        result.mList.push(mclone);
        let vn = self.vList.len();
        let mut i: usize = 0;
        while i < vn
            invariant
                vn == self.vList@.len(),
                i <= vn,
                result.vList@ == self.vList@.subrange(0, i as int),
                result.pList@.len() == 1,
                result.pList@[0] == self.pList@[partIndex as int],
                result.mList@.len() == 1,
                result.mList@[0] == self.mList@[materialIndex as int],
                result.tList@ == Seq::<Tri>::empty(),
            decreases vn - i,
        {
            let vx = self.vList[i];
            result.vList.push(vx);
            proof {
                assert(result.vList@ =~= self.vList@.subrange(0, i as int + 1));
            }
            i = i + 1;
        }
        proof {
            assert(self.vList@.subrange(0, vn as int) =~= self.vList@);
        }
        let n = self.tList.len();
        let mut k: usize = 0;
        while k < n
            invariant
                n == self.tList@.len(),
                k <= n,
                result.vList@ == self.vList@,
                result.pList@.len() == 1,
                result.pList@[0] == self.pList@[partIndex as int],
                result.mList@.len() == 1,
                result.mList@[0] == self.mList@[materialIndex as int],
                result.tList@ == one_part_one_material_tris(
                    self.tList@.subrange(0, k as int),
                    partIndex as int,
                    materialIndex as int,
                ),
                tris_ref_valid_verts(result.tList@, result.vList@.len() as int),
                tris_ref_valid_verts(self.tList@, self.vList@.len() as int),
            decreases n - k,
        {
            let t = self.tList[k];
            proof {
                lemma_filter_push(
                    self.tList@.subrange(0, k as int),
                    |tt: Tri| tt.part == partIndex as int && tt.material == materialIndex as int,
                    self.tList@[k as int],
                );
                assert(self.tList@.subrange(0, k as int).push(self.tList@[k as int])
                    =~= self.tList@.subrange(0, k as int + 1));
                if t.part == partIndex && t.material == materialIndex {
                    assert(self.tList@.subrange(0, k as int).filter(
                        |tt: Tri| tt.part == partIndex as int && tt.material
                            == materialIndex as int,
                    ).push(t).map_values(|tt: Tri| Tri { part: 0usize, material: 0usize, ..tt })
                        =~= one_part_one_material_tris(
                        self.tList@.subrange(0, k as int),
                        partIndex as int,
                        materialIndex as int,
                    ).push(Tri { part: 0usize, material: 0usize, ..t }));
                }
            }
            if t.part == partIndex && t.material == materialIndex {
                let mut nt = t;
                nt.part = 0;
                nt.material = 0;
                result.tList.push(nt);
            }
            k = k + 1;
        }
        proof {
            assert(self.tList@.subrange(0, n as int) =~= self.tList@);
        }
        let ghost et = result.tList@;
        proof {
            et.lemma_filter_len(
                |tt: Tri| tt.part == partIndex as int && tt.material == materialIndex as int,
            );
            self.tList@.filter(
                |tt: Tri| tt.part == partIndex as int && tt.material == materialIndex as int,
            ).lemma_filter_len(
                |tt: Tri| tt.part == partIndex as int && tt.material == materialIndex as int,
            );
            lemma_corners_valid(et, result.vList@.len() as int);
            lemma_first_use_count_le(et, 3 * et.len() as int, result.vList@.len() as int);
        }
        result.optimizeVertexOrder(true);
        proof {
            lemma_remapped_tris_valid(et, result.tList@, result.vList@.len() as int);
            assert forall|kk: int| 0 <= kk < et.len() implies #[trigger] result.tList@[kk]
                == compacted_tris_fn(et)[kk] by {
                assert(vo_tri_remapped(result.tList@[kk], et[kk], et, 3 * et.len() as int));
            }
            assert(result.tList@ =~= compacted_tris_fn(et));
        }
    }


    /// Split the mesh into one independent mesh per part: each result
    /// holds exactly that part's faces, the materials those faces use
    /// (copied on first reference, so in first-reference order, each
    /// marked with its new index), and the vertices those faces use in
    /// first-use order.
    pub fn extractParts(&mut self, meshes: &mut Vec<EditTriMesh>)
        requires
            old(meshes)@.len() == old(self).pList@.len(),
            tris_ref_valid_verts(old(self).tList@, old(self).vList@.len() as int),
            tris_ref_valid_materials(old(self).tList@, old(self).mList@.len() as int),
            old(self).vList@.len() < 0x8000_0000_0000_0000,
            old(self).mList@.len() < 0x8000_0000_0000_0000,
            3 * old(self).tList@.len() <= usize::MAX,
        ensures
            *final(self) == *old(self),
            final(meshes)@.len() == old(self).pList@.len(),
            forall|p: int| 0 <= p < old(self).pList@.len() ==> #[trigger] part_extraction_of(
                final(meshes)@[p],
                old(self).tList@,
                old(self).vList@,
                old(self).mList@,
                old(self).pList@,
                p,
            ),
    {
        let pcount = self.pList.len();
        let mut p: usize = 0;
        while p < pcount
            invariant
                pcount == self.pList@.len(),
                p <= pcount,
                *self == *old(self),
                meshes@.len() == old(meshes)@.len(),
                old(meshes)@.len() == old(self).pList@.len(),
                tris_ref_valid_verts(self.tList@, self.vList@.len() as int),
                tris_ref_valid_materials(self.tList@, self.mList@.len() as int),
                self.vList@.len() < 0x8000_0000_0000_0000,
                self.mList@.len() < 0x8000_0000_0000_0000,
                3 * self.tList@.len() <= usize::MAX,
                forall|pp: int| 0 <= pp < p ==> #[trigger] part_extraction_of(
                    meshes@[pp],
                    old(self).tList@,
                    old(self).vList@,
                    old(self).mList@,
                    old(self).pList@,
                    pp,
                ),
            decreases pcount - p,
        {
            let dst = self.extract_one_part(p);
            meshes[p] = dst;
            p = p + 1;
        }
    }

    /// Extract one part into a fresh mesh: its faces, the materials
    /// they use (copied on first reference), and the vertices they use
    /// (first-use order).
    fn extract_one_part(&self, partIndex: usize) -> (dst: EditTriMesh)
        requires
            partIndex < self.pList@.len(),
            tris_ref_valid_verts(self.tList@, self.vList@.len() as int),
            tris_ref_valid_materials(self.tList@, self.mList@.len() as int),
            self.vList@.len() < 0x8000_0000_0000_0000,
            self.mList@.len() < 0x8000_0000_0000_0000,
            3 * self.tList@.len() <= usize::MAX,
        ensures
            part_extraction_of(
                dst,
                self.tList@,
                self.vList@,
                self.mList@,
                self.pList@,
                partIndex as int,
            ),
            tris_ref_valid_verts(dst.tList@, dst.vList@.len() as int),
            dst.vList@.len() <= self.vList@.len(),
            dst.tList@.len() <= self.tList@.len(),
    {
        let mut dst = EditTriMesh::default();
        let pclone = self.pList[partIndex].clone();
        dst.pList.push(pclone);
        let vn = self.vList.len();
        let mut i: usize = 0;
        while i < vn
            invariant
                vn == self.vList@.len(),
                i <= vn,
                dst.vList@ == self.vList@.subrange(0, i as int),
                dst.pList@.len() == 1,
                dst.pList@[0] == self.pList@[partIndex as int],
                dst.mList@ == Seq::<Material>::empty(),
                dst.tList@ == Seq::<Tri>::empty(),
            decreases vn - i,
        {
            let vx = self.vList[i];
            dst.vList.push(vx);
            proof {
                assert(dst.vList@ =~= self.vList@.subrange(0, i as int + 1));
            }
            i = i + 1;
        }
        proof {
            assert(self.vList@.subrange(0, self.vList@.len() as int) =~= self.vList@);
        }
        // Collect this part's faces, with their source material indices
        let n = self.tList.len();
        let mut k: usize = 0;
        while k < n
            invariant
                n == self.tList@.len(),
                k <= n,
                dst.vList@ == self.vList@,
                dst.mList@ == Seq::<Material>::empty(),
                dst.pList@.len() == 1,
                dst.pList@[0] == self.pList@[partIndex as int],
                dst.tList@ == one_part_tris(self.tList@.subrange(0, k as int), partIndex as int),
                tris_ref_valid_verts(dst.tList@, dst.vList@.len() as int),
                tris_ref_valid_materials(dst.tList@, self.mList@.len() as int),
                tris_ref_valid_verts(self.tList@, self.vList@.len() as int),
                tris_ref_valid_materials(self.tList@, self.mList@.len() as int),
            decreases n - k,
        {
            let t = self.tList[k];
            proof {
                lemma_filter_push(
                    self.tList@.subrange(0, k as int),
                    |tt: Tri| tt.part == partIndex as int,
                    self.tList@[k as int],
                );
                assert(self.tList@.subrange(0, k as int).push(self.tList@[k as int])
                    =~= self.tList@.subrange(0, k as int + 1));
                if t.part == partIndex {
                    assert(self.tList@.subrange(0, k as int).filter(
                        |tt: Tri| tt.part == partIndex as int,
                    ).push(t).map_values(|tt: Tri| Tri { part: 0usize, ..tt })
                        =~= one_part_tris(
                        self.tList@.subrange(0, k as int),
                        partIndex as int,
                    ).push(Tri { part: 0usize, ..t }));
                }
            }
            if t.part == partIndex {
                let mut nt = t;
                nt.part = 0;
                dst.tList.push(nt);
            }
            k = k + 1;
        }
        proof {
            assert(self.tList@.subrange(0, n as int) =~= self.tList@);
            self.tList@.lemma_filter_len(|tt: Tri| tt.part == partIndex as int);
        }
        let ghost pt = dst.tList@;
        // Copy each referenced material on its first reference, and
        // remap the faces' material indices in the same scan
        let mlen = self.mList.len();
        let mut marks: Vec<i64> = vec![-1i64; mlen];
        let pn = dst.tList.len();
        let mut k2: usize = 0;
        while k2 < pn
            invariant
                pn == dst.tList@.len(),
                pn == pt.len(),
                pn <= self.tList@.len(),
                3 * self.tList@.len() <= usize::MAX,
                k2 <= pn,
                mlen == self.mList@.len(),
                mlen < 0x8000_0000_0000_0000,
                marks@.len() == mlen,
                dst.vList@ == self.vList@,
                dst.pList@.len() == 1,
                dst.pList@[0] == self.pList@[partIndex as int],
                tris_ref_valid_verts(pt, dst.vList@.len() as int),
                tris_ref_valid_materials(pt, mlen as int),
                forall|j: int| 0 <= j < mlen ==> #[trigger] marks@[j] == if mat_first_rank(
                    pt,
                    j,
                    k2 as int,
                ) >= 0 {
                    mat_first_rank(pt, j, k2 as int) as i64
                } else {
                    -1i64
                },
                dst.mList@.len() == mat_first_count(pt, k2 as int),
                forall|j: int| 0 <= j < mlen && #[trigger] mat_first_rank(pt, j, k2 as int)
                    >= 0 ==> mat_first_rank(pt, j, k2 as int) < dst.mList@.len()
                    && dst.mList@[mat_first_rank(pt, j, k2 as int)] == (Material {
                    diffuseTextureName: self.mList@[j].diffuseTextureName,
                    mark: mat_first_rank(pt, j, k2 as int) as i64,
                }),
                forall|kk: int| k2 <= kk < pn ==> #[trigger] dst.tList@[kk] == pt[kk],
                forall|kk: int| 0 <= kk < k2 ==> #[trigger] mat_tri_remapped(
                    dst.tList@[kk],
                    pt[kk],
                    pt,
                    k2 as int,
                ),
            decreases pn - k2,
        {
            let ghost tl0 = dst.tList@;
            let mut t = dst.tList[k2];
            proof {
                assert(t == pt[k2 as int]);
                lemma_mat_first_bounds(pt, t.material as int, k2 as int);
            }
            let mi = t.material;
            let mk = marks[mi];
            if mk < 0 {
                let r = dst.mList.len();
                marks[mi] = r as i64;
                let name = self.mList[mi].diffuseTextureName.clone();
                dst.mList.push(Material { diffuseTextureName: name, mark: r as i64 });
                t.material = r;
            } else {
                t.material = mk as usize;
            }
            dst.tList[k2] = t;
            k2 = k2 + 1;
            proof {
                assert(mat_first_rank(pt, mi as int, k2 as int) >= 0);
                assert(t.material == mat_first_rank(pt, mi as int, k2 as int));
                assert forall|j: int| 0 <= j < mlen implies #[trigger] marks@[j] == if
                    mat_first_rank(pt, j, k2 as int) >= 0 {
                    mat_first_rank(pt, j, k2 as int) as i64
                } else {
                    -1i64
                } by {
                    if j != mi as int {
                        assert(mat_first_rank(pt, j, k2 as int) == mat_first_rank(
                            pt,
                            j,
                            k2 as int - 1,
                        ));
                    }
                }
                assert forall|j: int| 0 <= j < mlen && #[trigger] mat_first_rank(
                    pt,
                    j,
                    k2 as int,
                ) >= 0 implies mat_first_rank(pt, j, k2 as int) < dst.mList@.len()
                    && dst.mList@[mat_first_rank(pt, j, k2 as int)] == (Material {
                    diffuseTextureName: self.mList@[j].diffuseTextureName,
                    mark: mat_first_rank(pt, j, k2 as int) as i64,
                }) by {
                    if j != mi as int {
                        assert(mat_first_rank(pt, j, k2 as int) == mat_first_rank(
                            pt,
                            j,
                            k2 as int - 1,
                        ));
                    }
                }
                assert forall|kk: int| 0 <= kk < k2 implies #[trigger] mat_tri_remapped(
                    dst.tList@[kk],
                    pt[kk],
                    pt,
                    k2 as int,
                ) by {
                    if kk < k2 - 1 {
                        assert(dst.tList@[kk] == tl0[kk]);
                        assert(mat_tri_remapped(tl0[kk], pt[kk], pt, k2 as int - 1));
                        lemma_mat_first_stable(pt, pt[kk].material as int, k2 as int - 1,
                            k2 as int);
                    } else {
                        assert(dst.tList@[kk] == t);
                        assert(pt[kk].material == mi);
                    }
                }
            }
        }
        let ghost ct = dst.tList@;
        proof {
            assert forall|kk: int| 0 <= kk < pt.len() implies ct[kk] == mat_remapped_tris(
                pt,
            )[kk] by {
                assert(mat_tri_remapped(ct[kk], pt[kk], pt, pn as int));
            }
            assert(ct =~= mat_remapped_tris(pt));
            assert(tris_ref_valid_verts(ct, dst.vList@.len() as int));
            lemma_corners_valid(ct, dst.vList@.len() as int);
            lemma_first_use_count_le(ct, 3 * ct.len() as int, dst.vList@.len() as int);
        }
        dst.optimizeVertexOrder(true);
        proof {
            lemma_remapped_tris_valid(ct, dst.tList@, dst.vList@.len() as int);
            assert forall|kk: int| 0 <= kk < ct.len() implies #[trigger] dst.tList@[kk]
                == compacted_tris_fn(ct)[kk] by {
                assert(vo_tri_remapped(dst.tList@[kk], ct[kk], ct, 3 * ct.len() as int));
            }
            assert(dst.tList@ =~= compacted_tris_fn(ct));
        }
        dst
    }


    /// Copy the authoritative per-corner texture coordinates up into
    /// the vertices, splitting a vertex whenever two corners that share
    /// it disagree: a corner first claims its own vertex, otherwise it
    /// is redirected to another vertex at the same position and normal
    /// whose coordinates fit (or are still unclaimed), and only when no
    /// such vertex exists anywhere is a fresh copy appended. Afterwards
    /// every corner points at a vertex carrying exactly that corner's
    /// coordinates and the original corner vertex's geometry.
    pub fn copyUvsIntoVertices(&mut self)
        requires
            tris_ref_valid_verts(old(self).tList@, old(self).vList@.len() as int),
            old(self).vList@.len() + 3 * old(self).tList@.len() <= usize::MAX,
        ensures
            final(self).mList == old(self).mList,
            final(self).pList == old(self).pList,
            final(self).tList@.len() == old(self).tList@.len(),
            forall|k: int| 0 <= k < old(self).tList@.len() ==> {
                let t1 = #[trigger] final(self).tList@[k];
                let t0 = old(self).tList@[k];
                &&& t1.v.0 == (Vert { index: t1.v.0.index, ..t0.v.0 })
                &&& t1.v.1 == (Vert { index: t1.v.1.index, ..t0.v.1 })
                &&& t1.v.2 == (Vert { index: t1.v.2.index, ..t0.v.2 })
                &&& t1.normal == t0.normal
                &&& t1.part == t0.part
                &&& t1.material == t0.material
                &&& t1.mark == t0.mark
            },
            final(self).vList@ == uv_state(
                zero_marked(old(self).vList@),
                old(self).tList@,
                3 * old(self).tList@.len() as int,
            ).0,
            final(self).tList@ == uv_state(
                zero_marked(old(self).vList@),
                old(self).tList@,
                3 * old(self).tList@.len() as int,
            ).1,
            final(self).vList@.len() >= old(self).vList@.len(),
            final(self).vList@.len() <= old(self).vList@.len() + 3 * old(self).tList@.len(),
            forall|i: int| 0 <= i < old(self).vList@.len() ==> {
                &&& (#[trigger] final(self).vList@[i]).p == old(self).vList@[i].p
                &&& final(self).vList@[i].normal == old(self).vList@[i].normal
            },
            forall|k: int, j: int| 0 <= k < old(self).tList@.len() && 0 <= j < 3
                ==> #[trigger] corner_settled(
                final(self).vList@,
                old(self).vList@,
                final(self).tList@[k],
                old(self).tList@[k],
                j,
            ),
    {
        self.markAllVertices(0);
        let ghost vs0 = old(self).vList@;
        let ghost ts0 = old(self).tList@;
        let ghost zs = zero_marked(old(self).vList@);
        proof {
            assert(self.vList@ =~= zs);
            assert(tris_ref_valid_verts(ts0, zs.len() as int));
        }
        let n = self.tList.len();
        let vl0 = self.vList.len();
        let mut k: usize = 0;
        while k < n
            invariant
                n == self.tList@.len(),
                n == ts0.len(),
                vl0 == vs0.len(),
                k <= n,
                self.mList == old(self).mList,
                self.pList == old(self).pList,
                tris_ref_valid_verts(ts0, vl0 as int),
                vs0.len() + 3 * ts0.len() <= usize::MAX,
                zs == zero_marked(vs0),
                self.vList@ == uv_state(zs, ts0, 3 * k as int).0,
                self.tList@ == uv_state(zs, ts0, 3 * k as int).1,
                vl0 <= self.vList@.len(),
                self.vList@.len() <= vl0 + 3 * k,
                forall|i: int| 0 <= i < vl0 ==> {
                    &&& (#[trigger] self.vList@[i]).p == vs0[i].p
                    &&& self.vList@[i].normal == vs0[i].normal
                },
                forall|i: int| 0 <= i < self.vList@.len() ==> (#[trigger] self.vList@[i]).mark
                    == 0 || self.vList@[i].mark == 1,
                forall|kk: int| k <= kk < n ==> #[trigger] self.tList@[kk] == ts0[kk],
                forall|kk: int| 0 <= kk < k ==> {
                    let t1 = #[trigger] self.tList@[kk];
                    let t0 = ts0[kk];
                    &&& t1.v.0 == (Vert { index: t1.v.0.index, ..t0.v.0 })
                    &&& t1.v.1 == (Vert { index: t1.v.1.index, ..t0.v.1 })
                    &&& t1.v.2 == (Vert { index: t1.v.2.index, ..t0.v.2 })
                    &&& t1.normal == t0.normal
                    &&& t1.part == t0.part
                    &&& t1.material == t0.material
                    &&& t1.mark == t0.mark
                },
                forall|kk: int, j: int| 0 <= kk < k && 0 <= j < 3 ==> #[trigger] corner_settled(
                    self.vList@,
                    vs0,
                    self.tList@[kk],
                    ts0[kk],
                    j,
                ),
            decreases n - k,
        {
            let ghost va = self.vList@;
            let ghost tl0 = self.tList@;
            let mut t = self.tList[k];
            proof {
                assert((3 * k as int) / 3 == k as int && (3 * k as int) % 3 == 0
                    && (3 * k as int + 1) / 3 == k as int && (3 * k as int + 1) % 3 == 1
                    && (3 * k as int + 2) / 3 == k as int && (3 * k as int + 2) % 3 == 2)
                    by (nonlinear_arith);
                lemma_uv_state_shape(zs, ts0, 3 * k as int);
                assert(t == ts0[k as int]);
            }
            let ni0 = uv_process_corner(&mut self.vList, t.v.0.index, t.v.0.u, t.v.0.v,
                Ghost(vs0));
            proof {
                assert(self.vList@ == uv_state(zs, ts0, 3 * k as int + 1).0);
                assert(uv_state(zs, ts0, 3 * k as int + 1).1[k as int] == with_corner_index(
                    ts0[k as int],
                    0,
                    ni0 as int,
                ));
            }
            t.v.0.index = ni0;
            let ghost vb = self.vList@;
            let ni1 = uv_process_corner(&mut self.vList, t.v.1.index, t.v.1.u, t.v.1.v,
                Ghost(vs0));
            proof {
                assert(self.vList@ == uv_state(zs, ts0, 3 * k as int + 2).0);
                assert(uv_state(zs, ts0, 3 * k as int + 2).1[k as int] == with_corner_index(
                    with_corner_index(ts0[k as int], 0, ni0 as int),
                    1,
                    ni1 as int,
                ));
            }
            t.v.1.index = ni1;
            let ghost vc = self.vList@;
            let ni2 = uv_process_corner(&mut self.vList, t.v.2.index, t.v.2.u, t.v.2.v,
                Ghost(vs0));
            proof {
                assert(3 * (k + 1) as int == 3 * k as int + 2 + 1);
                assert(self.vList@ == uv_state(zs, ts0, 3 * (k + 1) as int).0);
            }
            t.v.2.index = ni2;
            self.tList[k] = t;
            proof {
                assert(t == with_corner_index(
                    with_corner_index(
                        with_corner_index(ts0[k as int], 0, ni0 as int),
                        1,
                        ni1 as int,
                    ),
                    2,
                    ni2 as int,
                ));
                assert(self.tList@ =~= uv_state(zs, ts0, 3 * (k + 1) as int).1);
            }
            proof {
                assert forall|kk: int, j: int| 0 <= kk < k + 1 && 0 <= j < 3 implies
                    #[trigger] corner_settled(self.vList@, vs0, self.tList@[kk], ts0[kk], j) by {
                    if kk < k {
                        assert(corner_settled(va, vs0, tl0[kk], ts0[kk], j));
                        assert(self.tList@[kk] == tl0[kk]);
                        let w = vert_at(tl0[kk], j);
                        assert(va[w.index as int].mark == 1);
                        assert(vb[w.index as int] == va[w.index as int]);
                        assert(vc[w.index as int] == vb[w.index as int]);
                        assert(self.vList@[w.index as int] == vc[w.index as int]);
                    } else {
                        assert(vb[ni0 as int].mark == 1);
                        assert(vc[ni0 as int] == vb[ni0 as int]);
                        assert(self.vList@[ni0 as int] == vc[ni0 as int]);
                        assert(vc[ni1 as int].mark == 1);
                        assert(self.vList@[ni1 as int] == vc[ni1 as int]);
                        if j == 0 {
                            assert(corner_settled(self.vList@, vs0, t, ts0[kk], 0));
                        } else if j == 1 {
                            assert(corner_settled(self.vList@, vs0, t, ts0[kk], 1));
                        } else {
                            assert(corner_settled(self.vList@, vs0, t, ts0[kk], 2));
                        }
                    }
                }
            }
            k = k + 1;
        }
    }


    /// Run the optimizations that prepare the mesh for rendering with
    /// proper lighting: recompute the vertex-level normals.
    pub fn optimizeForRendering(&mut self)
        requires
            tris_ref_valid_verts(old(self).tList@, old(self).vList@.len() as int),
            vertex_positions_bounded(old(self).vList@),
            old(self).tList@.len() <= 1_000_000_000_000,
        ensures
            final(self).mList == old(self).mList,
            final(self).pList == old(self).pList,
            final(self).tList@.len() == old(self).tList@.len(),
            forall|k: int| 0 <= k < old(self).tList@.len() ==> #[trigger] final(self).tList@[k]
                == tri_with_normal(old(self).vList@, old(self).tList@[k]),
            final(self).vList@.len() == old(self).vList@.len(),
            forall|i: int| 0 <= i < old(self).vList@.len() ==> #[trigger] final(self).vList@[i]
                == (Vertex {
                normal: crate::vector3::spec_normalize(
                    sum_vector(
                        vertex_normal_sum(
                            final(self).tList@,
                            i,
                            3 * old(self).tList@.len() as int,
                        ),
                    ),
                ),
                ..old(self).vList@[i]
            }),
    {
        self.computeVertexNormals();
    }

    /// Remove one triangle from the triangle list. No index of any
    /// other entity refers to triangles, so nothing is renumbered.
    pub fn deleteTri(&mut self, triIndex: usize)
        requires
            triIndex < old(self).tList@.len(),
        ensures
            final(self).tList@ == old(self).tList@.remove(triIndex as int),
            final(self).vList == old(self).vList,
            final(self).mList == old(self).mList,
            final(self).pList == old(self).pList,
    {
        self.tList.remove(triIndex);
    }

    /// Remove every triangle whose scratch mark equals `mark`,
    /// compacting the survivors forward in order.
    pub fn deleteMarkedTris(&mut self, mark: i64)
        ensures
            final(self).tList@ == old(self).tList@.filter(|t: Tri| t.mark != mark),
            final(self).vList == old(self).vList,
            final(self).mList == old(self).mList,
            final(self).pList == old(self).pList,
    {
        let n = self.tList.len();
        let mut kept: Vec<Tri> = Vec::new();
        let mut i: usize = 0;
        while i < n
            invariant
                n == self.tList@.len(),
                i <= n,
                self.tList == old(self).tList,
                self.vList == old(self).vList,
                self.mList == old(self).mList,
                self.pList == old(self).pList,
                kept@ == self.tList@.subrange(0, i as int).filter(|t: Tri| t.mark != mark),
            decreases n - i,
        {
            let t = self.tList[i];
            proof {
                lemma_filter_push(
                    self.tList@.subrange(0, i as int),
                    |tt: Tri| tt.mark != mark,
                    t,
                );
                assert(self.tList@.subrange(0, i as int).push(t)
                    =~= self.tList@.subrange(0, i as int + 1));
            }
            if t.mark != mark {
                kept.push(t);
            }
            i = i + 1;
        }
        proof {
            assert(self.tList@.subrange(0, n as int) =~= self.tList@);
        }
        self.tList = kept;
    }

    /// Remove every triangle two of whose corners share a vertex index.
    pub fn deleteDegenerateTris(&mut self)
        ensures
            final(self).tList@ == old(self).tList@.filter(|t: Tri| !spec_is_degenerate(t)),
            final(self).vList == old(self).vList,
            final(self).mList == old(self).mList,
            final(self).pList == old(self).pList,
    {
        let n = self.tList.len();
        let mut kept: Vec<Tri> = Vec::new();
        let mut i: usize = 0;
        while i < n
            invariant
                n == self.tList@.len(),
                i <= n,
                self.tList == old(self).tList,
                self.vList == old(self).vList,
                self.mList == old(self).mList,
                self.pList == old(self).pList,
                kept@ == self.tList@.subrange(0, i as int).filter(
                    |t: Tri| !spec_is_degenerate(t),
                ),
            decreases n - i,
        {
            let t = self.tList[i];
            proof {
                lemma_filter_push(
                    self.tList@.subrange(0, i as int),
                    |tt: Tri| !spec_is_degenerate(tt),
                    t,
                );
                assert(self.tList@.subrange(0, i as int).push(t)
                    =~= self.tList@.subrange(0, i as int + 1));
            }
            if !t.isDegenerate() {
                kept.push(t);
            }
            i = i + 1;
        }
        proof {
            assert(self.tList@.subrange(0, n as int) =~= self.tList@);
        }
        self.tList = kept;
    }
}


/// Marking a whole sequence and then dropping the marked elements is
/// the same as filtering first and then repairing the survivors, as
/// long as marking flags exactly the elements the filter drops and
/// agrees with the repair on the elements it keeps.
pub proof fn lemma_filter_map_exchange<T>(
    s: Seq<T>,
    phase1: spec_fn(T) -> T,
    keep1: spec_fn(T) -> bool,
    pred: spec_fn(T) -> bool,
    fix: spec_fn(T) -> T,
)
    requires
        forall|t: T| #[trigger] keep1(phase1(t)) == pred(t),
        forall|t: T| pred(t) ==> #[trigger] phase1(t) == fix(t),
    ensures
        s.map_values(phase1).filter(keep1) == s.filter(pred).map_values(fix),
    decreases s.len(),
{
    if s.len() == 0 {
        assert(s.map_values(phase1) =~= Seq::<T>::empty());
        assert(s.filter(pred) =~= Seq::<T>::empty());
        assert(Seq::<T>::empty().filter(keep1) =~= Seq::<T>::empty());
        assert(Seq::<T>::empty().map_values(fix) =~= Seq::<T>::empty());
    } else {
        let s0 = s.drop_last();
        let x = s.last();
        lemma_filter_map_exchange(s0, phase1, keep1, pred, fix);
        assert(s =~= s0.push(x));
        assert(s.map_values(phase1) =~= s0.map_values(phase1).push(phase1(x)));
        lemma_filter_push(s0.map_values(phase1), keep1, phase1(x));
        lemma_filter_push(s0, pred, x);
        if pred(x) {
            assert(s.filter(pred) == s0.filter(pred).push(x));
            assert(s0.filter(pred).push(x).map_values(fix)
                =~= s0.filter(pred).map_values(fix).push(fix(x)));
        }
    }
}


/// The raw cross product that `tri_normal_of` normalizes.
pub open spec fn tri_cross_vector(vs: Seq<Vertex>, t: Tri) -> Vector3 {
    let p1 = vs[t.v.0.index as int].p;
    let p2 = vs[t.v.1.index as int].p;
    let p3 = vs[t.v.2.index as int].p;
    let e1 = Vector3 {
        x: (p3.x - p2.x) as i64,
        y: (p3.y - p2.y) as i64,
        z: (p3.z - p2.z) as i64,
    };
    let e2 = Vector3 {
        x: (p1.x - p3.x) as i64,
        y: (p1.y - p3.y) as i64,
        z: (p1.z - p3.z) as i64,
    };
    Vector3 {
        x: crate::vector3::cross_x(e1, e2) as i64,
        y: crate::vector3::cross_y(e1, e2) as i64,
        z: crate::vector3::cross_z(e1, e2) as i64,
    }
}

/// A vector assembled from a coordinate triple of bounded sums.
pub open spec fn sum_vector(s: (int, int, int)) -> Vector3 {
    Vector3 { x: s.0 as i64, y: s.1 as i64, z: s.2 as i64 }
}

/// Each partial corner sum is bounded by the number of corners folded
/// in, since every face normal coordinate is unit-scale.
pub proof fn lemma_normal_sum_bound(tris: Seq<Tri>, vi: int, c: int)
    requires
        forall|kk: int| 0 <= kk < tris.len() ==> {
            &&& -1_000_000 <= (#[trigger] tris[kk]).normal.x <= 1_000_000
            &&& -1_000_000 <= tris[kk].normal.y <= 1_000_000
            &&& -1_000_000 <= tris[kk].normal.z <= 1_000_000
        },
        0 <= c <= 3 * tris.len(),
    ensures
        -1_000_000 * c <= vertex_normal_sum(tris, vi, c).0 <= 1_000_000 * c,
        -1_000_000 * c <= vertex_normal_sum(tris, vi, c).1 <= 1_000_000 * c,
        -1_000_000 * c <= vertex_normal_sum(tris, vi, c).2 <= 1_000_000 * c,
    decreases c,
{
    if c > 0 {
        lemma_normal_sum_bound(tris, vi, c - 1);
        assert(0 <= (c - 1) / 3 < tris.len()) by (nonlinear_arith)
            requires 1 <= c <= 3 * tris.len();
    }
}

/// One corner's accumulation step matches the spec-level sum: adding
/// corner `3k + j`'s face normal to exactly the vertex it refers to.
pub proof fn lemma_normal_sum_step(
    tris: Seq<Tri>,
    k: int,
    j: int,
    vs: Seq<Vertex>,
    vs0: Seq<Vertex>,
    vn: int,
)
    requires
        0 <= k < tris.len(),
        0 <= j < 3,
        vs.len() == vn,
        vs0.len() == vn,
        vert_at(tris[k], j).index < vn,
        forall|i: int| 0 <= i < vn && i != vert_at(tris[k], j).index ==> #[trigger] vs[i]
            == (Vertex { normal: sum_vector(vertex_normal_sum(tris, i, 3 * k + j)), ..vs0[i] }),
        ({
            let vi = vert_at(tris[k], j).index as int;
            let s = vertex_normal_sum(tris, vi, 3 * k + j);
            vs[vi] == (Vertex {
                normal: Vector3 {
                    x: (s.0 + tris[k].normal.x) as i64,
                    y: (s.1 + tris[k].normal.y) as i64,
                    z: (s.2 + tris[k].normal.z) as i64,
                },
                ..vs0[vi]
            })
        }),
        -4_000_000_000_000_000_000 <= vertex_normal_sum(
            tris,
            vert_at(tris[k], j).index as int,
            3 * k + j,
        ).0 + tris[k].normal.x <= 4_000_000_000_000_000_000,
        -4_000_000_000_000_000_000 <= vertex_normal_sum(
            tris,
            vert_at(tris[k], j).index as int,
            3 * k + j,
        ).1 + tris[k].normal.y <= 4_000_000_000_000_000_000,
        -4_000_000_000_000_000_000 <= vertex_normal_sum(
            tris,
            vert_at(tris[k], j).index as int,
            3 * k + j,
        ).2 + tris[k].normal.z <= 4_000_000_000_000_000_000,
    ensures
        forall|i: int| 0 <= i < vn ==> #[trigger] vs[i] == (Vertex {
            normal: sum_vector(vertex_normal_sum(tris, i, 3 * k + j + 1)),
            ..vs0[i]
        }),
{
    assert forall|i: int| 0 <= i < vn implies #[trigger] vs[i] == (Vertex {
        normal: sum_vector(vertex_normal_sum(tris, i, 3 * k + j + 1)),
        ..vs0[i]
    }) by {
        let c = 3 * k + j + 1;
        assert((c - 1) / 3 == k && (c - 1) % 3 == j) by (nonlinear_arith)
            requires c == 3 * k + j + 1, 0 <= j < 3;
        if i == vert_at(tris[k], j).index as int {
        } else {
            assert(vertex_normal_sum(tris, i, c) == vertex_normal_sum(tris, i, c - 1));
        }
    }
}


/// One corner of the vertex-reordering scan: claim the next slot for a
/// vertex seen for the first time, and report the corner's new index
/// with the updated count of used vertices.
fn vo_process_corner(
    vlist: &mut Vec<Vertex>,
    vi: usize,
    used: usize,
    Ghost(tris0): Ghost<Seq<Tri>>,
    Ghost(c): Ghost<int>,
    Ghost(vs0): Ghost<Seq<Vertex>>,
) -> (r: (usize, usize))
    requires
        old(vlist)@.len() == vs0.len(),
        vs0.len() < 0x8000_0000_0000_0000,
        0 <= c < 3 * tris0.len(),
        corner_index(tris0, c) == vi,
        vi < vs0.len(),
        forall|cc: int| 0 <= cc < 3 * tris0.len() ==> 0 <= #[trigger] corner_index(tris0, cc)
            < vs0.len(),
        used == first_use_count(tris0, c),
        forall|w: int| 0 <= w < vs0.len() ==> #[trigger] old(vlist)@[w] == (Vertex {
            mark: vo_mark(tris0, w, c, vs0.len() as int),
            ..vs0[w]
        }),
    ensures
        final(vlist)@.len() == vs0.len(),
        forall|w: int| 0 <= w < vs0.len() ==> #[trigger] final(vlist)@[w] == (Vertex {
            mark: vo_mark(tris0, w, c + 1, vs0.len() as int),
            ..vs0[w]
        }),
        r.0 == first_use_rank(tris0, vi as int, c + 1),
        r.1 == first_use_count(tris0, c + 1),
        r.1 <= first_use_count(tris0, 3 * tris0.len() as int),
{
    let vl = vlist.len();
    proof {
        lemma_first_use_count_le(tris0, c, vl as int);
        lemma_first_use_bounds(tris0, vi as int, c);
    }
    let mut vx = vlist[vi];
    let mut new_used = used;
    if vx.mark == vl as i64 {
        proof {
            assert(first_use_rank(tris0, vi as int, c) == -1);
        }
        vx.mark = used as i64;
        vlist[vi] = vx;
        proof {
            lemma_rank_below_skip(
                |w: int| first_use_rank(tris0, w, c) >= 0,
                vi as int,
                vs0.len() as int,
            );
            assert(used < vs0.len());
        }
        new_used = used + 1;
    } else {
        proof {
            assert(first_use_rank(tris0, vi as int, c) >= 0);
        }
    }
    proof {
        assert forall|w: int| 0 <= w < vs0.len() implies #[trigger] vlist@[w] == (Vertex {
            mark: vo_mark(tris0, w, c + 1, vs0.len() as int),
            ..vs0[w]
        }) by {
            if w != vi as int {
                assert(first_use_rank(tris0, w, c + 1) == first_use_rank(tris0, w, c));
            }
        }
        lemma_first_use_stable(tris0, vi as int, c + 1, 3 * tris0.len() as int);
        lemma_first_use_bounds(tris0, vi as int, 3 * tris0.len() as int);
        lemma_monotone_count(tris0, c + 1, 3 * tris0.len() as int);
        lemma_first_use_count_le(tris0, c + 1, vl as int);
    }
    let m = vlist[vi].mark;
    (m as usize, new_used)
}

/// The used-vertex count never shrinks as more corners are scanned.
pub proof fn lemma_monotone_count(tris: Seq<Tri>, c1: int, c2: int)
    requires
        0 <= c1 <= c2,
    ensures
        first_use_count(tris, c1) <= first_use_count(tris, c2),
    decreases c2 - c1,
{
    if c1 < c2 {
        lemma_monotone_count(tris, c1, c2 - 1);
        lemma_first_use_bounds(tris, 0, c2 - 1);
    }
}


/// Build the used block of the reordered vertex list: each ranked
/// vertex placed at its rank.
#[verifier::rlimit(100)]
fn vo_build_used(
    vlist: &Vec<Vertex>,
    used: usize,
    Ghost(tris0): Ghost<Seq<Tri>>,
    Ghost(vs0): Ghost<Seq<Vertex>>,
) -> (out: Vec<Vertex>)
    requires
        vlist@.len() == vs0.len(),
        vs0.len() < 0x8000_0000_0000_0000,
        tris_ref_valid_verts(tris0, vs0.len() as int),
        used == first_use_count(tris0, 3 * tris0.len() as int),
        forall|w: int| 0 <= w < vs0.len() ==> #[trigger] vlist@[w] == (Vertex {
            mark: vo_mark(tris0, w, 3 * tris0.len() as int, vs0.len() as int),
            ..vs0[w]
        }),
    ensures
        out@.len() == used,
        forall|w: int| 0 <= w < vs0.len() && #[trigger] first_use_rank(
            tris0,
            w,
            3 * tris0.len() as int,
        ) >= 0 ==> out@[first_use_rank(tris0, w, 3 * tris0.len() as int)] == (Vertex {
            mark: first_use_rank(tris0, w, 3 * tris0.len() as int) as i64,
            ..vs0[w]
        }),
{
    let ghost c3 = 3 * tris0.len() as int;
    let vl = vlist.len();
        let mut out: Vec<Vertex> = Vec::new();
        let mut i: usize = 0;
        while i < used
            invariant
                i <= used,
                out@.len() == i,
            decreases used - i,
        {
            out.push(Vertex::default());
            i = i + 1;
        }
        let mut vi: usize = 0;
        while vi < vl
            invariant
                vl == vs0.len(),
                vl == vlist@.len(),
                vl < 0x8000_0000_0000_0000,
                vi <= vl,
                out@.len() == used,
                used == first_use_count(tris0, c3),
                c3 == 3 * tris0.len() as int,
                tris_ref_valid_verts(tris0, vs0.len() as int),
                forall|w: int| 0 <= w < vs0.len() ==> #[trigger] vlist@[w] == (Vertex {
                    mark: vo_mark(tris0, w, c3, vs0.len() as int),
                    ..vs0[w]
                }),
                forall|w: int| 0 <= w < vi && #[trigger] first_use_rank(tris0, w, c3) >= 0
                    ==> out@[first_use_rank(tris0, w, c3)] == (Vertex {
                    mark: first_use_rank(tris0, w, c3) as i64,
                    ..vs0[w]
                }),
            decreases vl - vi,
        {
            let vx = vlist[vi];
            proof {
                lemma_first_use_bounds(tris0, vi as int, c3);
                lemma_corners_valid(tris0, vs0.len() as int);
                lemma_first_use_count_le(tris0, c3, vl as int);
            }
            if vx.mark != vl as i64 {
                proof {
                    assert(first_use_rank(tris0, vi as int, c3) >= 0);
                }
                let ghost r = first_use_rank(tris0, vi as int, c3);
                out[vx.mark as usize] = vx;
                proof {
                    assert forall|w: int| 0 <= w < vi + 1 && #[trigger] first_use_rank(
                        tris0,
                        w,
                        c3,
                    ) >= 0 implies out@[first_use_rank(tris0, w, c3)] == (Vertex {
                        mark: first_use_rank(tris0, w, c3) as i64,
                        ..vs0[w]
                    }) by {
                        if w < vi as int {
                            lemma_first_use_injective(tris0, w, vi as int, c3);
                            lemma_first_use_bounds(tris0, w, c3);
                        }
                    }
                }
            }
            vi = vi + 1;
        }
    out
}


/// Settle one face corner: claim the corner's own vertex if its
/// coordinates are still free or already agree; otherwise redirect the
/// corner to a geometrically identical vertex that is free or agrees,
/// appending a fresh copy only when the whole list holds none.
/// Vertices already claimed by earlier corners are never altered.
fn uv_process_corner(
    vlist: &mut Vec<Vertex>,
    vi: usize,
    cu: i64,
    cv: i64,
    Ghost(vs0): Ghost<Seq<Vertex>>,
) -> (ni: usize)
    requires
        vi < vs0.len(),
        vs0.len() <= old(vlist)@.len(),
        old(vlist)@.len() < usize::MAX,
        forall|i: int| 0 <= i < vs0.len() ==> {
            &&& (#[trigger] old(vlist)@[i]).p == vs0[i].p
            &&& old(vlist)@[i].normal == vs0[i].normal
        },
        forall|i: int| 0 <= i < old(vlist)@.len() ==> (#[trigger] old(vlist)@[i]).mark == 0
            || old(vlist)@[i].mark == 1,
    ensures
        final(vlist)@ == uv_corner_step(old(vlist)@, vi as int, cu, cv).0,
        ni as int == uv_corner_step(old(vlist)@, vi as int, cu, cv).1,
        forall|i: int| 0 <= i < final(vlist)@.len() ==> (#[trigger] final(vlist)@[i]).mark == 0
            || final(vlist)@[i].mark == 1,
        old(vlist)@.len() <= final(vlist)@.len() <= old(vlist)@.len() + 1,
        ni < final(vlist)@.len(),
        final(vlist)@[ni as int].mark == 1,
        final(vlist)@[ni as int].u == cu,
        final(vlist)@[ni as int].v == cv,
        final(vlist)@[ni as int].p == vs0[vi as int].p,
        final(vlist)@[ni as int].normal == vs0[vi as int].normal,
        forall|i: int| 0 <= i < old(vlist)@.len() ==> {
            &&& (#[trigger] final(vlist)@[i]).p == old(vlist)@[i].p
            &&& final(vlist)@[i].normal == old(vlist)@[i].normal
        },
        forall|i: int| 0 <= i < old(vlist)@.len() && old(vlist)@[i].mark == 1
            ==> #[trigger] final(vlist)@[i] == old(vlist)@[i],
        forall|i: int| old(vlist)@.len() <= i < final(vlist)@.len()
            ==> (#[trigger] final(vlist)@[i]).p == vs0[vi as int].p
                && final(vlist)@[i].normal == vs0[vi as int].normal,
{
    let vcount = vlist.len();
    let base = vlist[vi];
    if base.mark == 0 {
        let mut vx = base;
        vx.u = cu;
        vx.v = cv;
        vx.mark = 1;
        vlist[vi] = vx;
        return vi;
    }
    if base.u == cu && base.v == cv {
        return vi;
    }
    // The corner's vertex is claimed with other coordinates: search the
    // whole list for a geometrically matching vertex that fits.
    let mut new_index: usize = 0;
    while new_index < vcount
        invariant
            vcount == vlist@.len(),
            new_index <= vcount,
            *vlist == *old(vlist),
            vi < vs0.len(),
            vs0.len() <= vlist@.len(),
            vlist@.len() < usize::MAX,
            base == vlist@[vi as int],
            base.mark != 0,
            !(base.u == cu && base.v == cv),
            uv_find(vlist@, base, cu, cv, 0) == uv_find(vlist@, base, cu, cv, new_index as int),
            forall|i: int| 0 <= i < vs0.len() ==> {
                &&& (#[trigger] vlist@[i]).p == vs0[i].p
                &&& vlist@[i].normal == vs0[i].normal
            },
            forall|i: int| 0 <= i < vlist@.len() ==> (#[trigger] vlist@[i]).mark == 0
                || vlist@[i].mark == 1,
        decreases vcount - new_index,
    {
        let cand = vlist[new_index];
        if cand.p.eq(&base.p) && cand.normal.eq(&base.normal) {
            if cand.mark == 0 {
                proof {
                    assert(uv_find(vlist@, base, cu, cv, new_index as int)
                        == new_index as int);
                }
                let mut vx = cand;
                vx.mark = 1;
                vx.u = cu;
                vx.v = cv;
                vlist[new_index] = vx;
                return new_index;
            }
            if cand.u == cu && cand.v == cv {
                proof {
                    assert(uv_find(vlist@, base, cu, cv, new_index as int)
                        == new_index as int);
                }
                return new_index;
            }
        }
        proof {
            assert(uv_find(vlist@, base, cu, cv, new_index as int)
                == uv_find(vlist@, base, cu, cv, new_index as int + 1));
        }
        new_index = new_index + 1;
    }
    // No usable vertex anywhere: append a fresh copy with the corner's
    // coordinates.
    proof {
        assert(uv_find(vlist@, base, cu, cv, vcount as int) == -1);
    }
    let mut fresh = base;
    fresh.mark = 1;
    fresh.u = cu;
    fresh.v = cv;
    vlist.push(fresh);
    vlist.len() - 1
}


/// After deleting a vertex, no surviving triangle refers to the removed
/// slot, provided no triangle referred to the vertex just after it
/// (whose index shifts down onto the removed slot).
pub proof fn lemma_delete_vertex_removes_references(tris: Seq<Tri>, i: int)
    requires
        forall|k: int| 0 <= k < tris.len() ==> !tri_uses_vertex(#[trigger] tris[k], i + 1),
    ensures
        tris_after_vertex_delete(tris, i).len() <= tris.len(),
        forall|k: int| 0 <= k < tris_after_vertex_delete(tris, i).len()
            ==> !tri_uses_vertex(#[trigger] tris_after_vertex_delete(tris, i)[k], i),
{
    let pred = |t: Tri| !tri_uses_vertex(t, i);
    let ft = tris.filter(pred);
    ft.lemma_filter_len(pred);
    assert(tris_after_vertex_delete(tris, i).len() == ft.len());
    assert forall|k: int| 0 <= k < tris_after_vertex_delete(tris, i).len() implies
        !tri_uses_vertex(#[trigger] tris_after_vertex_delete(tris, i)[k], i) by {
        tris.lemma_filter_pred(pred, k);
        lemma_filter_elem_from(tris, pred, k);
        let t0 = ft[k];
        let k0 = choose|k0: int| 0 <= k0 < tris.len() && #[trigger] tris[k0] == t0;
        assert(!tri_uses_vertex(tris[k0], i + 1));
        assert(tris_after_vertex_delete(tris, i)[k] == fix_tri_vertex_delete(t0, i));
    }
}

/// After the unused-material compaction, every material slot that
/// remains is referenced by at least one triangle, and every
/// triangle's remapped material index is in range.
pub proof fn lemma_compacted_materials_all_referenced(tris: Seq<Tri>, mlen: int, r: int)
    requires
        0 <= mlen,
        tris_ref_valid_materials(tris, mlen),
        0 <= r < material_rank(tris, mlen),
    ensures
        exists|k: int| 0 <= k < tris.len() && #[trigger] material_rank(
            tris,
            tris[k].material as int,
        ) == r,
        forall|k: int| 0 <= k < tris.len() ==> 0 <= #[trigger] material_rank(
            tris,
            tris[k].material as int,
        ) < material_rank(tris, mlen),
{
    let used = |jj: int| material_used(tris, jj);
    lemma_rank_below_surjective(used, mlen, r);
    let j = choose|j: int| 0 <= j < mlen && #[trigger] used(j) && rank_below(used, j) == r;
    assert(material_used(tris, j));
    let k = choose|k: int| 0 <= k < tris.len() && (#[trigger] tris[k]).material == j;
    assert(material_rank(tris, tris[k].material as int) == r);
    assert forall|k2: int| 0 <= k2 < tris.len() implies 0 <= #[trigger] material_rank(
        tris,
        tris[k2].material as int,
    ) < material_rank(tris, mlen) by {
        assert(material_used(tris, tris[k2].material as int));
        lemma_rank_below_nonneg(used, tris[k2].material as int);
        lemma_rank_below_strict(used, tris[k2].material as int, mlen);
    }
}

/// A fully used range ranks as the identity.
pub proof fn lemma_rank_below_all(p: spec_fn(int) -> bool, n: int)
    requires
        0 <= n,
        forall|w: int| 0 <= w < n ==> #[trigger] p(w),
    ensures
        forall|j: int| 0 <= j <= n ==> #[trigger] rank_below(p, j) == j,
    decreases n,
{
    if n > 0 {
        lemma_rank_below_all(p, n - 1);
        assert(p(n - 1));
        assert(rank_below(p, n) == rank_below(p, n - 1) + 1);
    }
}

/// The unused-material compaction is idempotent: in the compacted mesh
/// every material is used, so compacting again is the identity on
/// material count and on every triangle's material index.
pub proof fn lemma_delete_unused_materials_idempotent(tris: Seq<Tri>, mlen: int)
    requires
        0 <= mlen <= usize::MAX,
        tris_ref_valid_materials(tris, mlen),
    ensures
        ({
            let tris1 = material_compacted_tris(tris);
            let mlen1 = material_rank(tris, mlen);
            &&& material_rank(tris1, mlen1) == mlen1
            &&& forall|k: int| 0 <= k < tris1.len() ==> #[trigger] material_rank(
                tris1,
                tris1[k].material as int,
            ) == tris1[k].material
        }),
{
    let tris1 = material_compacted_tris(tris);
    let mlen1 = material_rank(tris, mlen);
    let used = |jj: int| material_used(tris, jj);
    let used1 = |jj: int| material_used(tris1, jj);
    lemma_rank_below_nonneg(used, mlen);
    assert forall|w: int| 0 <= w < mlen1 implies #[trigger] used1(w) by {
        lemma_compacted_materials_all_referenced(tris, mlen, w);
        let k = choose|k: int| 0 <= k < tris.len() && #[trigger] material_rank(
            tris,
            tris[k].material as int,
        ) == w;
        lemma_rank_below_nonneg(used, tris[k].material as int);
        assert(tris1[k].material == w);
        assert(material_used(tris1, w));
    }
    lemma_rank_below_all(used1, mlen1);
    assert(material_rank(tris1, mlen1) == mlen1);
    assert forall|k: int| 0 <= k < tris1.len() implies #[trigger] material_rank(
        tris1,
        tris1[k].material as int,
    ) == tris1[k].material by {
        let used = |jj: int| material_used(tris, jj);
        assert(material_used(tris, tris[k].material as int));
        lemma_rank_below_nonneg(used, tris[k].material as int);
        lemma_rank_below_strict(used, tris[k].material as int, mlen);
        assert(material_rank(tris, tris[k].material as int) < mlen1);
        assert(rank_below(used1, tris1[k].material as int) == tris1[k].material as int);
    }
}

/// Reordering the vertices preserves the mesh's topology: each face
/// corner still carries the same texture coordinates and points at a
/// vertex with the same position, normal and vertex-level coordinates
/// as before.
pub proof fn lemma_vertex_order_preserves_geometry(
    tris0: Seq<Tri>,
    vs0: Seq<Vertex>,
    tris1: Seq<Tri>,
    vs1: Seq<Vertex>,
    k: int,
    j: int,
)
    requires
        0 <= k < tris0.len(),
        0 <= j < 3,
        3 * tris0.len() <= usize::MAX,
        tris1.len() == tris0.len(),
        tris_ref_valid_verts(tris0, vs0.len() as int),
        vs1.len() == first_use_count(tris0, 3 * tris0.len() as int),
        forall|kk: int| 0 <= kk < tris0.len() ==> #[trigger] vo_tri_remapped(
            tris1[kk],
            tris0[kk],
            tris0,
            3 * tris0.len() as int,
        ),
        forall|vi: int| 0 <= vi < vs0.len() && #[trigger] first_use_rank(
            tris0,
            vi,
            3 * tris0.len() as int,
        ) >= 0 ==> vs1[first_use_rank(tris0, vi, 3 * tris0.len() as int)] == (Vertex {
            mark: first_use_rank(tris0, vi, 3 * tris0.len() as int) as i64,
            ..vs0[vi]
        }),
    ensures
        ({
            let w1 = vert_at(tris1[k], j);
            let w0 = vert_at(tris0[k], j);
            &&& w1.u == w0.u
            &&& w1.v == w0.v
            &&& w1.index < vs1.len()
            &&& vs1[w1.index as int].p == vs0[w0.index as int].p
            &&& vs1[w1.index as int].normal == vs0[w0.index as int].normal
            &&& vs1[w1.index as int].u == vs0[w0.index as int].u
            &&& vs1[w1.index as int].v == vs0[w0.index as int].v
        }),
{
    assert(vo_tri_remapped(tris1[k], tris0[k], tris0, 3 * tris0.len() as int));
    if j == 0 {
        let w0 = tris0[k].v.0;
        let r = first_use_rank(tris0, w0.index as int, 3 * tris0.len() as int);
        assert(r >= 0);
        lemma_first_use_bounds(tris0, w0.index as int, 3 * tris0.len() as int);
        assert(vs1[r] == (Vertex { mark: r as i64, ..vs0[w0.index as int] }));
    } else if j == 1 {
        let w0 = tris0[k].v.1;
        let r = first_use_rank(tris0, w0.index as int, 3 * tris0.len() as int);
        assert(r >= 0);
        lemma_first_use_bounds(tris0, w0.index as int, 3 * tris0.len() as int);
        assert(vs1[r] == (Vertex { mark: r as i64, ..vs0[w0.index as int] }));
    } else {
        let w0 = tris0[k].v.2;
        let r = first_use_rank(tris0, w0.index as int, 3 * tris0.len() as int);
        assert(r >= 0);
        lemma_first_use_bounds(tris0, w0.index as int, 3 * tris0.len() as int);
        assert(vs1[r] == (Vertex { mark: r as i64, ..vs0[w0.index as int] }));
    }
}

/// Triangles whose corners are first-use ranks index into the
/// compacted vertex list.
pub proof fn lemma_remapped_tris_valid(et: Seq<Tri>, dst: Seq<Tri>, used: int)
    requires
        dst.len() == et.len(),
        3 * et.len() <= usize::MAX,
        forall|kk: int| 0 <= kk < et.len() ==> #[trigger] vo_tri_remapped(
            dst[kk],
            et[kk],
            et,
            3 * et.len() as int,
        ),
        used == first_use_count(et, 3 * et.len() as int),
    ensures
        tris_ref_valid_verts(dst, used),
{
    assert forall|k: int| 0 <= k < dst.len() implies {
        &&& (#[trigger] dst[k]).v.0.index < used
        &&& dst[k].v.1.index < used
        &&& dst[k].v.2.index < used
    } by {
        assert(vo_tri_remapped(dst[k], et[k], et, 3 * et.len() as int));
        lemma_first_use_bounds(et, et[k].v.0.index as int, 3 * et.len() as int);
        lemma_first_use_bounds(et, et[k].v.1.index as int, 3 * et.len() as int);
        lemma_first_use_bounds(et, et[k].v.2.index as int, 3 * et.len() as int);
    }
}


/// Comparator ordering two vertices by their scratch marks, for
/// mark-keyed reordering.
pub fn vertexCompareByMark(a: &Vertex, b: &Vertex) -> (r: core::cmp::Ordering)
    ensures
        r is Less <==> a.mark < b.mark,
        r is Greater <==> a.mark > b.mark,
        r is Equal <==> a.mark == b.mark,
{
    if a.mark < b.mark {
        core::cmp::Ordering::Less
    } else if a.mark > b.mark {
        core::cmp::Ordering::Greater
    } else {
        core::cmp::Ordering::Equal
    }
}

/// Comparator ordering two triangles by material index, breaking ties
/// by the scratch mark (the original position, for a stable sort).
pub fn triCompareByMaterial(a: &Tri, b: &Tri) -> (r: core::cmp::Ordering)
    ensures
        r is Less <==> a.material < b.material || (a.material == b.material && a.mark < b.mark),
        r is Greater <==> a.material > b.material || (a.material == b.material
            && a.mark > b.mark),
        r is Equal <==> a.material == b.material && a.mark == b.mark,
{
    if a.material < b.material {
        return core::cmp::Ordering::Less;
    }
    if a.material > b.material {
        return core::cmp::Ordering::Greater;
    }
    if a.mark < b.mark {
        return core::cmp::Ordering::Less;
    }
    if a.mark > b.mark {
        return core::cmp::Ordering::Greater;
    }
    core::cmp::Ordering::Equal
}

/// Every element of a filtered sequence occurs in the original.
pub proof fn lemma_filter_elem_from<T>(s: Seq<T>, pred: spec_fn(T) -> bool, k: int)
    requires
        0 <= k < s.filter(pred).len(),
    ensures
        exists|k0: int| 0 <= k0 < s.len() && #[trigger] s[k0] == s.filter(pred)[k],
    decreases s.len(),
{
    reveal_with_fuel(Seq::filter, 2);
    if s.len() > 0 {
        let s0 = s.drop_last();
        if pred(s.last()) && k == s.filter(pred).len() - 1 {
            assert(s[s.len() - 1] == s.filter(pred)[k]);
        } else {
            lemma_filter_elem_from(s0, pred, k);
            let k0 = choose|k0: int| 0 <= k0 < s0.len() && #[trigger] s0[k0]
                == s0.filter(pred)[k];
            assert(s[k0] == s.filter(pred)[k]);
        }
    }
}

/// Filtering a sequence extended by one element keeps the element
/// exactly when the predicate holds of it.
pub proof fn lemma_filter_push<T>(s: Seq<T>, pred: spec_fn(T) -> bool, x: T)
    ensures
        s.push(x).filter(pred) == if pred(x) {
            s.filter(pred).push(x)
        } else {
            s.filter(pred)
        },
{
    assert(s.push(x).drop_last() =~= s);
    assert(s.push(x).last() == x);
    reveal_with_fuel(Seq::filter, 2);
}

} // verus!
