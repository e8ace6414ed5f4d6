//! The half-edge mesh and its constructive operations.
//!
//! Contracts are stated over the abstract contents of the five entity
//! tables (`Map`s from canonical 64-bit key encodings to records, see
//! `arena`). Handles returned by the operations are always canonical;
//! lookups canonicalise first, so a foreign or corrupted handle is simply
//! not found.

use vstd::prelude::*;
use crate::arena::{
    EdgeMap, FaceMap, HalfEdgeMap, LoopMap, VertexMap, edge_entries, face_entries,
    halfedge_entries, key_norm, loop_entries, vertex_entries,
};
use crate::error::CstError;
use crate::geom::Point3;
use crate::types::{Edge, EdgeId, Face, FaceId, HalfEdge, HalfEdgeId, Loop, LoopId, Vertex,
    VertexId};
use crate::validate::{edges_consistent, face_cycle_ok, faces_closed, lemma_cycle_transfer,
    lemma_edges_depend_on_twins, lemma_make_edge_preserves_edges, lemma_make_edge_preserves_faces,
    lemma_make_edge_preserves_twins, lemma_twins_depend_on_fields, twin_ok_at, twin_symmetry_ok,
    walk_step_ok};

verus! {

/// The largest number of live entries a slot table is allowed to reach
/// here; one below the table's own hard limit.
pub open spec fn arena_cap() -> usize {
    0xFFFF_FFFEusize
}

/// The half-edge boundary-representation mesh: five generation-checked
/// tables, one per entity kind.
pub struct Mesh {
    pub vertices: VertexMap,
    pub halfedges: HalfEdgeMap,
    pub edges: EdgeMap,
    pub loops: LoopMap,
    pub faces: FaceMap,
}

/// Updates `k`'s outgoing half-edge to `he` only when `k` is present and
/// has none yet, as edge creation does.
pub open spec fn upd_outgoing(m: Map<u64, Vertex>, k: u64, he: HalfEdgeId) -> Map<u64, Vertex> {
    if m.dom().contains(k) && m[k].halfedge is None {
        m.insert(k, Vertex { position: m[k].position, halfedge: Some(he) })
    } else {
        m
    }
}

/// Whether the half-edge stored under canonical key `k` of table `hm`
/// runs from `origin` to `target`: its origin is `origin` and its twin is
/// present with origin `target`.
pub open spec fn he_runs(hm: Map<u64, HalfEdge>, k: u64, origin: VertexId, target: VertexId) -> bool {
    &&& hm.dom().contains(k)
    &&& hm[k].origin == origin
    &&& match hm[k].twin {
        Some(t) => hm.dom().contains(key_norm(t.0)) && hm[key_norm(t.0)].origin == target,
        None => false,
    }
}

/// `he_runs` over the half-edge table of `m`.
pub open spec fn he_matches(m: Mesh, k: u64, origin: VertexId, target: VertexId) -> bool {
    he_runs(m.halfedges_view(), k, origin, target)
}

/// The face owning the half-edge named by `h`, if any.
pub open spec fn face_of(m: Mesh, h: HalfEdgeId) -> Option<FaceId> {
    if m.halfedges_view().dom().contains(key_norm(h.0)) {
        m.halfedges_view()[key_norm(h.0)].face
    } else {
        None
    }
}

/// What `halfedge_target` returns: the origin of the twin of the
/// half-edge named by `h`, where both resolve.
pub open spec fn spec_halfedge_target(m: Mesh, h: HalfEdgeId) -> Option<VertexId> {
    if m.halfedges_view().dom().contains(key_norm(h.0)) {
        match m.halfedges_view()[key_norm(h.0)].twin {
            Some(t) => if m.halfedges_view().dom().contains(key_norm(t.0)) {
                Some(m.halfedges_view()[key_norm(t.0)].origin)
            } else {
                None
            },
            None => None,
        }
    } else {
        None
    }
}

/// What `edge_faces` returns: the faces owning the two half-edges of the
/// edge named by `e`, where they resolve.
pub open spec fn spec_edge_faces(m: Mesh, e: EdgeId) -> (Option<FaceId>, Option<FaceId>) {
    if m.edges_view().dom().contains(key_norm(e.0)) {
        let ed = m.edges_view()[key_norm(e.0)];
        (face_of(m, ed.halfedge_a), face_of(m, ed.halfedge_b))
    } else {
        (None, None)
    }
}

/// All handles in `verts` name live vertices of `m`.
pub open spec fn all_vertices_present(m: Mesh, verts: Seq<VertexId>) -> bool {
    forall|i: int| 0 <= i < verts.len() ==> m.has_vertex(#[trigger] verts[i])
}

/// No two entries of `verts` are the same handle.
pub open spec fn distinct_handles(verts: Seq<VertexId>) -> bool {
    forall|i: int, j: int|
        #![trigger verts[i], verts[j]]
        0 <= i < verts.len() && 0 <= j < verts.len() && i != j ==> verts[i] != verts[j]
}

/// The position after `i` in a cyclic walk of length `n`.
pub open spec fn succ_idx(i: int, n: int) -> int {
    if i + 1 == n {
        0
    } else {
        i + 1
    }
}

/// The position before `i` in a cyclic walk of length `n`.
pub open spec fn pred_idx(i: int, n: int) -> int {
    if i == 0 {
        n - 1
    } else {
        i - 1
    }
}

/// A half-edge fit to take position `i` of a face loop under
/// construction: live under a canonical key, leaving `origin`, owned by
/// no face yet.
pub open spec fn face_candidate(m: Mesh, k: u64, origin: VertexId) -> bool {
    &&& k == key_norm(k)
    &&& m.halfedges_view().dom().contains(k)
    &&& m.halfedges_view()[k].origin == origin
    &&& m.halfedges_view()[k].face is None
}

/// The finished linkage of a face built over `verts`: `hs` lists the
/// canonical keys of its half-edges in order; they form the cyclic
/// doubly-linked list headed by the loop record, every one tagged with
/// the face and the loop and leaving the matching vertex.
pub open spec fn face_linked(
    m: Mesh,
    f: FaceId,
    l: LoopId,
    verts: Seq<VertexId>,
    hs: Seq<u64>,
) -> bool {
    &&& hs.len() == verts.len()
    &&& hs.len() >= 3
    &&& m.loops_view().dom().contains(l.0)
    &&& m.loops_view()[l.0] == (Loop { halfedge: HalfEdgeId(hs[0]), face: Some(f) })
    &&& m.faces_view().dom().contains(f.0)
    &&& m.faces_view()[f.0].outer_loop == l
    &&& m.faces_view()[f.0].inner_loops@.len() == 0
    &&& m.faces_view()[f.0].surface_reversed == false
    &&& forall|i: int|
        0 <= i < hs.len() ==> {
            let he = m.halfedges_view()[#[trigger] hs[i]];
            &&& m.halfedges_view().dom().contains(hs[i])
            &&& he.origin == verts[i]
            &&& he.next == Some(HalfEdgeId(hs[succ_idx(i, hs.len() as int)]))
            &&& he.prev == Some(HalfEdgeId(hs[pred_idx(i, hs.len() as int)]))
            &&& he.face == Some(f)
            &&& he.loop_id == Some(l)
        }
}

/// Every stored twin reference of `m` resolves to a live half-edge.
pub open spec fn twins_resolve(m: Mesh) -> bool {
    forall|k: u64|
        #![trigger m.halfedges_view()[k]]
        m.halfedges_view().dom().contains(k) ==> match m.halfedges_view()[k].twin {
            Some(t) => m.halfedges_view().dom().contains(key_norm(t.0)),
            None => true,
        }
}

/// A consecutive vertex pair of a prospective face on which the reuse
/// search cannot fail: every half-edge running `vf -> vt` is free, and
/// every one running `vt -> vf` has a free twin. In particular a pair
/// with no half-edge between its vertices qualifies, and a fresh edge is
/// then made.
pub open spec fn pair_reusable(m: Mesh, vf: VertexId, vt: VertexId) -> bool {
    &&& forall|k: u64|
        m.halfedges_view().dom().contains(k) && #[trigger] he_matches(m, k, vf, vt)
            ==> m.halfedges_view()[k].face is None
    &&& forall|k: u64|
        m.halfedges_view().dom().contains(k) && #[trigger] he_matches(m, k, vt, vf)
            ==> match m.halfedges_view()[k].twin {
                Some(t) => m.halfedges_view()[key_norm(t.0)].face is None,
                None => false,
            }
}

/// `pair_reusable` for every consecutive pair of `verts`, wrapping.
pub open spec fn pairs_reusable(m: Mesh, verts: Seq<VertexId>) -> bool {
    forall|i: int|
        0 <= i < verts.len() ==> #[trigger] pair_reusable(
            m,
            verts[i],
            verts[succ_idx(i, verts.len() as int)],
        )
}

/// Inserting a fresh element into a finite set grows it by one.
proof fn lemma_set_insert_len(s: Set<u64>, a: u64)
    requires
        s.finite(),
        !s.contains(a),
    ensures
        s.insert(a).finite(),
        s.insert(a).len() == s.len() + 1,
{
    vstd::set::axiom_set_insert_len(s, a);
}

/// Inserting two distinct fresh elements into a finite set grows it by two.
proof fn lemma_set_two_inserts_len(s: Set<u64>, a: u64, b: u64)
    requires
        s.finite(),
        !s.contains(a),
        !s.contains(b),
        a != b,
    ensures
        s.insert(a).insert(b).finite(),
        s.insert(a).insert(b).len() == s.len() + 2,
{
    vstd::set::axiom_set_insert_len(s, a);
    vstd::set::axiom_set_insert_len(s.insert(a), b);
}

/// The record of the half-edge at position `j` of a face loop once the
/// linking pass has written it: `next`, `prev`, `face` and `loop_id` are
/// set, the rest is kept.
pub open spec fn linked_at(he: HalfEdge, fh: Seq<HalfEdgeId>, j: int, f: FaceId, l: LoopId) -> HalfEdge {
    HalfEdge {
        origin: he.origin,
        twin: he.twin,
        next: Some(fh[succ_idx(j, fh.len() as int)]),
        prev: Some(fh[pred_idx(j, fh.len() as int)]),
        face: Some(f),
        edge: he.edge,
        loop_id: Some(l),
    }
}

/// Some half-edge of table `h` runs from `vf` to `vt`.
pub open spec fn pair_has_he(h: Map<u64, HalfEdge>, vf: VertexId, vt: VertexId) -> bool {
    exists|k: u64| he_runs(h, k, vf, vt)
}

/// Every half-edge of the cycle `hs` runs to its successor vertex: its
/// twin resolves and leaves the next vertex of the ring.
pub open spec fn cycle_twins_to_successors(m: Mesh, verts: Seq<VertexId>, hs: Seq<u64>) -> bool {
    forall|i: int|
        0 <= i < hs.len() ==> match m.halfedges_view()[#[trigger] hs[i]].twin {
            Some(t) => m.halfedges_view().dom().contains(key_norm(t.0))
                && m.halfedges_view()[key_norm(t.0)].origin == verts[succ_idx(
                i,
                verts.len() as int,
            )],
            None => false,
        }
}

/// Whether `m` holds no half-edge between `vf` and `vt` in either
/// direction, so that a face build must make a fresh edge for the pair.
pub open spec fn pair_fresh(m: Mesh, vf: VertexId, vt: VertexId) -> bool {
    !pair_has_he(m.halfedges_view(), vf, vt) && !pair_has_he(m.halfedges_view(), vt, vf)
}

/// The number of consecutive pairs among the first `i` of `verts`,
/// wrapping, that have no half-edge in `m`.
pub open spec fn count_fresh_pairs(m: Mesh, verts: Seq<VertexId>, i: int) -> int
    decreases i,
{
    if i <= 0 {
        0
    } else {
        count_fresh_pairs(m, verts, i - 1) + if pair_fresh(
            m,
            verts[i - 1],
            verts[succ_idx(i - 1, verts.len() as int)],
        ) {
            1int
        } else {
            0int
        }
    }
}

/// A consecutive pair of a prospective face on which the reuse search
/// must fail: either some half-edge runs along the pair and every such
/// half-edge already has a face, or none runs along it but some runs
/// against it and every one of those has a missing or face-owning twin.
pub open spec fn pair_blocked(m: Mesh, vf: VertexId, vt: VertexId) -> bool {
    ||| (pair_has_he(m.halfedges_view(), vf, vt) && forall|k: u64|
        #[trigger] he_matches(m, k, vf, vt) ==> m.halfedges_view()[k].face is Some)
    ||| (!pair_has_he(m.halfedges_view(), vf, vt) && pair_has_he(m.halfedges_view(), vt, vf)
        && forall|k: u64| #[trigger] he_matches(m, k, vt, vf) ==> match m.halfedges_view()[k].twin {
            Some(t) => m.halfedges_view()[key_norm(t.0)].face is Some,
            None => true,
        })
}

/// What a successful `make_edge` did: two fresh mutually-twinned
/// half-edges under keys `a` and `b`, an edge record referencing both, and
/// each endpoint's outgoing half-edge filled in if it had none.
pub open spec fn make_edge_links(
    pre: Mesh,
    post: Mesh,
    v1: VertexId,
    v2: VertexId,
    e: EdgeId,
    a: u64,
    b: u64,
) -> bool {
    &&& a == key_norm(a)
    &&& b == key_norm(b)
    &&& a != b
    &&& !pre.halfedges_view().dom().contains(a)
    &&& !pre.halfedges_view().dom().contains(b)
    &&& post.halfedges_view() == pre.halfedges_view().insert(
        a,
        (HalfEdge {
            origin: v1,
            twin: Some(HalfEdgeId(b)),
            next: None,
            prev: None,
            face: None,
            edge: Some(e),
            loop_id: None,
        }),
    ).insert(
        b,
        (HalfEdge {
            origin: v2,
            twin: Some(HalfEdgeId(a)),
            next: None,
            prev: None,
            face: None,
            edge: Some(e),
            loop_id: None,
        }),
    )
    &&& post.edges_view() == pre.edges_view().insert(
        e.0,
        (Edge { halfedge_a: HalfEdgeId(a), halfedge_b: HalfEdgeId(b) }),
    )
    &&& post.vertices_view() == upd_outgoing(
        upd_outgoing(pre.vertices_view(), key_norm(v1.0), HalfEdgeId(a)),
        key_norm(v2.0),
        HalfEdgeId(b),
    )
    &&& post.loops_view() == pre.loops_view()
    &&& post.faces_view() == pre.faces_view()
}

/// When every old record is preserved and old twins resolve, a
/// half-edge of the old table matches a pair before exactly when it
/// matches after.
proof fn lemma_match_transfer(pre: Mesh, cur: Mesh, k: u64, vf: VertexId, vt: VertexId)
    requires
        forall|k2: u64| #[trigger]
            pre.halfedges_view().dom().contains(k2) ==> cur.halfedges_view().dom().contains(k2)
                && cur.halfedges_view()[k2] == pre.halfedges_view()[k2],
        twins_resolve(pre),
        pre.halfedges_view().dom().contains(k),
    ensures
        he_matches(pre, k, vf, vt) <==> he_matches(cur, k, vf, vt),
{
    let h0 = pre.halfedges_view();
    let h1 = cur.halfedges_view();
    assert(h1[k] == h0[k]);
    match h0[k].twin {
        Some(t) => {
            assert(h0.dom().contains(key_norm(t.0)));
            assert(h1[key_norm(t.0)] == h0[key_norm(t.0)]);
        },
        None => {},
    }
}

/// Over pairwise distinct vertices, a half-edge that runs along or
/// against one consecutive pair of the ring cannot also run along or
/// against a different one.
proof fn lemma_new_he_other_pair(cur: Mesh, vs: Seq<VertexId>, i: int, j: int, k: u64)
    requires
        3 <= vs.len(),
        distinct_handles(vs),
        0 <= j < vs.len(),
        0 <= i < vs.len(),
        i != j,
        he_runs(cur.halfedges_view(), k, vs[j], vs[succ_idx(j, vs.len() as int)]) || he_runs(
            cur.halfedges_view(),
            k,
            vs[succ_idx(j, vs.len() as int)],
            vs[j],
        ),
    ensures
        !he_runs(cur.halfedges_view(), k, vs[i], vs[succ_idx(i, vs.len() as int)]),
        !he_runs(cur.halfedges_view(), k, vs[succ_idx(i, vs.len() as int)], vs[i]),
{
    let h = cur.halfedges_view();
    let nn = vs.len() as int;
    let ji = succ_idx(j, nn);
    let ii = succ_idx(i, nn);
    assert(0 <= ji < nn);
    assert(0 <= ii < nn);
    if he_runs(h, k, vs[j], vs[ji]) {
        if he_runs(h, k, vs[i], vs[ii]) {
            assert(vs[j] == vs[i]);
            assert(false);
        }
        if he_runs(h, k, vs[ii], vs[i]) {
            assert(vs[j] == vs[ii]);
            assert(j == ii);
            assert(vs[ji] == vs[i]);
            assert(ji == i);
            assert(false);
        }
    } else {
        if he_runs(h, k, vs[i], vs[ii]) {
            assert(vs[ji] == vs[i]);
            assert(ji == i);
            assert(vs[j] == vs[ii]);
            assert(j == ii);
            assert(false);
        }
        if he_runs(h, k, vs[ii], vs[i]) {
            assert(vs[ji] == vs[ii]);
            assert(ji == ii);
            assert(false);
        }
    }
}

impl Mesh {
    /// The abstract contents of the vertex table.
    pub open spec fn vertices_view(self) -> Map<u64, Vertex> {
        vertex_entries(self.vertices)
    }

    /// The abstract contents of the half-edge table.
    pub open spec fn halfedges_view(self) -> Map<u64, HalfEdge> {
        halfedge_entries(self.halfedges)
    }

    /// The abstract contents of the edge table.
    pub open spec fn edges_view(self) -> Map<u64, Edge> {
        edge_entries(self.edges)
    }

    /// The abstract contents of the loop table.
    pub open spec fn loops_view(self) -> Map<u64, Loop> {
        loop_entries(self.loops)
    }

    /// The abstract contents of the face table.
    pub open spec fn faces_view(self) -> Map<u64, Face> {
        face_entries(self.faces)
    }

    /// The tables are finite. Construction establishes this and every
    /// operation preserves it.
    pub open spec fn wf(self) -> bool {
        &&& self.vertices_view().dom().finite()
        &&& self.halfedges_view().dom().finite()
        &&& self.edges_view().dom().finite()
        &&& self.loops_view().dom().finite()
        &&& self.faces_view().dom().finite()
    }

    /// Whether `v` names a live vertex.
    pub open spec fn has_vertex(self, v: VertexId) -> bool {
        self.vertices_view().dom().contains(key_norm(v.0))
    }

    /// An empty mesh.
    pub fn new() -> (r: Mesh)
        ensures
            r.wf(),
            r.vertices_view().dom() == Set::<u64>::empty(),
            r.halfedges_view().dom() == Set::<u64>::empty(),
            r.edges_view().dom() == Set::<u64>::empty(),
            r.loops_view().dom() == Set::<u64>::empty(),
            r.faces_view().dom() == Set::<u64>::empty(),
    {
        Mesh {
            vertices: VertexMap::new(),
            halfedges: HalfEdgeMap::new(),
            edges: EdgeMap::new(),
            loops: LoopMap::new(),
            faces: FaceMap::new(),
        }
    }

    /// The number of live vertices.
    pub fn vertex_count(&self) -> (r: usize)
        ensures
            r == self.vertices_view().dom().len(),
    {
        self.vertices.len()
    }

    /// The number of live half-edges.
    pub fn halfedge_count(&self) -> (r: usize)
        ensures
            r == self.halfedges_view().dom().len(),
    {
        self.halfedges.len()
    }

    /// The number of live edges.
    pub fn edge_count(&self) -> (r: usize)
        ensures
            r == self.edges_view().dom().len(),
    {
        self.edges.len()
    }

    /// The number of live loops.
    pub fn loop_count(&self) -> (r: usize)
        ensures
            r == self.loops_view().dom().len(),
    {
        self.loops.len()
    }

    /// The number of live faces.
    pub fn face_count(&self) -> (r: usize)
        ensures
            r == self.faces_view().dom().len(),
    {
        self.faces.len()
    }

    /// The vertex record named by `v`, if live.
    pub fn vertex(&self, v: VertexId) -> (r: Option<Vertex>)
        ensures
            r == if self.has_vertex(v) {
                Some(self.vertices_view()[key_norm(v.0)])
            } else {
                None::<Vertex>
            },
    {
        self.vertices.get(v.0)
    }

    /// The half-edge record named by `h`, if live.
    pub fn halfedge(&self, h: HalfEdgeId) -> (r: Option<HalfEdge>)
        ensures
            r == if self.halfedges_view().dom().contains(key_norm(h.0)) {
                Some(self.halfedges_view()[key_norm(h.0)])
            } else {
                None::<HalfEdge>
            },
    {
        self.halfedges.get(h.0)
    }

    /// The edge record named by `e`, if live.
    pub fn edge(&self, e: EdgeId) -> (r: Option<Edge>)
        ensures
            r == if self.edges_view().dom().contains(key_norm(e.0)) {
                Some(self.edges_view()[key_norm(e.0)])
            } else {
                None::<Edge>
            },
    {
        self.edges.get(e.0)
    }

    /// The loop record named by `l`, if live.
    pub fn loop_record(&self, l: LoopId) -> (r: Option<Loop>)
        ensures
            r == if self.loops_view().dom().contains(key_norm(l.0)) {
                Some(self.loops_view()[key_norm(l.0)])
            } else {
                None::<Loop>
            },
    {
        self.loops.get(l.0)
    }

    /// The face record named by `f`, if live.
    pub fn face(&self, f: FaceId) -> (r: Option<Face>)
        ensures
            r == if self.faces_view().dom().contains(key_norm(f.0)) {
                Some(self.faces_view()[key_norm(f.0)])
            } else {
                None::<Face>
            },
    {
        self.faces.get(f.0)
    }

    /// Inserts an isolated vertex at `position`; always succeeds.
    pub fn add_vertex(&mut self, position: Point3) -> (r: VertexId)
        requires
            old(self).wf(),
            old(self).vertices_view().dom().len() < arena_cap(),
        ensures
            final(self).wf(),
            r.0 == key_norm(r.0),
            !old(self).vertices_view().dom().contains(r.0),
            final(self).vertices_view() == old(self).vertices_view().insert(
                r.0,
                (Vertex { position, halfedge: None }),
            ),
            final(self).halfedges_view() == old(self).halfedges_view(),
            final(self).edges_view() == old(self).edges_view(),
            final(self).loops_view() == old(self).loops_view(),
            final(self).faces_view() == old(self).faces_view(),
    {
        let k = self.vertices.insert(Vertex { position, halfedge: None });
        VertexId(k)
    }

    /// Creates an edge between two vertices: two mutually-twinned
    /// half-edges and an edge record referencing both. Fails with a
    /// `NotFound` error exactly when either handle names no live vertex,
    /// leaving the mesh unchanged. The structural invariants survive:
    /// twin symmetry (for distinct endpoints), edge consistency and
    /// closed face loops are each preserved.
    pub fn make_edge(&mut self, v1: VertexId, v2: VertexId) -> (r: Result<EdgeId, CstError>)
        requires
            old(self).wf(),
            old(self).halfedges_view().dom().len() + 2 <= arena_cap(),
            old(self).edges_view().dom().len() < arena_cap(),
        ensures
            final(self).wf(),
            final(self).vertices_view().dom() == old(self).vertices_view().dom(),
            r is Ok <==> old(self).has_vertex(v1) && old(self).has_vertex(v2),
            r matches Ok(e) ==> e.0 == key_norm(e.0) && !old(self).edges_view().dom().contains(e.0)
                && make_edge_links(
                    *old(self),
                    *final(self),
                    v1,
                    v2,
                    e,
                    final(self).edges_view()[e.0].halfedge_a.0,
                    final(self).edges_view()[e.0].halfedge_b.0,
                ),
            r matches Err(err) ==> err is NotFound && *final(self) == *old(self),
            r is Ok && v1 != v2 && twin_symmetry_ok(*old(self)) && twins_resolve(*old(self))
                ==> twin_symmetry_ok(*final(self)) && twins_resolve(*final(self)),
            r is Ok && edges_consistent(*old(self)) ==> edges_consistent(*final(self)),
            r is Ok && faces_closed(*old(self)) ==> faces_closed(*final(self)),
    {
        if self.vertices.get(v1.0).is_none() || self.vertices.get(v2.0).is_none() {
            return Err(CstError::NotFound("Vertex not found".to_owned()));
        }

        let a = self.halfedges.insert(
            HalfEdge {
                origin: v1,
                twin: None,
                next: None,
                prev: None,
                face: None,
                edge: None,
                loop_id: None,
            },
        );
        let b = self.halfedges.insert(
            HalfEdge {
                origin: v2,
                twin: Some(HalfEdgeId(a)),
                next: None,
                prev: None,
                face: None,
                edge: None,
                loop_id: None,
            },
        );
        let e = self.edges.insert(Edge { halfedge_a: HalfEdgeId(a), halfedge_b: HalfEdgeId(b) });
        self.halfedges.set(
            a,
            HalfEdge {
                origin: v1,
                twin: Some(HalfEdgeId(b)),
                next: None,
                prev: None,
                face: None,
                edge: Some(EdgeId(e)),
                loop_id: None,
            },
        );
        self.halfedges.set(
            b,
            HalfEdge {
                origin: v2,
                twin: Some(HalfEdgeId(a)),
                next: None,
                prev: None,
                face: None,
                edge: Some(EdgeId(e)),
                loop_id: None,
            },
        );

        let ghost pre_vs = self.vertices_view();
        let va = self.vertices.get(v1.0).unwrap();
        if va.halfedge.is_none() {
            self.vertices.set(v1.0, Vertex { position: va.position, halfedge: Some(HalfEdgeId(a)) });
        }
        proof {
            assert(self.vertices_view() =~= upd_outgoing(pre_vs, key_norm(v1.0), HalfEdgeId(a)));
        }
        let vb = self.vertices.get(v2.0).unwrap();
        if vb.halfedge.is_none() {
            self.vertices.set(v2.0, Vertex { position: vb.position, halfedge: Some(HalfEdgeId(b)) });
        }
        proof {
            assert(self.vertices_view() =~= upd_outgoing(
                upd_outgoing(pre_vs, key_norm(v1.0), HalfEdgeId(a)),
                key_norm(v2.0),
                HalfEdgeId(b),
            ));
            assert(self.halfedges_view() =~= old(self).halfedges_view().insert(
                a,
                (HalfEdge {
                    origin: v1,
                    twin: Some(HalfEdgeId(b)),
                    next: None,
                    prev: None,
                    face: None,
                    edge: Some(EdgeId(e)),
                    loop_id: None,
                }),
            ).insert(
                b,
                (HalfEdge {
                    origin: v2,
                    twin: Some(HalfEdgeId(a)),
                    next: None,
                    prev: None,
                    face: None,
                    edge: Some(EdgeId(e)),
                    loop_id: None,
                }),
            ));
            assert(make_edge_links(*old(self), *self, v1, v2, EdgeId(e), a, b));
            assert(self.edges_view()[e].halfedge_a.0 == a);
            assert(self.edges_view()[e].halfedge_b.0 == b);
            if v1 != v2 && twin_symmetry_ok(*old(self)) && twins_resolve(*old(self)) {
                lemma_make_edge_preserves_twins(*old(self), *self, v1, v2, EdgeId(e), a, b);
            }
            if edges_consistent(*old(self)) {
                lemma_make_edge_preserves_edges(*old(self), *self, v1, v2, EdgeId(e), a, b);
            }
            if faces_closed(*old(self)) {
                lemma_make_edge_preserves_faces(*old(self), *self, v1, v2, EdgeId(e), a, b);
            }
        }
        Ok(EdgeId(e))
    }

    /// Creates a face from an ordered vertex list (counter-clockwise
    /// winding), reusing free half-edges between consecutive vertices in
    /// either direction and allocating fresh edges elsewhere. Fails with
    /// a `Topology` error on fewer than three vertices or when a matched
    /// half-edge already belongs to a face (a non-manifold construction),
    /// and with `NotFound` when a handle names no live vertex; loop and
    /// face records are written only on success, and on failure every
    /// pre-existing half-edge keeps its record.
    ///
    /// Over distinct vertices with resolving twins, success and failure
    /// are each forced: every pair reusable means `Ok`, any pair blocked
    /// means a `Topology` error; on success the edge table grows by
    /// exactly one edge per pair that had no half-edge, and the
    /// half-edge table by two, so shared edges are reused, never
    /// duplicated. The structural invariants survive: no assigned face
    /// is ever overwritten, edge consistency is preserved, and over
    /// distinct vertices so are twin symmetry and closed face loops —
    /// the new face's loop closing too, its half-edges running from
    /// vertex to successor vertex around the ring.
    #[verifier::loop_isolation(false)]
    #[verifier::rlimit(100)]
    pub fn make_face(&mut self, vertices: &[VertexId]) -> (r: Result<FaceId, CstError>)
        requires
            old(self).wf(),
            old(self).halfedges_view().dom().len() + 2 * vertices@.len() <= arena_cap(),
            old(self).edges_view().dom().len() + vertices@.len() <= arena_cap(),
            old(self).loops_view().dom().len() < arena_cap(),
            old(self).faces_view().dom().len() < arena_cap(),
        ensures
            final(self).wf(),
            final(self).vertices_view().dom() == old(self).vertices_view().dom(),
            forall|k: u64| #[trigger]
                old(self).vertices_view().dom().contains(k)
                    ==> final(self).vertices_view()[k].position
                    == old(self).vertices_view()[k].position,
            forall|k: u64| #[trigger]
                old(self).halfedges_view().dom().contains(k)
                    ==> final(self).halfedges_view().dom().contains(k)
                    && final(self).halfedges_view()[k].origin
                    == old(self).halfedges_view()[k].origin
                    && final(self).halfedges_view()[k].twin == old(self).halfedges_view()[k].twin
                    && final(self).halfedges_view()[k].edge == old(self).halfedges_view()[k].edge
                    && (old(self).halfedges_view()[k].face is Some
                    ==> final(self).halfedges_view()[k].face
                    == old(self).halfedges_view()[k].face),
            forall|k: u64| #[trigger]
                old(self).edges_view().dom().contains(k) ==> final(self).edges_view().dom().contains(
                    k,
                ) && final(self).edges_view()[k] == old(self).edges_view()[k],
            vertices@.len() < 3 ==> (r matches Err(e) && e is Topology && *final(self) == *old(
                self,
            )),
            vertices@.len() >= 3 && !all_vertices_present(*old(self), vertices@) ==> (r matches Err(
                e,
            ) && e is NotFound && *final(self) == *old(self)),
            r matches Err(e) ==> (e is Topology || e is NotFound) && final(self).loops_view()
                == old(self).loops_view() && final(self).faces_view() == old(self).faces_view(),
            r is Ok ==> vertices@.len() >= 3 && all_vertices_present(*old(self), vertices@),
            r matches Ok(f) ==> {
                &&& f.0 == key_norm(f.0)
                &&& !old(self).faces_view().dom().contains(f.0)
                &&& final(self).faces_view() == old(self).faces_view().insert(
                    f.0,
                    final(self).faces_view()[f.0],
                )
                &&& !old(self).loops_view().dom().contains(
                    final(self).faces_view()[f.0].outer_loop.0,
                )
                &&& final(self).loops_view() == old(self).loops_view().insert(
                    final(self).faces_view()[f.0].outer_loop.0,
                    final(self).loops_view()[final(self).faces_view()[f.0].outer_loop.0],
                )
                &&& (distinct_handles(vertices@) ==> exists|hs: Seq<u64>|
                    face_linked(
                        *final(self),
                        f,
                        final(self).faces_view()[f.0].outer_loop,
                        vertices@,
                        hs,
                    ))
            },
            vertices@.len() >= 3 && distinct_handles(vertices@) && all_vertices_present(
                *old(self),
                vertices@,
            ) && twins_resolve(*old(self)) && pairs_reusable(*old(self), vertices@) ==> r is Ok,
            r is Ok && distinct_handles(vertices@) && twin_symmetry_ok(*old(self))
                && twins_resolve(*old(self)) ==> twin_symmetry_ok(*final(self)) && twins_resolve(
                *final(self),
            ),
            r is Ok && distinct_handles(vertices@) && faces_closed(*old(self)) ==> faces_closed(
                *final(self),
            ),
            r is Ok && edges_consistent(*old(self)) ==> edges_consistent(*final(self)),
            vertices@.len() >= 3 && distinct_handles(vertices@) && all_vertices_present(
                *old(self),
                vertices@,
            ) && twins_resolve(*old(self)) && (exists|i: int|
                0 <= i < vertices@.len() && pair_blocked(
                    *old(self),
                    vertices@[i],
                    #[trigger] vertices@[succ_idx(i, vertices@.len() as int)],
                )) ==> (r matches Err(e) && e is Topology),
            r is Ok && distinct_handles(vertices@) && twins_resolve(*old(self))
                ==> final(self).edges_view().dom().len() == old(self).edges_view().dom().len()
                + count_fresh_pairs(*old(self), vertices@, vertices@.len() as int)
                && final(self).halfedges_view().dom().len()
                == old(self).halfedges_view().dom().len() + 2 * count_fresh_pairs(
                *old(self),
                vertices@,
                vertices@.len() as int,
            ),
            r is Err ==> forall|k: u64| #[trigger]
                old(self).halfedges_view().dom().contains(k)
                    ==> final(self).halfedges_view().dom().contains(k)
                    && final(self).halfedges_view()[k] == old(self).halfedges_view()[k],
            r matches Ok(f) ==> (distinct_handles(vertices@) && twin_symmetry_ok(*old(self))
                && twins_resolve(*old(self)) ==> exists|hs: Seq<u64>|
                face_linked(
                    *final(self),
                    f,
                    final(self).faces_view()[f.0].outer_loop,
                    vertices@,
                    hs,
                ) && cycle_twins_to_successors(*final(self), vertices@, hs)),
    {
        let n = vertices.len();
        if n < 3 {
            return Err(CstError::Topology("A face requires at least 3 vertices".to_owned()));
        }

        let ghost hl = distinct_handles(vertices@) && twins_resolve(*old(self));
        let ghost h2 = hl && twin_symmetry_ok(*old(self));
        let ghost hb = vertices@.len() >= 3 && distinct_handles(vertices@) && all_vertices_present(
            *old(self),
            vertices@,
        ) && twins_resolve(*old(self));

        let mut i: usize = 0;
        while i < n
            invariant
                0 <= i <= n,
                forall|j: int| 0 <= j < i ==> old(self).has_vertex(#[trigger] vertices@[j]),
            decreases n - i,
        {
            if self.vertices.get(vertices[i].0).is_none() {
                proof {
                    if hb {
                        assert(old(self).has_vertex(vertices@[i as int]));
                        assert(false);
                    }
                }
                return Err(CstError::NotFound("Vertex not found".to_owned()));
            }
            i += 1;
        }
        assert(all_vertices_present(*old(self), vertices@));

        // Collect or create a free half-edge for each consecutive pair.
        let mut face_halfedges: Vec<HalfEdgeId> = Vec::new();
        let mut i: usize = 0;
        while i < n
            invariant
                0 <= i <= n,
                face_halfedges@.len() == i,
                self.wf(),
                self.loops_view() == old(self).loops_view(),
                self.faces_view() == old(self).faces_view(),
                self.vertices_view().dom() == old(self).vertices_view().dom(),
                forall|k: u64| #[trigger]
                    old(self).vertices_view().dom().contains(k)
                        ==> self.vertices_view()[k].position
                        == old(self).vertices_view()[k].position,
                self.halfedges_view().dom().len() <= old(self).halfedges_view().dom().len() + 2
                    * i,
                self.edges_view().dom().len() <= old(self).edges_view().dom().len() + i,
                forall|k: u64| #[trigger]
                    old(self).halfedges_view().dom().contains(k)
                        ==> self.halfedges_view().dom().contains(k) && self.halfedges_view()[k]
                        == old(self).halfedges_view()[k],
                forall|k: u64| #[trigger]
                    old(self).edges_view().dom().contains(k)
                        ==> self.edges_view().dom().contains(k) && self.edges_view()[k] == old(
                        self,
                    ).edges_view()[k],
                forall|k: u64|
                    #![trigger self.halfedges_view()[k]]
                    self.halfedges_view().dom().contains(k) && !old(
                        self,
                    ).halfedges_view().dom().contains(k) ==> self.halfedges_view()[k].face is None
                        && exists|j: int|
                        0 <= j < i && (he_runs(
                            self.halfedges_view(),
                            k,
                            vertices@[j],
                            vertices@[succ_idx(j, n as int)],
                        ) || he_runs(
                            self.halfedges_view(),
                            k,
                            vertices@[succ_idx(j, n as int)],
                            vertices@[j],
                        )),
                forall|j: int|
                    0 <= j < i ==> face_candidate(
                        *self,
                        (#[trigger] face_halfedges@[j]).0,
                        vertices@[j],
                    ),
                distinct_handles(vertices@) && twin_symmetry_ok(*old(self)) && twins_resolve(
                    *old(self),
                ) ==> twin_symmetry_ok(*self) && twins_resolve(*self),
                edges_consistent(*old(self)) ==> edges_consistent(*self),
                hb ==> forall|j: int|
                    0 <= j < i ==> !pair_blocked(
                        *old(self),
                        vertices@[j],
                        #[trigger] vertices@[succ_idx(j, n as int)],
                    ),
                hl ==> self.edges_view().dom().len() == old(self).edges_view().dom().len()
                    + count_fresh_pairs(*old(self), vertices@, i as int)
                    && self.halfedges_view().dom().len()
                    == old(self).halfedges_view().dom().len() + 2 * count_fresh_pairs(
                    *old(self),
                    vertices@,
                    i as int,
                ),
                h2 ==> forall|j: int|
                    0 <= j < i ==> match self.halfedges_view()[(#[trigger] face_halfedges@[j]).0].twin {
                        Some(t) => self.halfedges_view().dom().contains(key_norm(t.0))
                            && self.halfedges_view()[key_norm(t.0)].origin == vertices@[succ_idx(
                            j,
                            n as int,
                        )],
                        None => false,
                    },
            decreases n - i,
        {
            let ghost state_i = *self;
            let v_from = vertices[i];
            let v_to = vertices[if i + 1 == n { 0 } else { i + 1 }];
            proof {
                assert(v_to == vertices@[succ_idx(i as int, n as int)]);
            }

            match self.find_halfedge(v_from, v_to) {
                Some(he_id) => {
                    let he = self.halfedges.get(he_id.0).unwrap();
                    if he.face.is_some() {
                        proof {
                            let pre = *old(self);
                            let vs = vertices@;
                            let ii = i as int;
                            let nn = n as int;
                            if vs.len() >= 3 && distinct_handles(vs) && all_vertices_present(
                                pre,
                                vs,
                            ) && twins_resolve(pre) && pairs_reusable(pre, vs) {
                                let k = he_id.0;
                                assert(self.halfedges_view()[k].face is Some);
                                assert(pre.halfedges_view().dom().contains(k));
                                assert(self.halfedges_view()[k] == pre.halfedges_view()[k]);
                                let t = pre.halfedges_view()[k].twin->0;
                                assert(pre.halfedges_view().dom().contains(key_norm(t.0)));
                                assert(self.halfedges_view()[key_norm(t.0)]
                                    == pre.halfedges_view()[key_norm(t.0)]);
                                assert(he_matches(pre, k, v_from, v_to));
                                assert(pair_reusable(pre, vs[ii], vs[succ_idx(ii, nn)]));
                                assert(pre.halfedges_view()[k].face is None);
                                assert(false);
                            }
                        }
                        return Err(
                            CstError::Topology(
                                "Half-edge already belongs to a face (non-manifold)".to_owned(),
                            ),
                        );
                    }
                    face_halfedges.push(he_id);
                    proof {
                        let pre = *old(self);
                        let vs = vertices@;
                        let ii = i as int;
                        let nn = n as int;
                        let k = he_id.0;
                        if hl {
                            // the found free half-edge predates this call
                            if !pre.halfedges_view().dom().contains(k) {
                                let j = choose|j: int|
                                    0 <= j < ii && (he_runs(
                                        self.halfedges_view(),
                                        k,
                                        vs[j],
                                        vs[succ_idx(j, nn)],
                                    ) || he_runs(
                                        self.halfedges_view(),
                                        k,
                                        vs[succ_idx(j, nn)],
                                        vs[j],
                                    ));
                                lemma_new_he_other_pair(*self, vs, ii, j, k);
                                assert(false);
                            }
                            lemma_match_transfer(pre, *self, k, v_from, v_to);
                            assert(he_matches(pre, k, v_from, v_to));
                            assert(pre.halfedges_view()[k].face is None);
                            assert(!pair_fresh(pre, vs[ii], vs[succ_idx(ii, nn)])) by {
                                assert(pair_has_he(pre.halfedges_view(), v_from, v_to)) by {
                                    assert(he_runs(pre.halfedges_view(), k, v_from, v_to));
                                }
                            }
                            assert(count_fresh_pairs(pre, vs, ii + 1) == count_fresh_pairs(
                                pre,
                                vs,
                                ii,
                            ));
                        }
                        if hb {
                            assert(pair_has_he(pre.halfedges_view(), v_from, v_to)) by {
                                assert(he_runs(pre.halfedges_view(), k, v_from, v_to));
                            }
                            assert(!pair_blocked(pre, vs[ii], vs[succ_idx(ii, nn)]));
                        }
                    }
                },
                None => {
                    match self.find_halfedge(v_to, v_from) {
                        Some(rev_id) => {
                            let rev = self.halfedges.get(rev_id.0).unwrap();
                            match rev.twin {
                                Some(twin_id) => {
                                    let tkey = twin_id.0 | 0x1_0000_0000u64;
                                    proof {
                                        assert(tkey == key_norm(twin_id.0));
                                        assert(tkey | 0x1_0000_0000u64 == tkey) by (bit_vector)
                                            requires
                                                exists|t: u64| tkey == t | 0x1_0000_0000u64,
                                        ;
                                        assert(key_norm(tkey) == tkey);
                                    }
                                    let twin = self.halfedges.get(twin_id.0).unwrap();
                                    if twin.face.is_some() {
                                        proof {
                                            let pre = *old(self);
                                            let vs = vertices@;
                                            let ii = i as int;
                                            let nn = n as int;
                                            if vs.len() >= 3 && distinct_handles(vs)
                                                && all_vertices_present(pre, vs) && twins_resolve(
                                                pre,
                                            ) && pairs_reusable(pre, vs) {
                                                let k = rev_id.0;
                                                let hm = self.halfedges_view();
                                                assert(he_runs(hm, k, v_to, v_from));
                                                if !pre.halfedges_view().dom().contains(k) {
                                                    let j = choose|j: int|
                                                        0 <= j < ii && (he_runs(
                                                            hm,
                                                            k,
                                                            vs[j],
                                                            vs[succ_idx(j, nn)],
                                                        ) || he_runs(
                                                            hm,
                                                            k,
                                                            vs[succ_idx(j, nn)],
                                                            vs[j],
                                                        ));
                                                    assert(0 <= j < ii);
                                                    assert(0 <= succ_idx(j, nn) < nn);
                                                    assert(0 <= succ_idx(ii, nn) < nn);
                                                    if he_runs(hm, k, vs[j], vs[succ_idx(j, nn)]) {
                                                        assert(vs[j] == vs[succ_idx(ii, nn)]);
                                                        assert(j == succ_idx(ii, nn));
                                                        assert(vs[succ_idx(j, nn)] == vs[ii]);
                                                        assert(succ_idx(j, nn) == ii);
                                                        assert(false);
                                                    } else {
                                                        assert(he_runs(
                                                            hm,
                                                            k,
                                                            vs[succ_idx(j, nn)],
                                                            vs[j],
                                                        ));
                                                        assert(vs[succ_idx(j, nn)] == vs[succ_idx(
                                                            ii,
                                                            nn,
                                                        )]);
                                                        assert(succ_idx(j, nn) == succ_idx(
                                                            ii,
                                                            nn,
                                                        ));
                                                        assert(false);
                                                    }
                                                }
                                                assert(hm[k] == pre.halfedges_view()[k]);
                                                let t = pre.halfedges_view()[k].twin->0;
                                                assert(t == twin_id);
                                                assert(pre.halfedges_view().dom().contains(
                                                    key_norm(t.0),
                                                ));
                                                assert(hm[key_norm(t.0)]
                                                    == pre.halfedges_view()[key_norm(t.0)]);
                                                assert(he_matches(pre, k, v_to, v_from));
                                                assert(pair_reusable(
                                                    pre,
                                                    vs[ii],
                                                    vs[succ_idx(ii, nn)],
                                                ));
                                                assert(pre.halfedges_view()[key_norm(
                                                    t.0,
                                                )].face is None);
                                                assert(false);
                                            }
                                        }
                                        return Err(
                                            CstError::Topology(
                                                "Half-edge already belongs to a face (non-manifold)".to_owned(),
                                            ),
                                        );
                                    }
                                    face_halfedges.push(HalfEdgeId(tkey));
                                    proof {
                                        let pre = *old(self);
                                        let vs = vertices@;
                                        let ii = i as int;
                                        let nn = n as int;
                                        let rk = rev_id.0;
                                        if hl {
                                            // the matched half-edge predates this call
                                            if !pre.halfedges_view().dom().contains(rk) {
                                                let j = choose|j: int|
                                                    0 <= j < ii && (he_runs(
                                                        self.halfedges_view(),
                                                        rk,
                                                        vs[j],
                                                        vs[succ_idx(j, nn)],
                                                    ) || he_runs(
                                                        self.halfedges_view(),
                                                        rk,
                                                        vs[succ_idx(j, nn)],
                                                        vs[j],
                                                    ));
                                                lemma_new_he_other_pair(*self, vs, ii, j, rk);
                                                assert(false);
                                            }
                                            lemma_match_transfer(pre, *self, rk, v_to, v_from);
                                            assert(he_matches(pre, rk, v_to, v_from));
                                            assert(pre.halfedges_view()[rk].twin == Some(twin_id));
                                            assert(pre.halfedges_view().dom().contains(tkey));
                                            assert(self.halfedges_view()[tkey]
                                                == pre.halfedges_view()[tkey]);
                                            assert(pre.halfedges_view()[tkey].face is None);
                                            assert(pre.halfedges_view()[tkey].origin == v_from);
                                            assert(!pair_fresh(
                                                pre,
                                                vs[ii],
                                                vs[succ_idx(ii, nn)],
                                            )) by {
                                                assert(pair_has_he(
                                                    pre.halfedges_view(),
                                                    v_to,
                                                    v_from,
                                                )) by {
                                                    assert(he_runs(
                                                        pre.halfedges_view(),
                                                        rk,
                                                        v_to,
                                                        v_from,
                                                    ));
                                                }
                                            }
                                            assert(count_fresh_pairs(pre, vs, ii + 1)
                                                == count_fresh_pairs(pre, vs, ii));
                                            if twin_symmetry_ok(pre) {
                                                assert(twin_ok_at(pre, rk));
                                                assert(pre.halfedges_view()[rk].origin == v_to);
                                            }
                                        }
                                        if hb {
                                            assert forall|k2: u64|
                                                pre.halfedges_view().dom().contains(k2) implies
                                                !he_matches(pre, k2, v_from, v_to) by {
                                                lemma_match_transfer(pre, *self, k2, v_from, v_to);
                                            }
                                            assert(!pair_has_he(
                                                pre.halfedges_view(),
                                                v_from,
                                                v_to,
                                            ));
                                            assert(pair_has_he(
                                                pre.halfedges_view(),
                                                v_to,
                                                v_from,
                                            )) by {
                                                assert(he_runs(
                                                    pre.halfedges_view(),
                                                    rk,
                                                    v_to,
                                                    v_from,
                                                ));
                                            }
                                            assert(!pair_blocked(
                                                pre,
                                                vs[ii],
                                                vs[succ_idx(ii, nn)],
                                            ));
                                        }
                                    }
                                },
                                None => {
                                    proof {
                                        assert(false);
                                    }
                                    return Err(
                                        CstError::Topology(
                                            "Edge exists but twin is missing".to_owned(),
                                        ),
                                    );
                                },
                            }
                        },
                        None => {
                            let e = match self.make_edge(v_from, v_to) {
                                Ok(e) => e,
                                Err(err) => {
                                    proof {
                                        assert(false);
                                    }
                                    return Err(err);
                                },
                            };
                            let ed = self.edges.get(e.0).unwrap();
                            face_halfedges.push(ed.halfedge_a);
                            proof {
                                let a = ed.halfedge_a.0;
                                let b = ed.halfedge_b.0;
                                assert(make_edge_links(state_i, *self, v_from, v_to, e, a, b));
                                assert(self.halfedges_view().dom()
                                    =~= state_i.halfedges_view().dom().insert(a).insert(b));
                                assert(self.edges_view().dom() =~= state_i.edges_view().dom().insert(
                                    e.0,
                                ));
                                lemma_set_two_inserts_len(
                                    state_i.halfedges_view().dom(),
                                    a,
                                    b,
                                );
                                lemma_set_insert_len(state_i.edges_view().dom(), e.0);
                                assert(self.vertices_view().dom() =~= state_i.vertices_view().dom());
                                assert forall|k: u64| #[trigger]
                                    old(self).vertices_view().dom().contains(k) implies
                                    self.vertices_view()[k].position
                                        == old(self).vertices_view()[k].position by {
                                    assert(state_i.vertices_view()[k].position
                                        == old(self).vertices_view()[k].position);
                                }
                                assert(self.halfedges_view()[a].face is None);
                                assert(self.halfedges_view()[b].face is None);
                                {
                                    let pre = *old(self);
                                    let vs = vertices@;
                                    let ii = i as int;
                                    let nn = n as int;
                                    if hl {
                                        // nothing ran between the endpoints before the call
                                        assert forall|k2: u64|
                                            pre.halfedges_view().dom().contains(k2) implies
                                            !he_matches(pre, k2, v_from, v_to) && !he_matches(
                                            pre,
                                            k2,
                                            v_to,
                                            v_from,
                                        ) by {
                                            lemma_match_transfer(pre, state_i, k2, v_from, v_to);
                                            lemma_match_transfer(pre, state_i, k2, v_to, v_from);
                                        }
                                        assert(!pair_has_he(pre.halfedges_view(), v_from, v_to));
                                        assert(!pair_has_he(pre.halfedges_view(), v_to, v_from));
                                        assert(pair_fresh(pre, vs[ii], vs[succ_idx(ii, nn)]));
                                        assert(count_fresh_pairs(pre, vs, ii + 1)
                                            == count_fresh_pairs(pre, vs, ii) + 1);
                                    }
                                    if hb {
                                        assert(!pair_blocked(pre, vs[ii], vs[succ_idx(ii, nn)]));
                                    }
                                }
                                if edges_consistent(*old(self)) {
                                    lemma_make_edge_preserves_edges(
                                        state_i,
                                        *self,
                                        v_from,
                                        v_to,
                                        e,
                                        a,
                                        b,
                                    );
                                }
                                if distinct_handles(vertices@) && twin_symmetry_ok(*old(self))
                                    && twins_resolve(*old(self)) {
                                    assert(v_from == vertices@[i as int]);
                                    assert(v_to == vertices@[succ_idx(i as int, n as int)]);
                                    assert(i as int != succ_idx(i as int, n as int));
                                    assert(v_from != v_to);
                                    lemma_make_edge_preserves_twins(
                                        state_i,
                                        *self,
                                        v_from,
                                        v_to,
                                        e,
                                        a,
                                        b,
                                    );
                                }
                                assert(he_runs(self.halfedges_view(), a, v_from, v_to));
                                assert(he_runs(self.halfedges_view(), b, v_to, v_from));
                                assert forall|k: u64|
                                    state_i.halfedges_view().dom().contains(k) implies
                                    self.halfedges_view().dom().contains(k)
                                        && self.halfedges_view()[k] == state_i.halfedges_view()[k]
                                by {}
                                assert forall|k: u64|
                                    #![trigger self.halfedges_view()[k]]
                                    self.halfedges_view().dom().contains(k) && !old(
                                        self,
                                    ).halfedges_view().dom().contains(k) && k != a && k != b
                                        implies self.halfedges_view()[k].face is None && exists|
                                    j: int,
                                |
                                    0 <= j < i && (he_runs(
                                        self.halfedges_view(),
                                        k,
                                        vertices@[j],
                                        vertices@[succ_idx(j, n as int)],
                                    ) || he_runs(
                                        self.halfedges_view(),
                                        k,
                                        vertices@[succ_idx(j, n as int)],
                                        vertices@[j],
                                    )) by {
                                    let j = choose|j: int|
                                        0 <= j < i && (he_runs(
                                            state_i.halfedges_view(),
                                            k,
                                            vertices@[j],
                                            vertices@[succ_idx(j, n as int)],
                                        ) || he_runs(
                                            state_i.halfedges_view(),
                                            k,
                                            vertices@[succ_idx(j, n as int)],
                                            vertices@[j],
                                        ));
                                    assert(0 <= j < i);
                                    if he_runs(
                                        state_i.halfedges_view(),
                                        k,
                                        vertices@[j],
                                        vertices@[succ_idx(j, n as int)],
                                    ) {
                                        assert(he_runs(
                                            self.halfedges_view(),
                                            k,
                                            vertices@[j],
                                            vertices@[succ_idx(j, n as int)],
                                        ));
                                    } else {
                                        assert(he_runs(
                                            self.halfedges_view(),
                                            k,
                                            vertices@[succ_idx(j, n as int)],
                                            vertices@[j],
                                        ));
                                    }
                                }
                            }
                        },
                    }
                },
            }
            i += 1;
        }

        let ghost after_collect = *self;

        // Create the loop and face records, then link the cycle.
        let head = face_halfedges[0];
        let l = self.loops.insert(Loop { halfedge: head, face: None });
        let f = self.faces.insert(
            Face { outer_loop: LoopId(l), inner_loops: Vec::new(), surface_reversed: false },
        );
        self.loops.set(l, Loop { halfedge: head, face: Some(FaceId(f)) });

        let ghost mid = *self;
        let mut i: usize = 0;
        while i < n
            invariant
                0 <= i <= n,
                face_halfedges@.len() == n,
                self.wf(),
                self.vertices_view() == mid.vertices_view(),
                self.edges_view() == mid.edges_view(),
                self.loops_view() == mid.loops_view(),
                self.faces_view() == mid.faces_view(),
                self.halfedges_view().dom() == mid.halfedges_view().dom(),
                forall|k: u64| #[trigger]
                    self.halfedges_view().dom().contains(k) ==> self.halfedges_view()[k].origin
                        == mid.halfedges_view()[k].origin && self.halfedges_view()[k].twin
                        == mid.halfedges_view()[k].twin && self.halfedges_view()[k].edge
                        == mid.halfedges_view()[k].edge && (mid.halfedges_view()[k].face is Some
                        ==> self.halfedges_view()[k].face == mid.halfedges_view()[k].face),
                forall|j: int|
                    0 <= j < n ==> {
                        let k = (#[trigger] face_halfedges@[j]).0;
                        k == key_norm(k) && mid.halfedges_view().dom().contains(k)
                            && mid.halfedges_view()[k].origin == vertices@[j]
                    },
                distinct_handles(vertices@) ==> forall|j: int|
                    0 <= j < i ==> self.halfedges_view()[(#[trigger] face_halfedges@[j]).0]
                        == linked_at(
                        mid.halfedges_view()[face_halfedges@[j].0],
                        face_halfedges@,
                        j,
                        FaceId(f),
                        LoopId(l),
                    ),
                distinct_handles(vertices@) ==> forall|k: u64|
                    #![trigger self.halfedges_view()[k]]
                    self.halfedges_view().dom().contains(k) && (forall|j: int|
                        0 <= j < i ==> (#[trigger] face_halfedges@[j]).0 != k)
                        ==> self.halfedges_view()[k] == mid.halfedges_view()[k],
                hb ==> forall|j: int|
                    0 <= j < n ==> !pair_blocked(
                        *old(self),
                        vertices@[j],
                        #[trigger] vertices@[succ_idx(j, n as int)],
                    ),
                hl ==> self.edges_view().dom().len() == old(self).edges_view().dom().len()
                    + count_fresh_pairs(*old(self), vertices@, n as int)
                    && self.halfedges_view().dom().len()
                    == old(self).halfedges_view().dom().len() + 2 * count_fresh_pairs(
                    *old(self),
                    vertices@,
                    n as int,
                ),
                h2 ==> forall|j: int|
                    0 <= j < n ==> match self.halfedges_view()[(#[trigger] face_halfedges@[j]).0].twin {
                        Some(t) => self.halfedges_view().dom().contains(key_norm(t.0))
                            && self.halfedges_view()[key_norm(t.0)].origin == vertices@[succ_idx(
                            j,
                            n as int,
                        )],
                        None => false,
                    },
            decreases n - i,
        {
            let he_id = face_halfedges[i];
            let next_id = face_halfedges[if i + 1 == n {
                0
            } else {
                i + 1
            }];
            let prev_id = face_halfedges[if i == 0 {
                n - 1
            } else {
                i - 1
            }];
            let cur = self.halfedges.get(he_id.0).unwrap();
            self.halfedges.set(
                he_id.0,
                HalfEdge {
                    origin: cur.origin,
                    twin: cur.twin,
                    next: Some(next_id),
                    prev: Some(prev_id),
                    face: Some(FaceId(f)),
                    edge: cur.edge,
                    loop_id: Some(LoopId(l)),
                },
            );
            proof {
                if distinct_handles(vertices@) {
                    assert forall|j: int| 0 <= j < n && j != i implies face_halfedges@[j].0
                        != face_halfedges@[i as int].0 by {
                        assert(mid.halfedges_view()[face_halfedges@[j].0].origin == vertices@[j]);
                        assert(mid.halfedges_view()[face_halfedges@[i as int].0].origin
                            == vertices@[i as int]);
                    }
                }
            }
            i += 1;
        }

        proof {
            if distinct_handles(vertices@) {
                let fh = face_halfedges@;
                let hs = Seq::new(n as nat, |j: int| fh[j].0);
                assert forall|j: int| 0 <= j < n implies {
                    let he = self.halfedges_view()[#[trigger] hs[j]];
                    &&& self.halfedges_view().dom().contains(hs[j])
                    &&& he.origin == vertices@[j]
                    &&& he.next == Some(HalfEdgeId(hs[succ_idx(j, n as int)]))
                    &&& he.prev == Some(HalfEdgeId(hs[pred_idx(j, n as int)]))
                    &&& he.face == Some(FaceId(f))
                    &&& he.loop_id == Some(LoopId(l))
                } by {
                    assert(self.halfedges_view()[fh[j].0] == linked_at(
                        mid.halfedges_view()[fh[j].0],
                        fh,
                        j,
                        FaceId(f),
                        LoopId(l),
                    ));
                    assert(HalfEdgeId(hs[succ_idx(j, n as int)]) == fh[succ_idx(j, n as int)]);
                    assert(HalfEdgeId(hs[pred_idx(j, n as int)]) == fh[pred_idx(j, n as int)]);
                }
                assert(face_linked(*self, FaceId(f), LoopId(l), vertices@, hs));
                assert(self.faces_view()[f].outer_loop == LoopId(l));
                assert(exists|hs2: Seq<u64>|
                    face_linked(*self, FaceId(f), self.faces_view()[f].outer_loop, vertices@, hs2));
                if h2 {
                    assert forall|j2: int| 0 <= j2 < n implies match self.halfedges_view()[
                        #[trigger] hs[j2]
                    ].twin {
                        Some(t) => self.halfedges_view().dom().contains(key_norm(t.0))
                            && self.halfedges_view()[key_norm(t.0)].origin == vertices@[succ_idx(
                            j2,
                            n as int,
                        )],
                        None => false,
                    } by {
                        assert(hs[j2] == face_halfedges@[j2].0);
                    }
                    assert(cycle_twins_to_successors(*self, vertices@, hs));
                    assert(exists|hs2: Seq<u64>|
                        face_linked(
                            *self,
                            FaceId(f),
                            self.faces_view()[f].outer_loop,
                            vertices@,
                            hs2,
                        ) && cycle_twins_to_successors(*self, vertices@, hs2));
                }

                if faces_closed(*old(self)) {
                    // The new face's linkage is a closed cycle.
                    assert forall|i: int| 0 <= i < hs.len() implies walk_step_ok(
                        *self,
                        hs,
                        i,
                        hs[0],
                        f,
                    ) by {
                        let si = succ_idx(i, hs.len() as int);
                        assert(0 <= si < hs.len());
                        assert(self.halfedges_view()[hs[i]].next == Some(HalfEdgeId(hs[si])));
                        assert(self.halfedges_view()[hs[si]].prev == Some(
                            HalfEdgeId(hs[pred_idx(si, hs.len() as int)]),
                        ));
                        assert(pred_idx(si, hs.len() as int) == i);
                    }
                    assert(face_cycle_ok(*self, f, hs));

                    // Every earlier face keeps its cycle: its half-edges
                    // carry that face, so the linking pass, which touches
                    // only face-less half-edges, left them alone.
                    assert forall|kf: u64| #[trigger]
                        self.faces_view().dom().contains(kf) implies exists|cyc: Seq<u64>|
                        face_cycle_ok(*self, kf, cyc) by {
                        if kf == f {
                            assert(face_cycle_ok(*self, f, hs));
                        } else {
                            assert(old(self).faces_view().dom().contains(kf));
                            let cyc = choose|cyc: Seq<u64>| face_cycle_ok(*old(self), kf, cyc);
                            assert(face_cycle_ok(*old(self), kf, cyc));
                            assert forall|i2: int|
                                0 <= i2 < cyc.len() implies self.halfedges_view().dom().contains(
                                #[trigger] cyc[i2],
                            ) && self.halfedges_view()[cyc[i2]] == old(self).halfedges_view()[
                                cyc[i2]
                            ] by {
                                assert(walk_step_ok(*old(self), cyc, i2, cyc[0], kf));
                                assert(old(self).halfedges_view().dom().contains(cyc[i2]));
                                assert(mid.halfedges_view()[cyc[i2]] == old(
                                    self,
                                ).halfedges_view()[cyc[i2]]);
                                assert forall|j2: int| 0 <= j2 < n implies (#[trigger]
                                face_halfedges@[j2]).0 != cyc[i2] by {
                                    if face_halfedges@[j2].0 == cyc[i2] {
                                        assert(mid.halfedges_view()[cyc[i2]].face is None);
                                        assert(old(self).halfedges_view()[cyc[i2]].face is Some);
                                    }
                                }
                                assert(self.halfedges_view()[cyc[i2]] == mid.halfedges_view()[
                                    cyc[i2]
                                ]);
                            }
                            lemma_cycle_transfer(*old(self), *self, kf, cyc);
                        }
                    }
                    assert(faces_closed(*self));
                }
            }
            assert(self.faces_view() =~= old(self).faces_view().insert(f, self.faces_view()[f]));
            assert(self.loops_view() =~= old(self).loops_view().insert(l, self.loops_view()[l]));
            if distinct_handles(vertices@) && twin_symmetry_ok(*old(self)) && twins_resolve(
                *old(self),
            ) {
                lemma_twins_depend_on_fields(after_collect, mid);
                lemma_twins_depend_on_fields(mid, *self);
            }
            if edges_consistent(*old(self)) {
                lemma_edges_depend_on_twins(after_collect, mid);
                lemma_edges_depend_on_twins(mid, *self);
            }
            if hb && (exists|i2: int|
                0 <= i2 < vertices@.len() && pair_blocked(
                    *old(self),
                    vertices@[i2],
                    #[trigger] vertices@[succ_idx(i2, vertices@.len() as int)],
                )) {
                let i2 = choose|i2: int|
                    0 <= i2 < vertices@.len() && pair_blocked(
                        *old(self),
                        vertices@[i2],
                        #[trigger] vertices@[succ_idx(i2, vertices@.len() as int)],
                    );
                assert(!pair_blocked(
                    *old(self),
                    vertices@[i2],
                    vertices@[succ_idx(i2, n as int)],
                ));
                assert(false);
            }
        }
        Ok(FaceId(f))
    }

    /// Creates a triangular face over three vertices; a convenience form
    /// of `make_face`.
    pub fn make_triangle(&mut self, v1: VertexId, v2: VertexId, v3: VertexId) -> (r: Result<
        FaceId,
        CstError,
    >)
        requires
            old(self).wf(),
            old(self).halfedges_view().dom().len() + 6 <= arena_cap(),
            old(self).edges_view().dom().len() + 3 <= arena_cap(),
            old(self).loops_view().dom().len() < arena_cap(),
            old(self).faces_view().dom().len() < arena_cap(),
        ensures
            final(self).wf(),
            final(self).vertices_view().dom() == old(self).vertices_view().dom(),
            !all_vertices_present(*old(self), seq![v1, v2, v3]) ==> (r matches Err(e)
                && e is NotFound && *final(self) == *old(self)),
            r matches Err(e) ==> (e is Topology || e is NotFound) && final(self).loops_view()
                == old(self).loops_view() && final(self).faces_view() == old(self).faces_view(),
            r is Ok ==> all_vertices_present(*old(self), seq![v1, v2, v3]),
            r matches Ok(f) ==> {
                &&& f.0 == key_norm(f.0)
                &&& !old(self).faces_view().dom().contains(f.0)
                &&& final(self).faces_view() == old(self).faces_view().insert(
                    f.0,
                    final(self).faces_view()[f.0],
                )
                &&& !old(self).loops_view().dom().contains(
                    final(self).faces_view()[f.0].outer_loop.0,
                )
                &&& final(self).loops_view() == old(self).loops_view().insert(
                    final(self).faces_view()[f.0].outer_loop.0,
                    final(self).loops_view()[final(self).faces_view()[f.0].outer_loop.0],
                )
                &&& (distinct_handles(seq![v1, v2, v3]) ==> exists|hs: Seq<u64>|
                    face_linked(
                        *final(self),
                        f,
                        final(self).faces_view()[f.0].outer_loop,
                        seq![v1, v2, v3],
                        hs,
                    ))
            },
            distinct_handles(seq![v1, v2, v3]) && all_vertices_present(
                *old(self),
                seq![v1, v2, v3],
            ) && twins_resolve(*old(self)) && pairs_reusable(*old(self), seq![v1, v2, v3])
                ==> r is Ok,
            forall|k: u64| #[trigger]
                old(self).halfedges_view().dom().contains(k)
                    ==> final(self).halfedges_view().dom().contains(k)
                    && final(self).halfedges_view()[k].origin
                    == old(self).halfedges_view()[k].origin
                    && final(self).halfedges_view()[k].twin == old(self).halfedges_view()[k].twin
                    && final(self).halfedges_view()[k].edge == old(self).halfedges_view()[k].edge
                    && (old(self).halfedges_view()[k].face is Some
                    ==> final(self).halfedges_view()[k].face
                    == old(self).halfedges_view()[k].face),
            forall|k: u64| #[trigger]
                old(self).edges_view().dom().contains(k) ==> final(self).edges_view().dom().contains(
                    k,
                ) && final(self).edges_view()[k] == old(self).edges_view()[k],
            final(self).vertices_view().dom() == old(self).vertices_view().dom(),
            r is Ok && distinct_handles(seq![v1, v2, v3]) && twin_symmetry_ok(*old(self))
                && twins_resolve(*old(self)) ==> twin_symmetry_ok(*final(self)) && twins_resolve(
                *final(self),
            ),
            r is Ok && distinct_handles(seq![v1, v2, v3]) && faces_closed(*old(self))
                ==> faces_closed(*final(self)),
            r is Ok && edges_consistent(*old(self)) ==> edges_consistent(*final(self)),
            r is Ok && distinct_handles(seq![v1, v2, v3]) && twins_resolve(*old(self))
                ==> final(self).edges_view().dom().len() == old(self).edges_view().dom().len()
                + count_fresh_pairs(*old(self), seq![v1, v2, v3], 3)
                && final(self).halfedges_view().dom().len()
                == old(self).halfedges_view().dom().len() + 2 * count_fresh_pairs(
                *old(self),
                seq![v1, v2, v3],
                3,
            ),
            r is Err ==> forall|k: u64| #[trigger]
                old(self).halfedges_view().dom().contains(k)
                    ==> final(self).halfedges_view().dom().contains(k)
                    && final(self).halfedges_view()[k] == old(self).halfedges_view()[k],
    {
        let vs = vec![v1, v2, v3];
        proof {
            assert(vs@ =~= seq![v1, v2, v3]);
        }
        self.make_face(vs.as_slice())
    }

    /// The destination vertex of a half-edge: its twin's origin.
    pub fn halfedge_target(&self, he_id: HalfEdgeId) -> (r: Option<VertexId>)
        ensures
            r == spec_halfedge_target(*self, he_id),
    {
        let he = match self.halfedges.get(he_id.0) {
            Some(he) => he,
            None => {
                return None;
            },
        };
        let twin_id = match he.twin {
            Some(t) => t,
            None => {
                return None;
            },
        };
        let twin = match self.halfedges.get(twin_id.0) {
            Some(t) => t,
            None => {
                return None;
            },
        };
        Some(twin.origin)
    }

    /// Both faces adjacent to an edge, in the order of its two half-edge
    /// references; `None` on either side that resolves to no face.
    pub fn edge_faces(&self, edge_id: EdgeId) -> (r: (Option<FaceId>, Option<FaceId>))
        ensures
            r == spec_edge_faces(*self, edge_id),
    {
        let edge = match self.edges.get(edge_id.0) {
            Some(e) => e,
            None => {
                return (None, None);
            },
        };
        let face_a = match self.halfedges.get(edge.halfedge_a.0) {
            Some(he) => he.face,
            None => None,
        };
        let face_b = match self.halfedges.get(edge.halfedge_b.0) {
            Some(he) => he.face,
            None => None,
        };
        (face_a, face_b)
    }

    /// Searches the half-edge table for one running from `origin` to
    /// `target`: its origin is `origin` and its twin resolves with origin
    /// `target`. Which one is returned when several match is unspecified;
    /// `None` is returned exactly when none matches.
    #[verifier::loop_isolation(false)]
    fn find_halfedge(&self, origin: VertexId, target: VertexId) -> (r: Option<HalfEdgeId>)
        ensures
            r matches Some(h) ==> h.0 == key_norm(h.0) && he_matches(*self, h.0, origin, target),
            r is None ==> forall|k: u64|
                self.halfedges_view().dom().contains(k) ==> !he_matches(*self, k, origin, target),
    {
        let entries = self.halfedges.entries();
        let n = entries.len();
        let mut i: usize = 0;
        while i < n
            invariant
                0 <= i <= n,
                forall|j: int| 0 <= j < i ==> !he_matches(*self, entries@[j].0, origin, target),
            decreases n - i,
        {
            let k = entries[i].0;
            let he = entries[i].1;
            if he.origin == origin {
                if let Some(twin_id) = he.twin {
                    if let Some(twin) = self.halfedges.get(twin_id.0) {
                        if twin.origin == target {
                            return Some(HalfEdgeId(k));
                        }
                    }
                }
            }
            i += 1;
        }
        proof {
            assert forall|k: u64|
                self.halfedges_view().dom().contains(k) implies !he_matches(
                *self,
                k,
                origin,
                target,
            ) by {
                let j = choose|j: int| 0 <= j < entries@.len() && entries@[j].0 == k;
                assert(0 <= j < entries@.len() && entries@[j].0 == k);
            }
        }
        None
    }
}

impl Default for Mesh {
    /// An empty mesh.
    fn default() -> (r: Mesh)
        ensures
            r.wf(),
            r.vertices_view().dom() == Set::<u64>::empty(),
            r.halfedges_view().dom() == Set::<u64>::empty(),
            r.edges_view().dom() == Set::<u64>::empty(),
            r.loops_view().dom() == Set::<u64>::empty(),
            r.faces_view().dom() == Set::<u64>::empty(),
    {
        Mesh::new()
    }
}

} // verus!
