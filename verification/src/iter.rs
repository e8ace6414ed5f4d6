//! Read-only traversals of the mesh: the half-edges and vertices around
//! a face, and the outgoing half-edges around a vertex.
//!
//! Each traversal returns the finite sequence of handles the walk
//! visits, following `next` (for a face) or `twin` then `next` (for a
//! vertex one-ring), stopping on return to the start or at a missing
//! relation (a boundary). A walk is additionally capped at one more step
//! than the half-edge table holds, so a malformed chain that never
//! returns to its start ends after visiting every half-edge instead of
//! running on.

use vstd::prelude::*;
use crate::arena::{canonical_key, key_norm};
use crate::mesh::Mesh;
use crate::types::{FaceId, HalfEdgeId, VertexId};

verus! {

/// The sequence of canonical half-edge keys visited by following `next`
/// from `cur`, stopping before a repeat of `start`, at a missing record
/// or relation, or when `fuel` runs out.
pub open spec fn next_walk(m: Mesh, start: u64, cur: u64, fuel: nat) -> Seq<u64>
    decreases fuel,
{
    if fuel == 0 {
        Seq::empty()
    } else if !m.halfedges_view().dom().contains(key_norm(cur)) {
        Seq::empty()
    } else {
        seq![key_norm(cur)] + (match m.halfedges_view()[key_norm(cur)].next {
            None => Seq::<u64>::empty(),
            Some(nx) => if key_norm(nx.0) == start {
                Seq::<u64>::empty()
            } else {
                next_walk(m, start, key_norm(nx.0), (fuel - 1) as nat)
            },
        })
    }
}

/// The sequence of canonical half-edge keys visited by circulating a
/// vertex one-ring: a half-edge is visited when it and its twin resolve,
/// and the walk continues at the twin's `next`, stopping before a repeat
/// of `start`, at a boundary, or when `fuel` runs out.
pub open spec fn outgoing_walk(m: Mesh, start: u64, cur: u64, fuel: nat) -> Seq<u64>
    decreases fuel,
{
    if fuel == 0 || !m.halfedges_view().dom().contains(key_norm(cur)) {
        Seq::empty()
    } else {
        match m.halfedges_view()[key_norm(cur)].twin {
            None => Seq::empty(),
            Some(t) => if !m.halfedges_view().dom().contains(key_norm(t.0)) {
                Seq::empty()
            } else {
                seq![key_norm(cur)] + (match m.halfedges_view()[key_norm(t.0)].next {
                    None => Seq::<u64>::empty(),
                    Some(nx) => if key_norm(nx.0) == start {
                        Seq::<u64>::empty()
                    } else {
                        outgoing_walk(m, start, key_norm(nx.0), (fuel - 1) as nat)
                    },
                })
            },
        }
    }
}

/// Every key of a `next` walk is canonical and live.
pub proof fn lemma_next_walk_elems(m: Mesh, start: u64, cur: u64, fuel: nat)
    ensures
        forall|i: int|
            0 <= i < next_walk(m, start, cur, fuel).len() ==> {
                let k = #[trigger] next_walk(m, start, cur, fuel)[i];
                k == key_norm(k) && m.halfedges_view().dom().contains(k)
            },
    decreases fuel,
{
    if fuel > 0 && m.halfedges_view().dom().contains(key_norm(cur)) {
        crate::arena::lemma_key_norm_idem(cur);
        let walk = next_walk(m, start, cur, fuel);
        match m.halfedges_view()[key_norm(cur)].next {
            None => {},
            Some(nx) => {
                if key_norm(nx.0) != start {
                    lemma_next_walk_elems(m, start, key_norm(nx.0), (fuel - 1) as nat);
                    let rec = next_walk(m, start, key_norm(nx.0), (fuel - 1) as nat);
                    assert forall|i: int| 0 <= i < walk.len() implies {
                        let k = #[trigger] walk[i];
                        k == key_norm(k) && m.halfedges_view().dom().contains(k)
                    } by {
                        if i > 0 {
                            assert(walk[i] == rec[i - 1]);
                        }
                    }
                }
            },
        }
    }
}

/// The walk over the half-edges of a face starts at the head half-edge
/// of its outer loop.
pub open spec fn face_walk_start(m: Mesh, face_id: FaceId) -> u64 {
    key_norm(
        m.loops_view()[key_norm(m.faces_view()[key_norm(face_id.0)].outer_loop.0)].halfedge.0,
    )
}

/// Whether `face_id` names a live face whose outer loop also resolves,
/// so that its traversals are defined.
pub open spec fn face_walk_defined(m: Mesh, face_id: FaceId) -> bool {
    &&& m.faces_view().dom().contains(key_norm(face_id.0))
    &&& m.loops_view().dom().contains(
        key_norm(m.faces_view()[key_norm(face_id.0)].outer_loop.0),
    )
}

/// The fuel every capped walk starts from: one more than the number of
/// live half-edges.
pub open spec fn walk_fuel(m: Mesh) -> nat {
    m.halfedges_view().dom().len() + 1
}

impl Mesh {
    /// The half-edges around a face, following `next` from the outer
    /// loop's head until the walk returns to the head, reaches a missing
    /// relation, or exhausts the cap. `None` exactly when the face or
    /// its outer loop does not resolve.
    #[verifier::loop_isolation(false)]
    pub fn face_halfedges(&self, face_id: FaceId) -> (r: Option<Vec<HalfEdgeId>>)
        ensures
            r is Some <==> face_walk_defined(*self, face_id),
            r matches Some(v) ==> v@.map_values(|h: HalfEdgeId| h.0) == next_walk(
                *self,
                face_walk_start(*self, face_id),
                face_walk_start(*self, face_id),
                walk_fuel(*self),
            ),
    {
        let face = match self.faces.get(face_id.0) {
            Some(f) => f,
            None => {
                return None;
            },
        };
        let lp = match self.loops.get(face.outer_loop.0) {
            Some(lp) => lp,
            None => {
                return None;
            },
        };
        let start = canonical_key(lp.halfedge.0);
        proof {
            crate::arena::lemma_key_norm_idem(lp.halfedge.0);
        }
        Some(self.walk_next_from(start))
    }

    /// The vertices around a face: the origin of each half-edge of the
    /// face walk, in walk order.
    #[verifier::loop_isolation(false)]
    pub fn face_vertices(&self, face_id: FaceId) -> (r: Option<Vec<VertexId>>)
        ensures
            r is Some <==> face_walk_defined(*self, face_id),
            r matches Some(v) ==> v@ == next_walk(
                *self,
                face_walk_start(*self, face_id),
                face_walk_start(*self, face_id),
                walk_fuel(*self),
            ).map_values(|k: u64| self.halfedges_view()[k].origin),
    {
        let hs = match self.face_halfedges(face_id) {
            Some(hs) => hs,
            None => {
                return None;
            },
        };
        let ghost walk = next_walk(
            *self,
            face_walk_start(*self, face_id),
            face_walk_start(*self, face_id),
            walk_fuel(*self),
        );
        proof {
            lemma_next_walk_elems(
                *self,
                face_walk_start(*self, face_id),
                face_walk_start(*self, face_id),
                walk_fuel(*self),
            );
        }
        let mut out: Vec<VertexId> = Vec::new();
        let mut i: usize = 0;
        while i < hs.len()
            invariant
                0 <= i <= hs@.len(),
                out@.len() == i,
                forall|j: int| 0 <= j < i ==> out@[j] == walk.map_values(
                    |k: u64| self.halfedges_view()[k].origin,
                )[j],
            decreases hs@.len() - i,
        {
            proof {
                assert(walk[i as int] == hs@[i as int].0);
                assert(walk[i as int] == key_norm(walk[i as int])
                    && self.halfedges_view().dom().contains(walk[i as int]));
            }
            let he = self.halfedges.get(hs[i].0).unwrap();
            out.push(he.origin);
            i += 1;
        }
        proof {
            assert(out@ =~= walk.map_values(|k: u64| self.halfedges_view()[k].origin));
        }
        Some(out)
    }

    /// The outgoing half-edges around a vertex, circulating by `twin`
    /// then `next` from the vertex's outgoing half-edge, stopping at the
    /// start, at a boundary, or at the cap. `None` exactly when the
    /// vertex does not resolve or has no outgoing half-edge.
    #[verifier::loop_isolation(false)]
    pub fn vertex_outgoing(&self, vertex_id: VertexId) -> (r: Option<Vec<HalfEdgeId>>)
        ensures
            r is Some <==> self.has_vertex(vertex_id) && self.vertices_view()[key_norm(
                vertex_id.0,
            )].halfedge is Some,
            r matches Some(v) ==> {
                let start = key_norm(
                    (self.vertices_view()[key_norm(vertex_id.0)].halfedge->0).0,
                );
                v@.map_values(|h: HalfEdgeId| h.0) == outgoing_walk(
                    *self,
                    start,
                    start,
                    walk_fuel(*self),
                )
            },
    {
        let vertex = match self.vertices.get(vertex_id.0) {
            Some(v) => v,
            None => {
                return None;
            },
        };
        let he_id = match vertex.halfedge {
            Some(h) => h,
            None => {
                return None;
            },
        };
        let start = canonical_key(he_id.0);
        proof {
            crate::arena::lemma_key_norm_idem(he_id.0);
        }

        let fuel0 = self.halfedges.len() + 1;
        let mut fuel = fuel0;
        let mut cur = start;
        let mut out: Vec<HalfEdgeId> = Vec::new();
        let ghost full = outgoing_walk(*self, start, start, fuel0 as nat);
        loop
            invariant
                cur == key_norm(cur),
                fuel <= fuel0,
                out@.map_values(|h: HalfEdgeId| h.0) + outgoing_walk(
                    *self,
                    start,
                    cur,
                    fuel as nat,
                ) == full,
            decreases fuel,
        {
            let ghost out0 = out@;
            let ghost outk0 = out0.map_values(|h: HalfEdgeId| h.0);
            if fuel == 0 {
                proof {
                    assert(outk0 =~= full);
                }
                break;
            }
            let he = match self.halfedges.get(cur) {
                Some(he) => he,
                None => {
                    proof {
                        assert(outk0 =~= full);
                    }
                    break;
                },
            };
            let twin_id = match he.twin {
                Some(t) => t,
                None => {
                    proof {
                        assert(outk0 =~= full);
                    }
                    break;
                },
            };
            let twin = match self.halfedges.get(twin_id.0) {
                Some(t) => t,
                None => {
                    proof {
                        assert(outk0 =~= full);
                    }
                    break;
                },
            };
            out.push(HalfEdgeId(cur));
            proof {
                assert(out@.map_values(|h: HalfEdgeId| h.0) =~= outk0.push(cur));
            }
            match twin.next {
                None => {
                    proof {
                        assert(out@.map_values(|h: HalfEdgeId| h.0) =~= full);
                    }
                    break;
                },
                Some(nx) => {
                    let nxk = canonical_key(nx.0);
                    proof {
                        crate::arena::lemma_key_norm_idem(nx.0);
                    }
                    if nxk == start {
                        proof {
                            assert(out@.map_values(|h: HalfEdgeId| h.0) =~= full);
                        }
                        break;
                    }
                    proof {
                        assert(out@.map_values(|h: HalfEdgeId| h.0) + outgoing_walk(
                            *self,
                            start,
                            nxk,
                            (fuel - 1) as nat,
                        ) =~= full);
                    }
                    cur = nxk;
                    fuel -= 1;
                },
            }
        }
        proof {
            assert(out@.map_values(|h: HalfEdgeId| h.0) == full);
        }
        Some(out)
    }

    /// Follows `next` from `start` (canonical), collecting the visited
    /// half-edges of the `next` walk.
    #[verifier::loop_isolation(false)]
    fn walk_next_from(&self, start: u64) -> (r: Vec<HalfEdgeId>)
        requires
            start == key_norm(start),
        ensures
            r@.map_values(|h: HalfEdgeId| h.0) == next_walk(*self, start, start, walk_fuel(*self)),
    {
        let fuel0 = self.halfedges.len() + 1;
        let mut fuel = fuel0;
        let mut cur = start;
        let mut out: Vec<HalfEdgeId> = Vec::new();
        let ghost full = next_walk(*self, start, start, fuel0 as nat);
        loop
            invariant
                cur == key_norm(cur),
                fuel <= fuel0,
                out@.map_values(|h: HalfEdgeId| h.0) + next_walk(*self, start, cur, fuel as nat)
                    == full,
            decreases fuel,
        {
            let ghost out0 = out@;
            let ghost outk0 = out0.map_values(|h: HalfEdgeId| h.0);
            if fuel == 0 {
                proof {
                    assert(outk0 =~= full);
                }
                break;
            }
            let he = match self.halfedges.get(cur) {
                Some(he) => he,
                None => {
                    proof {
                        assert(outk0 =~= full);
                    }
                    break;
                },
            };
            out.push(HalfEdgeId(cur));
            proof {
                assert(out@.map_values(|h: HalfEdgeId| h.0) =~= outk0.push(cur));
            }
            match he.next {
                None => {
                    proof {
                        assert(out@.map_values(|h: HalfEdgeId| h.0) =~= full);
                    }
                    break;
                },
                Some(nx) => {
                    let nxk = canonical_key(nx.0);
                    proof {
                        crate::arena::lemma_key_norm_idem(nx.0);
                    }
                    if nxk == start {
                        proof {
                            assert(out@.map_values(|h: HalfEdgeId| h.0) =~= full);
                        }
                        break;
                    }
                    proof {
                        assert(out@.map_values(|h: HalfEdgeId| h.0) + next_walk(
                            *self,
                            start,
                            nxk,
                            (fuel - 1) as nat,
                        ) =~= full);
                    }
                    cur = nxk;
                    fuel -= 1;
                },
            }
        }
        proof {
            assert(out@.map_values(|h: HalfEdgeId| h.0) == full);
        }
        out
    }
}

} // verus!
