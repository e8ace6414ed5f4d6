//! Full-structure validation of the half-edge mesh.
//!
//! `Mesh::validate` checks three invariant families and reports the first
//! violation as a `Topology` error: twin symmetry (every stored twin
//! resolves, points back, and has a different origin), closed face loops
//! (walking `next` from each face's outer-loop head returns to the head
//! after at least three steps, every visited half-edge tagged with that
//! face and `next`/`prev` mutually consistent, with an iteration cap so a
//! malformed chain surfaces as an error instead of a hang), and edge
//! consistency (each edge's two half-edges are each other's twins).
//!
//! The contract states soundness: a mesh that validates satisfies the
//! three predicates below, so any corruption that breaks one of them —
//! a redirected twin, an unclosed loop, a mismatched edge record — cannot
//! validate.
//!
//! The proof functions at the end close the loop with construction:
//! an empty mesh satisfies the invariants, and edge creation preserves
//! them; `make_edge` and `make_face` carry matching clauses in their own
//! contracts, so a mesh built only through the constructive operations
//! (over distinct vertices) keeps its structure intact.

use vstd::prelude::*;
use vstd::string::StringExecFns;
use crate::arena::{canonical_key, key_norm};
use crate::error::CstError;
use crate::mesh::{Mesh, succ_idx, twins_resolve};
use crate::types::{Edge, EdgeId, HalfEdgeId, VertexId};

verus! {

/// Twin symmetry at the half-edge stored under canonical key `k`: if its
/// twin is set, the twin is live, points back to `k`, and leaves a
/// different vertex.
pub open spec fn twin_ok_at(m: Mesh, k: u64) -> bool {
    match m.halfedges_view()[k].twin {
        Some(t) => {
            &&& m.halfedges_view().dom().contains(key_norm(t.0))
            &&& (match m.halfedges_view()[key_norm(t.0)].twin {
                Some(bk) => key_norm(bk.0) == k,
                None => false,
            })
            &&& m.halfedges_view()[key_norm(t.0)].origin != m.halfedges_view()[k].origin
        },
        None => true,
    }
}

/// Twin symmetry over the whole mesh.
pub open spec fn twin_symmetry_ok(m: Mesh) -> bool {
    forall|k: u64| #[trigger]
        m.halfedges_view().dom().contains(k) ==> twin_ok_at(m, k)
}

/// Consistency of the edge record stored under canonical key `k`: both
/// referenced half-edges are live and are each other's twins.
pub open spec fn edge_ok_at(m: Mesh, k: u64) -> bool {
    {
        let ed = m.edges_view()[k];
        &&& m.halfedges_view().dom().contains(key_norm(ed.halfedge_a.0))
        &&& m.halfedges_view().dom().contains(key_norm(ed.halfedge_b.0))
        &&& (match m.halfedges_view()[key_norm(ed.halfedge_a.0)].twin {
            Some(t) => key_norm(t.0) == key_norm(ed.halfedge_b.0),
            None => false,
        })
        &&& (match m.halfedges_view()[key_norm(ed.halfedge_b.0)].twin {
            Some(t) => key_norm(t.0) == key_norm(ed.halfedge_a.0),
            None => false,
        })
    }
}

/// Edge consistency over the whole mesh.
pub open spec fn edges_consistent(m: Mesh) -> bool {
    forall|k: u64| #[trigger]
        m.edges_view().dom().contains(k) ==> edge_ok_at(m, k)
}

/// One step of the face walk, as recorded so far: the `j`-th visited
/// half-edge is live, tagged with the face, and chained to the next
/// visited one (or to the walk's current position for the last step).
pub open spec fn walk_step_ok(m: Mesh, walked: Seq<u64>, j: int, current: u64, fkey: u64) -> bool {
    let nxt = if j + 1 < walked.len() {
        walked[j + 1]
    } else {
        current
    };
    &&& m.halfedges_view().dom().contains(walked[j])
    &&& (match m.halfedges_view()[walked[j]].face {
        Some(ff) => key_norm(ff.0) == fkey,
        None => false,
    })
    &&& (match m.halfedges_view()[walked[j]].next {
        Some(nx) => key_norm(nx.0) == nxt,
        None => false,
    })
    &&& m.halfedges_view().dom().contains(nxt)
    &&& (match m.halfedges_view()[nxt].prev {
        Some(pv) => key_norm(pv.0) == walked[j],
        None => false,
    })
}

/// `hs` is a closed simple `next` cycle for the face stored under
/// canonical key `fkey`: it starts at the face's outer-loop head, has at
/// least three pairwise distinct half-edges, and at every step the
/// half-edge is live, tagged with the face, its `next` leads to the
/// cyclic successor, and the successor's `prev` points back.
pub open spec fn face_cycle_ok(m: Mesh, fkey: u64, hs: Seq<u64>) -> bool {
    let fc = m.faces_view()[fkey];
    &&& hs.len() >= 3
    &&& hs.no_duplicates()
    &&& m.loops_view().dom().contains(key_norm(fc.outer_loop.0))
    &&& hs[0] == key_norm(m.loops_view()[key_norm(fc.outer_loop.0)].halfedge.0)
    &&& forall|i: int| 0 <= i < hs.len() ==> walk_step_ok(m, hs, i, hs[0], fkey)
}

/// Every face of `m` has a closed simple cycle.
pub open spec fn faces_closed(m: Mesh) -> bool {
    forall|k: u64| #[trigger]
        m.faces_view().dom().contains(k) ==> exists|hs: Seq<u64>| face_cycle_ok(m, k, hs)
}

/// A duplicate-free sequence drawn from a finite set is no longer than
/// the set.
proof fn lemma_distinct_in_dom_len(hs: Seq<u64>, d: Set<u64>)
    requires
        d.finite(),
        hs.no_duplicates(),
        forall|i: int| 0 <= i < hs.len() ==> d.contains(#[trigger] hs[i]),
    ensures
        hs.len() <= d.len(),
{
    hs.unique_seq_to_set();
    assert(hs.to_set().subset_of(d)) by {
        assert forall|x: u64| #[trigger] hs.to_set().contains(x) implies d.contains(x) by {
            assert(hs.contains(x));
            let i = choose|i: int| 0 <= i < hs.len() && hs[i] == x;
            assert(d.contains(hs[i]));
        }
    }
    vstd::set_lib::lemma_len_subset(hs.to_set(), d);
}

/// A `Topology` error whose message names the offending handle.
fn topology_error(prefix: &str, handle: u64) -> (r: CstError)
    ensures
        r is Topology,
{
    let mut msg = prefix.to_owned();
    let num = crate::text::u64_to_string(handle);
    msg.append(num.as_str());
    CstError::Topology(msg)
}

impl Mesh {
    /// Checks the mesh's structural invariants and never repairs state.
    /// The verdict is exact on well-formed tables: `Ok` is returned if
    /// and only if twin symmetry, closed simple face loops, and edge
    /// consistency all hold; the first violation found is reported as a
    /// `Topology` error naming the offending handle.
    #[verifier::loop_isolation(false)]
    #[verifier::rlimit(100)]
    pub fn validate(&self) -> (r: Result<(), CstError>)
        ensures
            r is Ok ==> twin_symmetry_ok(*self) && edges_consistent(*self) && faces_closed(*self),
            self.wf() && twin_symmetry_ok(*self) && edges_consistent(*self) && faces_closed(*self)
                ==> r is Ok,
            r matches Err(e) ==> e is Topology,
    {
        let ghost complete = self.wf() && twin_symmetry_ok(*self) && edges_consistent(*self)
            && faces_closed(*self);

        // Twin symmetry.
        let hes = self.halfedges.entries();
        let mut i: usize = 0;
        while i < hes.len()
            invariant
                0 <= i <= hes@.len(),
                forall|j: int| 0 <= j < i ==> twin_ok_at(*self, (#[trigger] hes@[j]).0),
            decreases hes@.len() - i,
        {
            let k = hes[i].0;
            let he = hes[i].1;
            if let Some(twin_id) = he.twin {
                let twin = match self.halfedges.get(twin_id.0) {
                    Some(t) => t,
                    None => {
                        proof {
                            if complete {
                                assert(twin_ok_at(*self, k));
                                assert(false);
                            }
                        }
                        return Err(topology_error("half-edge has a twin reference that does not exist: handle ", k));
                    },
                };
                let back_ok = match twin.twin {
                    Some(bk) => canonical_key(bk.0) == k,
                    None => false,
                };
                if !back_ok {
                    proof {
                        if complete {
                            assert(twin_ok_at(*self, k));
                            assert(false);
                        }
                    }
                    return Err(topology_error("twin symmetry violated: the twin does not point back: handle ", k));
                }
                if twin.origin == he.origin {
                    proof {
                        if complete {
                            assert(twin_ok_at(*self, k));
                            assert(false);
                        }
                    }
                    return Err(topology_error("a half-edge and its twin have the same origin: handle ", k));
                }
            }
            i += 1;
        }
        proof {
            assert forall|k: u64| #[trigger]
                self.halfedges_view().dom().contains(k) implies twin_ok_at(*self, k) by {
                let j = choose|j: int| 0 <= j < hes@.len() && hes@[j].0 == k;
                assert(0 <= j < hes@.len() && hes@[j].0 == k);
            }
        }

        // Closed face loops. The cycle found for each face is recorded so
        // that every face is known to have one; when the mesh satisfies
        // the invariants, the walk is shown to retrace the face's simple
        // cycle, so no check along it can fail.
        let faces_vec = self.faces.entries();
        let total_he = self.halfedges.len();
        let ghost mut cycles = Map::<u64, Seq<u64>>::empty();
        let mut fi: usize = 0;
        while fi < faces_vec.len()
            invariant
                0 <= fi <= faces_vec@.len(),
                forall|j: int|
                    0 <= j < fi ==> face_cycle_ok(
                        *self,
                        (#[trigger] faces_vec@[j]).0,
                        cycles[faces_vec@[j].0],
                    ),
            decreases faces_vec@.len() - fi,
        {
            let fk = faces_vec[fi].0;
            let fc = &faces_vec[fi].1;
            let ghost cyc: Seq<u64> = if complete {
                choose|hs: Seq<u64>| face_cycle_ok(*self, fk, hs)
            } else {
                Seq::empty()
            };
            proof {
                if complete {
                    assert(face_cycle_ok(*self, fk, cyc));
                }
            }
            let lp = match self.loops.get(fc.outer_loop.0) {
                Some(lp) => lp,
                None => {
                    proof {
                        if complete {
                            assert(false);
                        }
                    }
                    return Err(topology_error("face references a non-existent loop: handle ", fk));
                },
            };
            let start = canonical_key(lp.halfedge.0);
            proof {
                crate::arena::lemma_key_norm_idem(lp.halfedge.0);
                if complete {
                    assert(cyc[0] == start);
                    assert forall|i2: int|
                        0 <= i2 < cyc.len() implies self.halfedges_view().dom().contains(
                        #[trigger] cyc[i2],
                    ) by {
                        assert(walk_step_ok(*self, cyc, i2, cyc[0], fk));
                    }
                    lemma_distinct_in_dom_len(cyc, self.halfedges_view().dom());
                    assert(cyc.len() <= total_he);
                }
            }
            let mut current = start;
            let mut count: usize = 0;
            let ghost mut walked = Seq::<u64>::empty();
            loop
                invariant
                    forall|j: int|
                        0 <= j < fi ==> face_cycle_ok(
                            *self,
                            (#[trigger] faces_vec@[j]).0,
                            cycles[faces_vec@[j].0],
                        ),
                    walked.len() == count,
                    count <= total_he + 1,
                    current == key_norm(current),
                    count == 0 ==> current == start,
                    count >= 1 ==> walked[0] == start,
                    count >= 1 ==> current != start,
                    walked.no_duplicates(),
                    forall|j: int| 0 <= j < count ==> walk_step_ok(*self, walked, j, current, fk),
                    complete ==> count <= cyc.len(),
                    complete && count < cyc.len() ==> current == cyc[count as int],
                    complete && count == cyc.len() ==> current == start,
                decreases total_he + 1 - count,
            {
                proof {
                    if complete {
                        // At the top of an iteration the walk cannot have
                        // gone all the way around: it would have stopped.
                        if count == cyc.len() {
                            assert(count >= 1);
                            assert(false);
                        }
                        assert(current == cyc[count as int]);
                        assert(walk_step_ok(*self, cyc, count as int, cyc[0], fk));
                    }
                }
                let ghost walked0 = walked;
                let ghost current0 = current;
                let ghost count0 = count as int;
                let he = match self.halfedges.get(current) {
                    Some(he) => he,
                    None => {
                        proof {
                            if complete {
                                assert(false);
                            }
                        }
                        return Err(topology_error("a half-edge in a face loop does not exist: handle ", current));
                    },
                };
                let face_ok = match he.face {
                    Some(ff) => canonical_key(ff.0) == fk,
                    None => false,
                };
                if !face_ok {
                    proof {
                        if complete {
                            assert(false);
                        }
                    }
                    return Err(topology_error("a half-edge in a face loop has the wrong face assignment: handle ", current));
                }
                let next_id = match he.next {
                    Some(nx) => nx,
                    None => {
                        proof {
                            if complete {
                                assert(false);
                            }
                        }
                        return Err(topology_error("a half-edge in a face loop has no next pointer: handle ", current));
                    },
                };
                let next_he = match self.halfedges.get(next_id.0) {
                    Some(nh) => nh,
                    None => {
                        proof {
                            if complete {
                                assert(self.halfedges_view().dom().contains(
                                    cyc[succ_idx(count as int, cyc.len() as int)],
                                ));
                                assert(false);
                            }
                        }
                        return Err(topology_error("a half-edge's next pointer does not exist: handle ", current));
                    },
                };
                let prev_ok = match next_he.prev {
                    Some(pv) => canonical_key(pv.0) == current,
                    None => false,
                };
                if !prev_ok {
                    proof {
                        if complete {
                            assert(false);
                        }
                    }
                    return Err(topology_error("next/prev mismatch along a face loop: handle ", current));
                }

                if count > total_he {
                    proof {
                        if complete {
                            assert(count < cyc.len() <= total_he);
                            assert(false);
                        }
                    }
                    return Err(topology_error("a face loop does not close (unbounded chain): handle ", fk));
                }
                proof {
                    // The half-edge about to be recorded is new to the
                    // walk: the `prev` checks make each visited half-edge
                    // the unique successor target of its predecessor.
                    assert forall|m: int| 0 <= m < count0 implies walked0[m] != current0 by {
                        if m == 0 {
                        } else if walked0[m] == current0 {
                            assert(walk_step_ok(*self, walked0, m - 1, current0, fk));
                            assert(walk_step_ok(*self, walked0, count0 - 1, current0, fk));
                            assert(walked0[m - 1] == walked0[count0 - 1]);
                            assert(false);
                        }
                    }
                    walked = walked.push(current);
                    assert forall|a: int, b: int|
                        0 <= a < walked.len() && 0 <= b < walked.len() && a != b implies walked[a]
                        != walked[b] by {
                        if a < count0 && b < count0 {
                            assert(walked0[a] == walked[a] && walked0[b] == walked[b]);
                        } else if a == count0 {
                            assert(walked[b] == walked0[b] && walked[a] == current0);
                        } else if b == count0 {
                            assert(walked[a] == walked0[a] && walked[b] == current0);
                        }
                    }
                }
                count += 1;
                current = canonical_key(next_id.0);
                proof {
                    crate::arena::lemma_key_norm_idem(next_id.0);
                    assert forall|j: int| 0 <= j < count implies walk_step_ok(
                        *self,
                        walked,
                        j,
                        current,
                        fk,
                    ) by {
                        if j < count0 {
                            assert(walk_step_ok(*self, walked0, j, current0, fk));
                            assert(walked[j] == walked0[j]);
                            if j + 1 < count0 {
                                assert(walked[j + 1] == walked0[j + 1]);
                            } else {
                                assert(walked[j + 1] == current0);
                            }
                        } else {
                            assert(j == count0);
                            assert(walked[j] == current0);
                        }
                    }
                    if complete {
                        assert(walk_step_ok(*self, cyc, count0, cyc[0], fk));
                        assert(current == cyc[succ_idx(count0, cyc.len() as int)]);
                        if count < cyc.len() {
                            assert(current == cyc[count as int]);
                        } else {
                            assert(current == cyc[0]);
                        }
                    }
                }
                if current == start {
                    break;
                }
            }
            if count < 3 {
                proof {
                    if complete {
                        // A cycle of three or more distinct half-edges
                        // cannot be retraced in fewer than three steps.
                        assert(count >= 1);
                        if count == 1 {
                            assert(walk_step_ok(*self, walked, 0, current, fk));
                            assert(walk_step_ok(*self, cyc, 0, cyc[0], fk));
                            assert(cyc[1] == start);
                            assert(false);
                        } else {
                            assert(count == 2);
                            assert(walk_step_ok(*self, walked, 0, current, fk));
                            assert(walk_step_ok(*self, walked, 1, current, fk));
                            assert(walk_step_ok(*self, cyc, 0, cyc[0], fk));
                            assert(cyc[1] == walked[1]);
                            assert(walk_step_ok(*self, cyc, 1, cyc[0], fk));
                            assert(cyc[2] == start);
                            assert(false);
                        }
                    }
                }
                return Err(topology_error("a face loop has fewer than 3 half-edges: handle ", fk));
            }
            proof {
                assert(face_cycle_ok(*self, fk, walked));
                let cycles0 = cycles;
                cycles = cycles.insert(fk, walked);
                assert forall|j: int| 0 <= j < fi + 1 implies face_cycle_ok(
                    *self,
                    (#[trigger] faces_vec@[j]).0,
                    cycles[faces_vec@[j].0],
                ) by {
                    if j < fi {
                        if faces_vec@[j].0 == fk {
                            assert(cycles[faces_vec@[j].0] == walked);
                        } else {
                            assert(cycles[faces_vec@[j].0] == cycles0[faces_vec@[j].0]);
                        }
                    } else {
                        assert(cycles[faces_vec@[j].0] == walked);
                    }
                }
            }
            fi += 1;
        }
        proof {
            assert forall|k: u64| #[trigger]
                self.faces_view().dom().contains(k) implies exists|hs: Seq<u64>|
                face_cycle_ok(*self, k, hs) by {
                let j = choose|j: int| 0 <= j < faces_vec@.len() && faces_vec@[j].0 == k;
                assert(0 <= j < faces_vec@.len() && faces_vec@[j].0 == k);
                assert(face_cycle_ok(*self, k, cycles[k]));
            }
        }

        // Edge consistency.
        let eds = self.edges.entries();
        let mut i: usize = 0;
        while i < eds.len()
            invariant
                0 <= i <= eds@.len(),
                forall|j: int| 0 <= j < i ==> edge_ok_at(*self, (#[trigger] eds@[j]).0),
            decreases eds@.len() - i,
        {
            let ek = eds[i].0;
            let ed = eds[i].1;
            let he_a = match self.halfedges.get(ed.halfedge_a.0) {
                Some(h) => h,
                None => {
                    proof {
                        if complete {
                            assert(edge_ok_at(*self, ek));
                            assert(false);
                        }
                    }
                    return Err(topology_error("edge references a non-existent first half-edge: handle ", ek));
                },
            };
            let he_b = match self.halfedges.get(ed.halfedge_b.0) {
                Some(h) => h,
                None => {
                    proof {
                        if complete {
                            assert(edge_ok_at(*self, ek));
                            assert(false);
                        }
                    }
                    return Err(topology_error("edge references a non-existent second half-edge: handle ", ek));
                },
            };
            let a_ok = match he_a.twin {
                Some(t) => canonical_key(t.0) == canonical_key(ed.halfedge_b.0),
                None => false,
            };
            let b_ok = match he_b.twin {
                Some(t) => canonical_key(t.0) == canonical_key(ed.halfedge_a.0),
                None => false,
            };
            if !a_ok || !b_ok {
                proof {
                    if complete {
                        assert(edge_ok_at(*self, ek));
                        assert(false);
                    }
                }
                return Err(topology_error("an edge's half-edges are not twins of each other: handle ", ek));
            }
            i += 1;
        }
        proof {
            assert forall|k: u64| #[trigger]
                self.edges_view().dom().contains(k) implies edge_ok_at(*self, k) by {
                let j = choose|j: int| 0 <= j < eds@.len() && eds@[j].0 == k;
                assert(0 <= j < eds@.len() && eds@[j].0 == k);
            }
        }

        Ok(())
    }
}


/// Edge creation preserves twin symmetry and twin resolution: the two
/// fresh half-edges are mutual twins with the two distinct endpoint
/// origins, and no existing twin or origin changes.
pub proof fn lemma_make_edge_preserves_twins(
    pre: Mesh,
    post: Mesh,
    v1: VertexId,
    v2: VertexId,
    e: EdgeId,
    a: u64,
    b: u64,
)
    requires
        crate::mesh::make_edge_links(pre, post, v1, v2, e, a, b),
        v1 != v2,
        twin_symmetry_ok(pre),
        twins_resolve(pre),
    ensures
        twin_symmetry_ok(post),
        twins_resolve(post),
{
    let hpre = pre.halfedges_view();
    let hpost = post.halfedges_view();
    assert forall|k: u64| #[trigger]
        hpost.dom().contains(k) implies twin_ok_at(post, k) && (match hpost[k].twin {
        Some(t) => hpost.dom().contains(key_norm(t.0)),
        None => true,
    }) by {
        crate::arena::lemma_key_norm_idem(a);
        crate::arena::lemma_key_norm_idem(b);
        if k == a || k == b {
        } else {
            assert(hpre.dom().contains(k));
            assert(twin_ok_at(pre, k));
            assert(hpost[k] == hpre[k]);
            match hpre[k].twin {
                Some(t) => {
                    assert(hpre.dom().contains(key_norm(t.0)));
                    assert(hpost[key_norm(t.0)] == hpre[key_norm(t.0)]);
                },
                None => {},
            }
        }
    }
}

/// Twin symmetry and twin resolution depend only on the live keys and
/// the twin and origin fields: a mesh whose half-edge table keeps those
/// of another keeps both properties.
pub proof fn lemma_twins_depend_on_fields(m1: Mesh, m2: Mesh)
    requires
        m2.halfedges_view().dom() == m1.halfedges_view().dom(),
        forall|k: u64| #[trigger]
            m2.halfedges_view().dom().contains(k) ==> m2.halfedges_view()[k].twin
                == m1.halfedges_view()[k].twin && m2.halfedges_view()[k].origin
                == m1.halfedges_view()[k].origin,
        twin_symmetry_ok(m1),
        twins_resolve(m1),
    ensures
        twin_symmetry_ok(m2),
        twins_resolve(m2),
{
    assert forall|k: u64| #[trigger]
        m2.halfedges_view().dom().contains(k) implies twin_ok_at(m2, k) && (
    match m2.halfedges_view()[k].twin {
        Some(t) => m2.halfedges_view().dom().contains(key_norm(t.0)),
        None => true,
    }) by {
        assert(twin_ok_at(m1, k));
        assert(m1.halfedges_view().dom().contains(k));
        match m1.halfedges_view()[k].twin {
            Some(t) => {
                assert(m1.halfedges_view().dom().contains(key_norm(t.0)));
                assert(m2.halfedges_view().dom().contains(key_norm(t.0)));
            },
            None => {},
        }
    }
}


/// A face cycle survives any change that keeps the face's record, its
/// outer loop record, and the records of the cycle's half-edges.
pub proof fn lemma_cycle_transfer(pre: Mesh, post: Mesh, kf: u64, hs: Seq<u64>)
    requires
        face_cycle_ok(pre, kf, hs),
        post.faces_view().dom().contains(kf),
        post.faces_view()[kf] == pre.faces_view()[kf],
        post.loops_view().dom().contains(key_norm(pre.faces_view()[kf].outer_loop.0)),
        post.loops_view()[key_norm(pre.faces_view()[kf].outer_loop.0)] == pre.loops_view()[
            key_norm(pre.faces_view()[kf].outer_loop.0)
        ],
        forall|i: int|
            0 <= i < hs.len() ==> post.halfedges_view().dom().contains(#[trigger] hs[i])
                && post.halfedges_view()[hs[i]] == pre.halfedges_view()[hs[i]],
    ensures
        face_cycle_ok(post, kf, hs),
{
    assert forall|i: int| 0 <= i < hs.len() implies walk_step_ok(post, hs, i, hs[0], kf) by {
        assert(walk_step_ok(pre, hs, i, hs[0], kf));
        let nxt = hs[succ_idx(i, hs.len() as int)];
        assert(0 <= succ_idx(i, hs.len() as int) < hs.len());
        assert(post.halfedges_view()[hs[i]] == pre.halfedges_view()[hs[i]]);
        assert(post.halfedges_view()[nxt] == pre.halfedges_view()[nxt]);
    }
}


/// Edge creation preserves edge-record consistency: the fresh record
/// pairs the two fresh mutual twins, and no existing record or twin
/// changes.
pub proof fn lemma_make_edge_preserves_edges(
    pre: Mesh,
    post: Mesh,
    v1: VertexId,
    v2: VertexId,
    e: EdgeId,
    a: u64,
    b: u64,
)
    requires
        crate::mesh::make_edge_links(pre, post, v1, v2, e, a, b),
        edges_consistent(pre),
    ensures
        edges_consistent(post),
{
    let hpre = pre.halfedges_view();
    let hpost = post.halfedges_view();
    assert forall|k: u64| #[trigger]
        post.edges_view().dom().contains(k) implies edge_ok_at(post, k) by {
        crate::arena::lemma_key_norm_idem(a);
        crate::arena::lemma_key_norm_idem(b);
        if k == e.0 {
            assert(post.edges_view()[k] == (Edge {
                halfedge_a: HalfEdgeId(a),
                halfedge_b: HalfEdgeId(b),
            }));
        } else {
            assert(pre.edges_view().dom().contains(k));
            assert(edge_ok_at(pre, k));
            let ed = pre.edges_view()[k];
            assert(post.edges_view()[k] == ed);
            assert(hpost[key_norm(ed.halfedge_a.0)] == hpre[key_norm(ed.halfedge_a.0)]);
            assert(hpost[key_norm(ed.halfedge_b.0)] == hpre[key_norm(ed.halfedge_b.0)]);
        }
    }
}

/// Edge-record consistency depends only on the edge records, the live
/// half-edge keys and their twin fields.
pub proof fn lemma_edges_depend_on_twins(m1: Mesh, m2: Mesh)
    requires
        m2.edges_view() == m1.edges_view(),
        m2.halfedges_view().dom() == m1.halfedges_view().dom(),
        forall|k: u64| #[trigger]
            m2.halfedges_view().dom().contains(k) ==> m2.halfedges_view()[k].twin
                == m1.halfedges_view()[k].twin,
        edges_consistent(m1),
    ensures
        edges_consistent(m2),
{
    assert forall|k: u64| #[trigger]
        m2.edges_view().dom().contains(k) implies edge_ok_at(m2, k) by {
        assert(edge_ok_at(m1, k));
        let ed = m1.edges_view()[k];
        assert(m2.halfedges_view()[key_norm(ed.halfedge_a.0)].twin == m1.halfedges_view()[
            key_norm(ed.halfedge_a.0)
        ].twin);
        assert(m2.halfedges_view()[key_norm(ed.halfedge_b.0)].twin == m1.halfedges_view()[
            key_norm(ed.halfedge_b.0)
        ].twin);
    }
}



/// Edge creation preserves closed face loops: faces, loops, and the
/// records of every existing half-edge are untouched.
pub proof fn lemma_make_edge_preserves_faces(
    pre: Mesh,
    post: Mesh,
    v1: VertexId,
    v2: VertexId,
    e: EdgeId,
    a: u64,
    b: u64,
)
    requires
        crate::mesh::make_edge_links(pre, post, v1, v2, e, a, b),
        faces_closed(pre),
    ensures
        faces_closed(post),
{
    assert forall|k: u64| #[trigger]
        post.faces_view().dom().contains(k) implies exists|hs: Seq<u64>|
        face_cycle_ok(post, k, hs) by {
        assert(pre.faces_view().dom().contains(k));
        let hs = choose|hs: Seq<u64>| face_cycle_ok(pre, k, hs);
        assert(face_cycle_ok(pre, k, hs));
        assert forall|i: int|
            0 <= i < hs.len() implies post.halfedges_view().dom().contains(#[trigger] hs[i])
                && post.halfedges_view()[hs[i]] == pre.halfedges_view()[hs[i]] by {
            assert(walk_step_ok(pre, hs, i, hs[0], k));
        }
        lemma_cycle_transfer(pre, post, k, hs);
    }
}

/// A mesh without half-edges, edges or faces satisfies all three
/// structural invariants; incremental construction preserves them from
/// this base case on.
pub proof fn lemma_empty_mesh_invariants(m: Mesh)
    requires
        m.halfedges_view().dom() == Set::<u64>::empty(),
        m.edges_view().dom() == Set::<u64>::empty(),
        m.faces_view().dom() == Set::<u64>::empty(),
    ensures
        twin_symmetry_ok(m),
        twins_resolve(m),
        edges_consistent(m),
        faces_closed(m),
{
}

} // verus!
