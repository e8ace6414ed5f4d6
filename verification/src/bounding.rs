//! Axis-aligned bounds of a mesh.
//!
//! The bounds are the componentwise least and greatest vertex coordinates
//! under the coordinate order of `geom` (which coincides with numeric
//! order on bit patterns of non-NaN doubles). An empty mesh reports a
//! degenerate box at the origin.

use vstd::prelude::*;
use crate::geom::{coord_le, coord_le_exec, Point3};
use crate::mesh::Mesh;

verus! {

/// The coordinate of `p` on axis `a` (`0` = x, `1` = y, `2` = z).
pub open spec fn axis_of(p: Point3, a: int) -> u64 {
    if a == 0 {
        p.x
    } else if a == 1 {
        p.y
    } else {
        p.z
    }
}

/// `c` is, on axis `a`, at or below every vertex of `m`.
pub open spec fn lower_bound_on(m: Mesh, a: int, c: u64) -> bool {
    forall|k: u64| #[trigger]
        m.vertices_view().dom().contains(k) ==> coord_le(
            c,
            axis_of(m.vertices_view()[k].position, a),
        )
}

/// `c` is, on axis `a`, at or above every vertex of `m`.
pub open spec fn upper_bound_on(m: Mesh, a: int, c: u64) -> bool {
    forall|k: u64| #[trigger]
        m.vertices_view().dom().contains(k) ==> coord_le(
            axis_of(m.vertices_view()[k].position, a),
            c,
        )
}

/// Some vertex of `m` has coordinate `c` on axis `a`.
pub open spec fn attained_on(m: Mesh, a: int, c: u64) -> bool {
    exists|k: u64| #[trigger]
        m.vertices_view().dom().contains(k) && axis_of(m.vertices_view()[k].position, a) == c
}

impl Mesh {
    /// The axis-aligned bounds `(min, max)` over all vertex positions:
    /// on every axis the reported coordinates bound every vertex and are
    /// attained by one. An empty mesh reports `(origin, origin)`.
    #[verifier::loop_isolation(false)]
    pub fn bounding_box(&self) -> (r: (Point3, Point3))
        ensures
            self.vertices_view().dom().len() == 0 ==> r == (
                (Point3 { x: 0u64, y: 0u64, z: 0u64 }),
                (Point3 { x: 0u64, y: 0u64, z: 0u64 }),
            ),
            self.vertices_view().dom().len() > 0 ==> forall|a: int|
                0 <= a < 3 ==> #[trigger] lower_bound_on(*self, a, axis_of(r.0, a))
                    && upper_bound_on(*self, a, axis_of(r.1, a)) && attained_on(
                    *self,
                    a,
                    axis_of(r.0, a),
                ) && attained_on(*self, a, axis_of(r.1, a)),
    {
        let vs = self.vertices.entries();
        if vs.len() == 0 {
            return (Point3::origin(), Point3::origin());
        }

        let first = vs[0].1.position;
        let mut mn = first;
        let mut mx = first;
        let ghost wit0 = vs@[0].0;
        let ghost mut wits_mn: (u64, u64, u64) = (wit0, wit0, wit0);
        let ghost mut wits_mx: (u64, u64, u64) = (wit0, wit0, wit0);
        let mut i: usize = 1;
        while i < vs.len()
            invariant
                1 <= i <= vs@.len(),
                forall|j: int, a: int|
                    #![trigger axis_of(vs@[j].1.position, a)]
                    0 <= j < i && 0 <= a < 3 ==> coord_le(
                        axis_of(mn, a),
                        axis_of(vs@[j].1.position, a),
                    ) && coord_le(axis_of(vs@[j].1.position, a), axis_of(mx, a)),
                self.vertices_view().dom().contains(wits_mn.0) && self.vertices_view()[wits_mn.0].position.x == mn.x,
                self.vertices_view().dom().contains(wits_mn.1) && self.vertices_view()[wits_mn.1].position.y == mn.y,
                self.vertices_view().dom().contains(wits_mn.2) && self.vertices_view()[wits_mn.2].position.z == mn.z,
                self.vertices_view().dom().contains(wits_mx.0) && self.vertices_view()[wits_mx.0].position.x == mx.x,
                self.vertices_view().dom().contains(wits_mx.1) && self.vertices_view()[wits_mx.1].position.y == mx.y,
                self.vertices_view().dom().contains(wits_mx.2) && self.vertices_view()[wits_mx.2].position.z == mx.z,
            decreases vs@.len() - i,
        {
            let p = vs[i].1.position;
            let ghost w = vs@[i as int].0;
            if coord_le_exec(p.x, mn.x) {
                mn.x = p.x;
                proof {
                    wits_mn = (w, wits_mn.1, wits_mn.2);
                }
            }
            if coord_le_exec(p.y, mn.y) {
                mn.y = p.y;
                proof {
                    wits_mn = (wits_mn.0, w, wits_mn.2);
                }
            }
            if coord_le_exec(p.z, mn.z) {
                mn.z = p.z;
                proof {
                    wits_mn = (wits_mn.0, wits_mn.1, w);
                }
            }
            if coord_le_exec(mx.x, p.x) {
                mx.x = p.x;
                proof {
                    wits_mx = (w, wits_mx.1, wits_mx.2);
                }
            }
            if coord_le_exec(mx.y, p.y) {
                mx.y = p.y;
                proof {
                    wits_mx = (wits_mx.0, w, wits_mx.2);
                }
            }
            if coord_le_exec(mx.z, p.z) {
                mx.z = p.z;
                proof {
                    wits_mx = (wits_mx.0, wits_mx.1, w);
                }
            }
            proof {
                assert forall|j: int, a: int|
                    #![trigger axis_of(vs@[j].1.position, a)]
                    0 <= j < i + 1 && 0 <= a < 3 implies coord_le(
                    axis_of(mn, a),
                    axis_of(vs@[j].1.position, a),
                ) && coord_le(axis_of(vs@[j].1.position, a), axis_of(mx, a)) by {
                    crate::geom::lemma_coord_order_total(axis_of(mn, a), axis_of(vs@[j].1.position, a));
                    crate::geom::lemma_coord_order_total(axis_of(vs@[j].1.position, a), axis_of(mx, a));
                }
            }
            i += 1;
        }

        proof {
            assert forall|a: int| 0 <= a < 3 implies #[trigger] lower_bound_on(
                *self,
                a,
                axis_of(mn, a),
            ) && upper_bound_on(*self, a, axis_of(mx, a)) && attained_on(*self, a, axis_of(mn, a))
                && attained_on(*self, a, axis_of(mx, a)) by {
                assert forall|k: u64| #[trigger]
                    self.vertices_view().dom().contains(k) implies coord_le(
                    axis_of(mn, a),
                    axis_of(self.vertices_view()[k].position, a),
                ) && coord_le(axis_of(self.vertices_view()[k].position, a), axis_of(mx, a)) by {
                    let j = choose|j: int| 0 <= j < vs@.len() && vs@[j].0 == k;
                    assert(0 <= j < vs@.len() && vs@[j].0 == k);
                    assert(coord_le(axis_of(mn, a), axis_of(vs@[j].1.position, a)));
                }
                if a == 0 {
                    assert(self.vertices_view().dom().contains(wits_mn.0)
                        && axis_of(self.vertices_view()[wits_mn.0].position, a) == axis_of(mn, a));
                    assert(self.vertices_view().dom().contains(wits_mx.0)
                        && axis_of(self.vertices_view()[wits_mx.0].position, a) == axis_of(mx, a));
                } else if a == 1 {
                    assert(self.vertices_view().dom().contains(wits_mn.1)
                        && axis_of(self.vertices_view()[wits_mn.1].position, a) == axis_of(mn, a));
                    assert(self.vertices_view().dom().contains(wits_mx.1)
                        && axis_of(self.vertices_view()[wits_mx.1].position, a) == axis_of(mx, a));
                } else {
                    assert(self.vertices_view().dom().contains(wits_mn.2)
                        && axis_of(self.vertices_view()[wits_mn.2].position, a) == axis_of(mn, a));
                    assert(self.vertices_view().dom().contains(wits_mx.2)
                        && axis_of(self.vertices_view()[wits_mx.2].position, a) == axis_of(mx, a));
                }
            }
        }
        (mn, mx)
    }
}

} // verus!
