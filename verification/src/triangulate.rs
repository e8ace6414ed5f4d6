//! Fan triangulation of a convex polygon.

use vstd::prelude::*;
use crate::ifc_entities::DecVec3;

verus! {

/// Triangulates a convex polygon by fanning from its first vertex: a
/// polygon of `n >= 3` vertices yields the `n - 2` index triples
/// `(0, i, i+1)`; fewer vertices yield none.
pub fn fan_triangulate(vertices: &[DecVec3]) -> (r: Vec<[usize; 3]>)
    ensures
        vertices@.len() < 3 ==> r@.len() == 0,
        vertices@.len() >= 3 ==> r@.len() == vertices@.len() - 2,
        forall|j: int|
            0 <= j < r@.len() ==> (#[trigger] r@[j])@ =~= seq![
                0usize,
                (j + 1) as usize,
                (j + 2) as usize,
            ],
{
    fan_indices(vertices.len())
}

/// The fan-triangulation index triples for a polygon of `count`
/// vertices: `(0, i, i+1)` for each interior position, none for fewer
/// than three vertices.
#[verifier::loop_isolation(false)]
pub fn fan_indices(count: usize) -> (r: Vec<[usize; 3]>)
    ensures
        count < 3 ==> r@.len() == 0,
        count >= 3 ==> r@.len() == count - 2,
        forall|j: int|
            0 <= j < r@.len() ==> (#[trigger] r@[j])@ =~= seq![
                0usize,
                (j + 1) as usize,
                (j + 2) as usize,
            ],
{
    let n = count;
    if n < 3 {
        return Vec::new();
    }
    let mut triangles: Vec<[usize; 3]> = Vec::new();
    let mut i: usize = 1;
    while i < n - 1
        invariant
            1 <= i <= n - 1,
            triangles@.len() == i - 1,
            forall|j: int|
                0 <= j < triangles@.len() ==> (#[trigger] triangles@[j])@ =~= seq![
                    0usize,
                    (j + 1) as usize,
                    (j + 2) as usize,
                ],
        decreases n - 1 - i,
    {
        let tri: [usize; 3] = [0, i, i + 1];
        triangles.push(tri);
        i += 1;
    }
    triangles
}

} // verus!
