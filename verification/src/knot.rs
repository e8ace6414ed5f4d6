//! Knot-vector math: span location.
//!
//! A knot vector is a non-decreasing sequence of coordinates (IEEE-754
//! double bit patterns under the total order of `geom`). `find_span`
//! locates the half-open span `[knots[i], knots[i+1])` containing a
//! parameter, with the boundary snapping the de Boor evaluation schemes
//! rely on: parameters at or below `knots[degree]` snap to `degree`,
//! parameters at or above `knots[n+1]` snap to `n`.

use vstd::prelude::*;
use crate::geom::{coord_le, coord_le_exec, lemma_coord_order_total};

verus! {

/// The knot vector is non-decreasing in the coordinate order.
pub open spec fn knots_sorted(knots: Seq<u64>) -> bool {
    forall|i: int, j: int|
        0 <= i <= j < knots.len() ==> coord_le(#[trigger] knots[i], #[trigger] knots[j])
}

/// Returns the index `r` with `knots[r] <= t < knots[r+1]` in the
/// coordinate order, `degree <= r <= n`, snapping to `degree` at or
/// below the lower boundary and to `n` at or above the upper boundary.
/// `n` is the number of control points minus one.
#[verifier::loop_isolation(false)]
pub fn find_span(degree: usize, knots: &[u64], n: usize, t: u64) -> (r: usize)
    requires
        degree <= n,
        n + 2 <= knots@.len(),
        knots_sorted(knots@),
    ensures
        degree <= r <= n,
        coord_le(knots@[n + 1], t) ==> r == n,
        !coord_le(knots@[n + 1], t) && coord_le(t, knots@[degree as int]) ==> r == degree,
        !coord_le(knots@[n + 1], t) && !coord_le(t, knots@[degree as int]) ==> coord_le(
            knots@[r as int],
            t,
        ) && !coord_le(knots@[r as int + 1], t),
{
    // An exec length read bounds the knot count by the machine word, so
    // the index arithmetic below cannot overflow.
    let klen = knots.len();
    proof {
        assert(n + 1 < klen);
    }
    if coord_le_exec(knots[n + 1], t) {
        return n;
    }
    if coord_le_exec(t, knots[degree]) {
        return degree;
    }
    proof {
        lemma_coord_order_total(t, knots@[degree as int]);
        lemma_coord_order_total(knots@[n + 1], t);
    }

    let mut low = degree;
    let mut high = n + 1;
    let mut mid = low + (high - low) / 2;
    while !coord_le_exec(knots[mid], t) || coord_le_exec(knots[mid + 1], t)
        invariant
            degree <= low < high <= n + 1,
            mid == low + (high - low) / 2,
            low <= mid < high,
            coord_le(knots@[low as int], t),
            !coord_le(knots@[high as int], t),
        decreases high - low,
    {
        if !coord_le_exec(knots[mid], t) {
            proof {
                lemma_coord_order_total(knots@[mid as int], t);
                assert(mid > low);
            }
            high = mid;
        } else {
            proof {
                if high == low + 1 {
                    assert(mid == low);
                    assert(coord_le(knots@[mid + 1], t));
                    assert(false);
                }
            }
            low = mid;
        }
        mid = low + (high - low) / 2;
    }
    proof {
        lemma_coord_order_total(knots@[mid + 1], t);
    }
    mid
}

} // verus!
