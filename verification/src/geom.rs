//! Plain geometric values carried by the kernel.
//!
//! A coordinate is stored as the 64-bit IEEE-754 bit pattern of a double,
//! carried as a `u64`. The kernel never does real arithmetic on
//! coordinates; it only stores them and compares them, through the total
//! order below, which on bit patterns of non-NaN doubles coincides with the
//! numeric order (with the negative zero ordered just below the positive
//! zero).

use vstd::prelude::*;

verus! {

/// The order key of a coordinate bit pattern: negative values (sign bit
/// set) have their bits flipped, others have the sign bit set, so that
/// unsigned comparison of keys matches the numeric order of the doubles.
pub open spec fn spec_coord_key(a: u64) -> u64 {
    if a >= 0x8000_0000_0000_0000 {
        !a
    } else {
        a | 0x8000_0000_0000_0000
    }
}

/// `a <= b` in the coordinate order.
pub open spec fn coord_le(a: u64, b: u64) -> bool {
    spec_coord_key(a) <= spec_coord_key(b)
}

/// The order key, computed.
pub fn coord_key(a: u64) -> (r: u64)
    ensures
        r == spec_coord_key(a),
{
    if a >= 0x8000_0000_0000_0000 {
        !a
    } else {
        a | 0x8000_0000_0000_0000
    }
}

/// Whether `a <= b` in the coordinate order.
pub fn coord_le_exec(a: u64, b: u64) -> (r: bool)
    ensures
        r == coord_le(a, b),
{
    coord_key(a) <= coord_key(b)
}

/// The coordinate order is total: any two coordinates compare.
pub proof fn lemma_coord_order_total(a: u64, b: u64)
    ensures
        coord_le(a, b) || coord_le(b, a),
        coord_le(a, b) && coord_le(b, a) ==> a == b,
{
    assert(spec_coord_key(a) <= spec_coord_key(b) || spec_coord_key(b) <= spec_coord_key(a));
    if coord_le(a, b) && coord_le(b, a) {
        assert(spec_coord_key(a) == spec_coord_key(b));
        assert(a == b) by (bit_vector)
            requires
                (if a >= 0x8000_0000_0000_0000 {
                    !a
                } else {
                    a | 0x8000_0000_0000_0000
                }) == (if b >= 0x8000_0000_0000_0000 {
                    !b
                } else {
                    b | 0x8000_0000_0000_0000
                }),
        ;
    }
}

/// A 3D point whose coordinates are IEEE-754 double bit patterns.
#[derive(Clone, Copy, Debug, PartialEq, Eq, Hash, Structural)]
pub struct Point3 {
    pub x: u64,
    pub y: u64,
    pub z: u64,
}

impl Point3 {
    /// A point from three coordinate bit patterns.
    pub fn new(x: u64, y: u64, z: u64) -> (r: Point3)
        ensures
            r == (Point3 { x, y, z }),
    {
        Point3 { x, y, z }
    }

    /// The origin: every coordinate is the bit pattern of positive zero.
    pub fn origin() -> (r: Point3)
        ensures
            r == (Point3 { x: 0u64, y: 0u64, z: 0u64 }),
    {
        Point3 { x: 0, y: 0, z: 0 }
    }
}

} // verus!
