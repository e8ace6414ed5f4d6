//! Entity-level values resolved from interchange records.
//!
//! Geometry read from records is kept exactly: a vector is a triple of
//! `Decimal` coordinates, and a placement or transform holds such
//! vectors together with its defaults. Turning these exact values into
//! machine floating point is the caller's concern, outside this kernel.

use vstd::prelude::*;
use crate::text::Decimal;

verus! {

/// A 3-vector of exact decimal coordinates.
#[derive(Clone, Copy, Debug, PartialEq, Eq, Structural)]
pub struct DecVec3 {
    pub x: Decimal,
    pub y: Decimal,
    pub z: Decimal,
}

/// The zero vector.
pub open spec fn spec_dec_zero() -> DecVec3 {
    DecVec3 {
        x: Decimal { neg: false, mant: 0u64, exp: 0i64 },
        y: Decimal { neg: false, mant: 0u64, exp: 0i64 },
        z: Decimal { neg: false, mant: 0u64, exp: 0i64 },
    }
}

/// The unit vector along x.
pub open spec fn spec_dec_x() -> DecVec3 {
    DecVec3 {
        x: Decimal { neg: false, mant: 1u64, exp: 0i64 },
        y: Decimal { neg: false, mant: 0u64, exp: 0i64 },
        z: Decimal { neg: false, mant: 0u64, exp: 0i64 },
    }
}

/// The unit vector along y.
pub open spec fn spec_dec_y() -> DecVec3 {
    DecVec3 {
        x: Decimal { neg: false, mant: 0u64, exp: 0i64 },
        y: Decimal { neg: false, mant: 1u64, exp: 0i64 },
        z: Decimal { neg: false, mant: 0u64, exp: 0i64 },
    }
}

/// The unit vector along z.
pub open spec fn spec_dec_z() -> DecVec3 {
    DecVec3 {
        x: Decimal { neg: false, mant: 0u64, exp: 0i64 },
        y: Decimal { neg: false, mant: 0u64, exp: 0i64 },
        z: Decimal { neg: false, mant: 1u64, exp: 0i64 },
    }
}

impl DecVec3 {
    /// The zero vector, computed.
    pub fn zero() -> (r: DecVec3)
        ensures
            r == spec_dec_zero(),
    {
        DecVec3 { x: Decimal::zero(), y: Decimal::zero(), z: Decimal::zero() }
    }

    /// The unit x vector, computed.
    pub fn unit_x() -> (r: DecVec3)
        ensures
            r == spec_dec_x(),
    {
        DecVec3 { x: Decimal::one(), y: Decimal::zero(), z: Decimal::zero() }
    }

    /// The unit y vector, computed.
    pub fn unit_y() -> (r: DecVec3)
        ensures
            r == spec_dec_y(),
    {
        DecVec3 { x: Decimal::zero(), y: Decimal::one(), z: Decimal::zero() }
    }

    /// The unit z vector, computed.
    pub fn unit_z() -> (r: DecVec3)
        ensures
            r == spec_dec_z(),
    {
        DecVec3 { x: Decimal::zero(), y: Decimal::zero(), z: Decimal::one() }
    }
}

/// An axis placement: a location, the local z axis, and the local x
/// reference direction, with the conventional defaults.
#[derive(Clone, Copy, Debug, PartialEq, Eq, Structural)]
pub struct IfcAxis2Placement3D {
    pub location: DecVec3,
    pub axis: DecVec3,
    pub ref_direction: DecVec3,
}

/// The default placement: origin location, z axis, x reference.
pub open spec fn spec_default_placement() -> IfcAxis2Placement3D {
    IfcAxis2Placement3D {
        location: spec_dec_zero(),
        axis: spec_dec_z(),
        ref_direction: spec_dec_x(),
    }
}

impl Default for IfcAxis2Placement3D {
    /// The default placement: origin, z axis, x reference direction.
    fn default() -> (r: IfcAxis2Placement3D)
        ensures
            r == spec_default_placement(),
    {
        IfcAxis2Placement3D {
            location: DecVec3::zero(),
            axis: DecVec3::unit_z(),
            ref_direction: DecVec3::unit_x(),
        }
    }
}

/// A Cartesian transform read from a record: three axes, an origin and
/// a scale, with the conventional defaults.
#[derive(Clone, Copy, Debug, PartialEq, Eq, Structural)]
pub struct IfcCartesianTransform {
    pub axis1: DecVec3,
    pub axis2: DecVec3,
    pub axis3: DecVec3,
    pub origin: DecVec3,
    pub scale: Decimal,
}

/// The identity transform: unit axes, origin location, unit scale.
pub open spec fn spec_identity_transform() -> IfcCartesianTransform {
    IfcCartesianTransform {
        axis1: spec_dec_x(),
        axis2: spec_dec_y(),
        axis3: spec_dec_z(),
        origin: spec_dec_zero(),
        scale: Decimal { neg: false, mant: 1u64, exp: 0i64 },
    }
}

/// Face data resolved from records: an outer boundary and zero or more
/// hole boundaries, each an ordered point list.
#[derive(Debug, Clone)]
pub struct IfcFaceData {
    pub outer: Vec<DecVec3>,
    pub holes: Vec<Vec<DecVec3>>,
}

} // verus!
