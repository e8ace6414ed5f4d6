//! Cross-cutting capabilities: structural validation and bounding boxes,
//! implemented by the mesh and usable generically by callers that need
//! either without knowing the concrete entity type.

use vstd::prelude::*;
use crate::error::CstError;
use crate::geom::Point3;
use crate::mesh::Mesh;

verus! {

/// Validate the structural integrity of a geometric or topological
/// entity.
pub trait Validate {
    fn validate(&self) -> Result<(), CstError>;
}

/// Compute an axis-aligned bounding box as a `(min, max)` point pair.
pub trait BoundingBox {
    type Point;

    fn bounding_box(&self) -> (Self::Point, Self::Point);
}

impl Validate for Mesh {
    fn validate(&self) -> Result<(), CstError> {
        Mesh::validate(self)
    }
}

impl BoundingBox for Mesh {
    type Point = Point3;

    fn bounding_box(&self) -> (Point3, Point3) {
        Mesh::bounding_box(self)
    }
}

} // verus!
