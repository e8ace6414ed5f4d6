//! The geometric/topological kernel of a boundary-representation
//! modelling engine: a half-edge mesh built incrementally under
//! structural invariants, with full-structure validation, traversal and
//! bounding boxes; knot-span location for B-spline evaluation; and the
//! exact record-parsing and reference-resolution layer that turns
//! interchange-file records into kernel data. Floating-point evaluation,
//! file I/O and rendering live outside the kernel and consume these
//! contracts.

pub mod arena;
pub mod bounding;
pub mod encode;
pub mod error;
pub mod geom;
pub mod ifc_entities;
pub mod ifc_reader;
pub mod ifc_resolve;
pub mod ifc_spatial;
pub mod iter;
pub mod knot;
pub mod mesh;
pub mod text;
pub mod traits;
pub mod triangulate;
pub mod types;
pub mod validate;
