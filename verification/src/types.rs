//! Entity records and handles of the half-edge mesh.
//!
//! Every entity lives in a generation-checked slot table owned by the mesh
//! and is referenced by an opaque handle, never by address. A handle wraps
//! the 64-bit encoding of a slot key (index and generation), so a stale or
//! foreign handle is detected on lookup instead of dangling.

use vstd::prelude::*;
use crate::geom::Point3;

verus! {

/// Handle of a vertex.
#[derive(Clone, Copy, Debug, PartialEq, Eq, Hash, Structural)]
pub struct VertexId(pub u64);

/// Handle of a half-edge.
#[derive(Clone, Copy, Debug, PartialEq, Eq, Hash, Structural)]
pub struct HalfEdgeId(pub u64);

/// Handle of an edge.
#[derive(Clone, Copy, Debug, PartialEq, Eq, Hash, Structural)]
pub struct EdgeId(pub u64);

/// Handle of a loop.
#[derive(Clone, Copy, Debug, PartialEq, Eq, Hash, Structural)]
pub struct LoopId(pub u64);

/// Handle of a face.
#[derive(Clone, Copy, Debug, PartialEq, Eq, Hash, Structural)]
pub struct FaceId(pub u64);

/// Handle of a shell.
#[derive(Clone, Copy, Debug, PartialEq, Eq, Hash, Structural)]
pub struct ShellId(pub u64);

/// Handle of a solid.
#[derive(Clone, Copy, Debug, PartialEq, Eq, Hash, Structural)]
pub struct SolidId(pub u64);

/// A vertex: a position plus one outgoing half-edge, or none if isolated.
#[derive(Clone, Copy, Debug, PartialEq, Eq, Structural)]
pub struct Vertex {
    pub position: Point3,
    pub halfedge: Option<HalfEdgeId>,
}

/// A directed half-edge. `twin` is the oppositely directed half-edge of
/// the same undirected edge; `next`/`prev` chain the cyclic loop of the
/// owning face. Absent relations are legitimate boundary states.
#[derive(Clone, Copy, Debug, PartialEq, Eq, Structural)]
pub struct HalfEdge {
    pub origin: VertexId,
    pub twin: Option<HalfEdgeId>,
    pub next: Option<HalfEdgeId>,
    pub prev: Option<HalfEdgeId>,
    pub face: Option<FaceId>,
    pub edge: Option<EdgeId>,
    pub loop_id: Option<LoopId>,
}

/// An undirected edge: its two half-edges, which must be mutual twins.
#[derive(Clone, Copy, Debug, PartialEq, Eq, Structural)]
pub struct Edge {
    pub halfedge_a: HalfEdgeId,
    pub halfedge_b: HalfEdgeId,
}

/// A loop: the half-edge that starts its cyclic traversal, and the face
/// that owns it.
#[derive(Clone, Copy, Debug, PartialEq, Eq, Structural)]
pub struct Loop {
    pub halfedge: HalfEdgeId,
    pub face: Option<FaceId>,
}

/// A face: one outer loop, zero or more inner (hole) loops, and an
/// orientation-reversed flag.
#[derive(Clone, Debug, PartialEq, Eq)]
pub struct Face {
    pub outer_loop: LoopId,
    pub inner_loops: Vec<LoopId>,
    pub surface_reversed: bool,
}

/// A shell: a collection of faces. A minimal structural placeholder.
#[derive(Clone, Debug, PartialEq, Eq)]
pub struct Shell {
    pub faces: Vec<FaceId>,
}

/// A solid: an outer shell and inner (void) shells. A minimal structural
/// placeholder.
#[derive(Clone, Debug, PartialEq, Eq)]
pub struct Solid {
    pub outer_shell: ShellId,
    pub inner_shells: Vec<ShellId>,
}

} // verus!
