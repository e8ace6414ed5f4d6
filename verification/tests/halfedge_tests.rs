use cst_kernel::geom::Point3;
use cst_kernel::mesh::Mesh;
use cst_kernel::types::{EdgeId, VertexId};
use cst_kernel::traits::{BoundingBox, Validate};
use slotmap::Key;

fn dvec3(x: f64, y: f64, z: f64) -> Point3 {
    Point3::new(x.to_bits(), y.to_bits(), z.to_bits())
}

fn make_triangle_mesh() -> (Mesh, VertexId, VertexId, VertexId) {
    let mut mesh = Mesh::new();
    let v0 = mesh.add_vertex(dvec3(0.0, 0.0, 0.0));
    let v1 = mesh.add_vertex(dvec3(1.0, 0.0, 0.0));
    let v2 = mesh.add_vertex(dvec3(0.0, 1.0, 0.0));
    (mesh, v0, v1, v2)
}

#[test]
fn test_single_triangle_creation() {
    let (mut mesh, v0, v1, v2) = make_triangle_mesh();
    let _face_id = mesh.make_triangle(v0, v1, v2).unwrap();

    assert_eq!(mesh.vertex_count(), 3);
    assert_eq!(mesh.face_count(), 1);
    assert_eq!(mesh.edge_count(), 3);
    assert_eq!(mesh.halfedge_count(), 6);

    mesh.validate().unwrap();
}

#[test]
fn test_triangle_face_halfedge_traversal() {
    let (mut mesh, v0, v1, v2) = make_triangle_mesh();
    let face_id = mesh.make_triangle(v0, v1, v2).unwrap();

    let halfedges = mesh.face_halfedges(face_id).unwrap();
    assert_eq!(halfedges.len(), 3);

    for &he_id in &halfedges {
        assert_eq!(mesh.halfedge(he_id).unwrap().face, Some(face_id));
    }
}

#[test]
fn test_triangle_face_vertex_traversal() {
    let (mut mesh, v0, v1, v2) = make_triangle_mesh();
    let face_id = mesh.make_triangle(v0, v1, v2).unwrap();

    let vertices = mesh.face_vertices(face_id).unwrap();
    assert_eq!(vertices.len(), 3);

    assert!(vertices.contains(&v0));
    assert!(vertices.contains(&v1));
    assert!(vertices.contains(&v2));
}

#[test]
fn test_quad_face_creation() {
    let mut mesh = Mesh::new();
    let v0 = mesh.add_vertex(dvec3(0.0, 0.0, 0.0));
    let v1 = mesh.add_vertex(dvec3(1.0, 0.0, 0.0));
    let v2 = mesh.add_vertex(dvec3(1.0, 1.0, 0.0));
    let v3 = mesh.add_vertex(dvec3(0.0, 1.0, 0.0));

    let face_id = mesh.make_face(&[v0, v1, v2, v3]).unwrap();

    assert_eq!(mesh.vertex_count(), 4);
    assert_eq!(mesh.face_count(), 1);
    assert_eq!(mesh.edge_count(), 4);
    assert_eq!(mesh.halfedge_count(), 8);

    let vertices = mesh.face_vertices(face_id).unwrap();
    assert_eq!(vertices.len(), 4);

    mesh.validate().unwrap();
}

#[test]
fn test_two_adjacent_triangles_shared_edge() {
    let mut mesh = Mesh::new();
    let v0 = mesh.add_vertex(dvec3(0.0, 0.0, 0.0));
    let v1 = mesh.add_vertex(dvec3(1.0, 0.0, 0.0));
    let v2 = mesh.add_vertex(dvec3(0.5, 1.0, 0.0));
    let v3 = mesh.add_vertex(dvec3(0.5, -1.0, 0.0));

    let f1 = mesh.make_face(&[v0, v1, v2]).unwrap();
    let f2 = mesh.make_face(&[v1, v0, v3]).unwrap();

    assert_eq!(mesh.vertex_count(), 4);
    assert_eq!(mesh.face_count(), 2);
    // 3 edges for the first triangle + 2 new edges for the second = 5.
    assert_eq!(mesh.edge_count(), 5);
    assert_eq!(mesh.halfedge_count(), 10);

    let mut shared_edge = None;
    for (edge_key, _) in mesh.edges.0.iter() {
        let edge_id = EdgeId(edge_key.data().as_ffi());
        let (fa, fb) = mesh.edge_faces(edge_id);
        if fa.is_some() && fb.is_some() {
            shared_edge = Some(edge_id);
            break;
        }
    }
    assert!(shared_edge.is_some(), "Should have a shared edge");

    let (fa, fb) = mesh.edge_faces(shared_edge.unwrap());
    let faces = vec![fa.unwrap(), fb.unwrap()];
    assert!(faces.contains(&f1));
    assert!(faces.contains(&f2));

    mesh.validate().unwrap();
}

#[test]
fn test_face_vertices_in_winding_order() {
    let mut mesh = Mesh::new();
    let v0 = mesh.add_vertex(dvec3(0.0, 0.0, 0.0));
    let v1 = mesh.add_vertex(dvec3(1.0, 0.0, 0.0));
    let v2 = mesh.add_vertex(dvec3(1.0, 1.0, 0.0));
    let v3 = mesh.add_vertex(dvec3(0.0, 1.0, 0.0));
    let face_id = mesh.make_face(&[v0, v1, v2, v3]).unwrap();

    // The walk starts at the loop head, which is the half-edge of the
    // first vertex pair, so the vertices come back in winding order.
    let vertices = mesh.face_vertices(face_id).unwrap();
    assert_eq!(vertices, vec![v0, v1, v2, v3]);
}

#[test]
fn test_vertex_outgoing_iteration() {
    let (mut mesh, v0, v1, v2) = make_triangle_mesh();
    let _face_id = mesh.make_triangle(v0, v1, v2).unwrap();

    let outgoing = mesh.vertex_outgoing(v0).unwrap();
    assert!(!outgoing.is_empty());
    assert!(outgoing.len() >= 1);
}

#[test]
fn test_halfedge_target() {
    let (mut mesh, v0, v1, v2) = make_triangle_mesh();
    let _face_id = mesh.make_triangle(v0, v1, v2).unwrap();

    let he_id = mesh.vertex(v0).unwrap().halfedge.unwrap();
    let origin = mesh.halfedge(he_id).unwrap().origin;
    assert_eq!(origin, v0);

    let target = mesh.halfedge_target(he_id).unwrap();
    assert!(target == v1 || target == v2);
}

#[test]
fn test_validate_passes_for_valid_mesh() {
    let (mut mesh, v0, v1, v2) = make_triangle_mesh();
    mesh.make_triangle(v0, v1, v2).unwrap();
    assert!(mesh.validate().is_ok());
}

#[test]
fn test_validate_fails_for_broken_twin() {
    let (mut mesh, v0, v1, v2) = make_triangle_mesh();
    mesh.make_triangle(v0, v1, v2).unwrap();

    // Break twin symmetry by corrupting a half-edge. The edge record
    // still references both half-edges as twins, so validation must
    // reject the mesh.
    let first_he = mesh.halfedges.0.keys().next().unwrap();
    mesh.halfedges.0[first_he].twin = None;

    let result = mesh.validate();
    assert!(result.is_err());
}

#[test]
fn test_bounding_box() {
    let mut mesh = Mesh::new();
    mesh.add_vertex(dvec3(1.0, 2.0, 3.0));
    mesh.add_vertex(dvec3(-1.0, -2.0, -3.0));
    mesh.add_vertex(dvec3(5.0, 0.0, 1.0));

    let (min, max) = mesh.bounding_box();
    assert_eq!(min, dvec3(-1.0, -2.0, -3.0));
    assert_eq!(max, dvec3(5.0, 2.0, 3.0));
}

#[test]
fn test_bounding_box_empty_mesh() {
    let mesh = Mesh::new();
    let (min, max) = mesh.bounding_box();
    assert_eq!(min, Point3::origin());
    assert_eq!(max, Point3::origin());
}

#[test]
fn test_make_face_too_few_vertices() {
    let mut mesh = Mesh::new();
    let v0 = mesh.add_vertex(dvec3(0.0, 0.0, 0.0));
    let v1 = mesh.add_vertex(dvec3(1.0, 0.0, 0.0));

    let result = mesh.make_face(&[v0, v1]);
    assert!(result.is_err());
}

#[test]
fn test_edge_faces_boundary_edge() {
    let (mut mesh, v0, v1, v2) = make_triangle_mesh();
    mesh.make_triangle(v0, v1, v2).unwrap();

    // In a single triangle, all edges are boundary edges: one half-edge
    // has a face, the twin does not.
    for (edge_key, _) in mesh.edges.0.iter() {
        let (fa, fb) = mesh.edge_faces(EdgeId(edge_key.data().as_ffi()));
        assert!(
            (fa.is_some() && fb.is_none()) || (fa.is_none() && fb.is_some()),
            "Boundary edge should have exactly one face"
        );
    }
}

#[test]
fn test_make_edge_standalone() {
    let mut mesh = Mesh::new();
    let v0 = mesh.add_vertex(dvec3(0.0, 0.0, 0.0));
    let v1 = mesh.add_vertex(dvec3(1.0, 0.0, 0.0));

    let edge_id = mesh.make_edge(v0, v1).unwrap();
    assert_eq!(mesh.edge_count(), 1);
    assert_eq!(mesh.halfedge_count(), 2);

    let edge = mesh.edge(edge_id).unwrap();
    let he_a = mesh.halfedge(edge.halfedge_a).unwrap();
    let he_b = mesh.halfedge(edge.halfedge_b).unwrap();

    assert_eq!(he_a.origin, v0);
    assert_eq!(he_b.origin, v1);
    assert_eq!(he_a.twin, Some(edge.halfedge_b));
    assert_eq!(he_b.twin, Some(edge.halfedge_a));
}
