use std::collections::HashMap;
use cst_kernel::encode::base64_encode;
use cst_kernel::error::CstError;
use cst_kernel::geom::Point3;
use cst_kernel::ifc_entities::{DecVec3, IfcAxis2Placement3D};
use cst_kernel::ifc_reader::{parse_entity_line, parse_real_list, IfcRawEntity};
use cst_kernel::ifc_resolve::resolve_cartesian_transform_operator;
use cst_kernel::knot::find_span;
use cst_kernel::mesh::Mesh;
use cst_kernel::text::Decimal;
use cst_kernel::triangulate::fan_triangulate;
use cst_kernel::types::{EdgeId, VertexId};

/// The numeric value a `Decimal` denotes.
fn dec(d: Decimal) -> f64 {
    let m = d.mant as f64 * if d.neg { -1.0 } else { 1.0 };
    m * 10f64.powi(d.exp as i32)
}

fn raw(id: u64, ty: &str, args: &str) -> IfcRawEntity {
    IfcRawEntity { entity_id: id, entity_type: ty.to_string(), raw_args: args.to_string() }
}

fn dvec3(x: f64, y: f64, z: f64) -> Point3 {
    Point3::new(x.to_bits(), y.to_bits(), z.to_bits())
}

#[test]
fn test_default_placement() {
    let p = IfcAxis2Placement3D::default();
    assert_eq!(dec(p.location.x), 0.0);
    assert_eq!(dec(p.location.y), 0.0);
    assert_eq!(dec(p.location.z), 0.0);
    assert_eq!(dec(p.axis.x), 0.0);
    assert_eq!(dec(p.axis.y), 0.0);
    assert_eq!(dec(p.axis.z), 1.0);
    assert_eq!(dec(p.ref_direction.x), 1.0);
    assert_eq!(dec(p.ref_direction.y), 0.0);
    assert_eq!(dec(p.ref_direction.z), 0.0);
}

#[test]
fn test_fan_triangulate_quad() {
    let vertices = vec![
        DecVec3 { x: Decimal::zero(), y: Decimal::zero(), z: Decimal::zero() },
        DecVec3 { x: Decimal::one(), y: Decimal::zero(), z: Decimal::zero() },
        DecVec3 { x: Decimal::one(), y: Decimal::one(), z: Decimal::zero() },
        DecVec3 { x: Decimal::zero(), y: Decimal::one(), z: Decimal::zero() },
    ];

    let tris = fan_triangulate(&vertices);

    assert_eq!(tris.len(), 2);
    assert_eq!(tris[0], [0, 1, 2]);
    assert_eq!(tris[1], [0, 2, 3]);
}

#[test]
fn test_fan_triangulate_triangle_and_degenerate() {
    let v = DecVec3 { x: Decimal::zero(), y: Decimal::zero(), z: Decimal::zero() };
    assert_eq!(fan_triangulate(&[v, v, v]).len(), 1);
    assert_eq!(fan_triangulate(&[v, v]).len(), 0);
    assert_eq!(fan_triangulate(&[]).len(), 0);
}

#[test]
fn test_find_span_uniform() {
    // Degree 2, 5 control points, uniform knot vector.
    let knots: Vec<u64> = [0.0f64, 0.0, 0.0, 1.0, 2.0, 3.0, 3.0, 3.0]
        .iter()
        .map(|x| x.to_bits())
        .collect();
    let n = 4;
    let degree = 2;

    assert_eq!(find_span(degree, &knots, n, (0.0f64).to_bits()), 2);
    assert_eq!(find_span(degree, &knots, n, (0.5f64).to_bits()), 2);
    assert_eq!(find_span(degree, &knots, n, (1.0f64).to_bits()), 3);
    assert_eq!(find_span(degree, &knots, n, (1.5f64).to_bits()), 3);
    assert_eq!(find_span(degree, &knots, n, (2.5f64).to_bits()), 4);
    assert_eq!(find_span(degree, &knots, n, (3.0f64).to_bits()), 4);
}

#[test]
fn test_find_span_clamps_out_of_range() {
    let knots: Vec<u64> = [0.0f64, 0.0, 0.0, 1.0, 1.0, 1.0]
        .iter()
        .map(|x| x.to_bits())
        .collect();
    // Degree 2, 3 control points.
    assert_eq!(find_span(2, &knots, 2, (-5.0f64).to_bits()), 2);
    assert_eq!(find_span(2, &knots, 2, (7.0f64).to_bits()), 2);
}

#[test]
fn test_base64_encode_padding_cases() {
    assert_eq!(base64_encode(b""), "");
    assert_eq!(base64_encode(b"f"), "Zg==");
    assert_eq!(base64_encode(b"fo"), "Zm8=");
    assert_eq!(base64_encode(b"foo"), "Zm9v");
    assert_eq!(base64_encode(b"foobar"), "Zm9vYmFy");
}

#[test]
fn test_base64_encode_binary() {
    let data: Vec<u8> = vec![0, 255, 128, 64];
    assert_eq!(base64_encode(&data), "AP+AQA==");
}

#[test]
fn test_parse_real_list_forms() {
    let vals = parse_real_list("(1.5,-2.,.5,3e2,4.25E-1,+7)");
    assert_eq!(vals.len(), 6);
    assert!((dec(vals[0]) - 1.5).abs() < 1e-12);
    assert!((dec(vals[1]) + 2.0).abs() < 1e-12);
    assert!((dec(vals[2]) - 0.5).abs() < 1e-12);
    assert!((dec(vals[3]) - 300.0).abs() < 1e-12);
    assert!((dec(vals[4]) - 0.425).abs() < 1e-12);
    assert!((dec(vals[5]) - 7.0).abs() < 1e-12);
}

#[test]
fn test_parse_real_list_skips_garbage() {
    let vals = parse_real_list("(1.0,oops,2.0)");
    assert_eq!(vals.len(), 2);
    assert!((dec(vals[0]) - 1.0).abs() < 1e-12);
    assert!((dec(vals[1]) - 2.0).abs() < 1e-12);
}

#[test]
fn test_parse_entity_line_rejects_malformed() {
    assert!(parse_entity_line("no equals here").is_none());
    assert!(parse_entity_line("#notanumber= IFCTHING(1)").is_none());
    assert!(parse_entity_line("#12= IFCTHING_NO_PARENS;").is_none());
}

#[test]
fn test_make_edge_unknown_vertex_not_found() {
    let mut mesh = Mesh::new();
    let v0 = mesh.add_vertex(dvec3(0.0, 0.0, 0.0));

    let fabricated = VertexId(12345);
    let result = mesh.make_edge(v0, fabricated);
    assert!(matches!(result, Err(CstError::NotFound(_))));
}

#[test]
fn test_make_face_unknown_vertex_not_found() {
    let mut mesh = Mesh::new();
    let v0 = mesh.add_vertex(dvec3(0.0, 0.0, 0.0));
    let v1 = mesh.add_vertex(dvec3(1.0, 0.0, 0.0));

    let stale = VertexId(999_999);
    let result = mesh.make_face(&[v0, v1, stale]);
    assert!(matches!(result, Err(CstError::NotFound(_))));
}

#[test]
fn test_make_face_too_few_vertices_is_topology() {
    let mut mesh = Mesh::new();
    let v0 = mesh.add_vertex(dvec3(0.0, 0.0, 0.0));
    let v1 = mesh.add_vertex(dvec3(1.0, 0.0, 0.0));

    let result = mesh.make_face(&[v0, v1]);
    assert!(matches!(result, Err(CstError::Topology(_))));
}

#[test]
fn test_make_face_non_manifold_reuse_fails() {
    let mut mesh = Mesh::new();
    let v0 = mesh.add_vertex(dvec3(0.0, 0.0, 0.0));
    let v1 = mesh.add_vertex(dvec3(1.0, 0.0, 0.0));
    let v2 = mesh.add_vertex(dvec3(0.5, 1.0, 0.0));
    let v3 = mesh.add_vertex(dvec3(0.5, -1.0, 0.0));

    mesh.make_face(&[v0, v1, v2]).unwrap();
    // The half-edge v0 -> v1 already belongs to the first face.
    let result = mesh.make_face(&[v0, v1, v3]);
    assert!(matches!(result, Err(CstError::Topology(_))));
}

#[test]
fn test_edge_faces_unknown_edge() {
    let mesh = Mesh::new();
    let (fa, fb) = mesh.edge_faces(EdgeId(777));
    assert!(fa.is_none() && fb.is_none());
}

#[test]
fn test_parse_entity_line_plus_sign_id() {
    let entity = parse_entity_line("#+47= IFCTHING(());").unwrap();
    assert_eq!(entity.entity_id, 47);
}

#[test]
fn test_extract_single_ref_overflow_dropped() {
    assert_eq!(cst_kernel::ifc_reader::extract_single_ref("#99999999999999999999999"), None);
}

#[test]
fn test_validate_error_names_handle() {
    let mut mesh = Mesh::new();
    let v0 = mesh.add_vertex(dvec3(0.0, 0.0, 0.0));
    let v1 = mesh.add_vertex(dvec3(1.0, 0.0, 0.0));
    let v2 = mesh.add_vertex(dvec3(0.0, 1.0, 0.0));
    mesh.make_triangle(v0, v1, v2).unwrap();

    let first_he = mesh.halfedges.0.keys().next().unwrap();
    mesh.halfedges.0[first_he].twin = None;

    let err = mesh.validate().unwrap_err();
    let msg = err.message();
    assert!(msg.contains("handle "), "message should name a handle: {}", msg);
}

#[test]
fn test_error_message_text() {
    let e = CstError::Topology("A face requires at least 3 vertices".to_string());
    assert_eq!(e.message(), "A face requires at least 3 vertices");
}

#[test]
fn test_resolve_cartesian_transform_defaults() {
    let mut entities = HashMap::new();
    entities.insert(21, raw(21, "IFCCARTESIANTRANSFORMATIONOPERATOR3D", "$,$,#20,$,$"));
    entities.insert(20, raw(20, "IFCCARTESIANPOINT", "(50.,60.,70.)"));

    let t = resolve_cartesian_transform_operator(21, &entities);
    assert!((dec(t.origin.x) - 50.0).abs() < 1e-9);
    assert!((dec(t.origin.y) - 60.0).abs() < 1e-9);
    assert!((dec(t.origin.z) - 70.0).abs() < 1e-9);
    assert!((dec(t.scale) - 1.0).abs() < 1e-12);
    assert!((dec(t.axis1.x) - 1.0).abs() < 1e-12);
    assert!((dec(t.axis2.y) - 1.0).abs() < 1e-12);
    assert!((dec(t.axis3.z) - 1.0).abs() < 1e-12);
}

#[test]
fn test_resolve_cartesian_transform_scale() {
    let mut entities = HashMap::new();
    entities.insert(21, raw(21, "IFCCARTESIANTRANSFORMATIONOPERATOR3D", "$,$,#20,2.5,$"));
    entities.insert(20, raw(20, "IFCCARTESIANPOINT", "(0.,0.,0.)"));

    let t = resolve_cartesian_transform_operator(21, &entities);
    assert!((dec(t.scale) - 2.5).abs() < 1e-12);
}
