use std::collections::HashMap;
use cst_kernel::ifc_reader::IfcRawEntity;
use cst_kernel::ifc_resolve::{resolve_face, resolve_faceted_brep};
use cst_kernel::text::Decimal;

/// The numeric value a `Decimal` denotes.
fn dec(d: Decimal) -> f64 {
    let m = d.mant as f64 * if d.neg { -1.0 } else { 1.0 };
    m * 10f64.powi(d.exp as i32)
}

fn raw(id: u64, ty: &str, args: &str) -> IfcRawEntity {
    IfcRawEntity { entity_id: id, entity_type: ty.to_string(), raw_args: args.to_string() }
}

fn square_entities() -> HashMap<u64, IfcRawEntity> {
    let mut entities = HashMap::new();
    entities.insert(1, raw(1, "IFCCARTESIANPOINT", "(0.,0.,0.)"));
    entities.insert(2, raw(2, "IFCCARTESIANPOINT", "(100.,0.,0.)"));
    entities.insert(3, raw(3, "IFCCARTESIANPOINT", "(100.,100.,0.)"));
    entities.insert(4, raw(4, "IFCCARTESIANPOINT", "(0.,100.,0.)"));
    entities.insert(5, raw(5, "IFCPOLYLOOP", "(#1,#2,#3,#4)"));
    entities.insert(6, raw(6, "IFCFACEOUTERBOUND", "#5,.T."));
    entities.insert(7, raw(7, "IFCFACE", "(#6)"));
    entities.insert(8, raw(8, "IFCCLOSEDSHELL", "(#7)"));
    entities.insert(9, raw(9, "IFCFACETEDBREP", "#8"));
    entities
}

#[test]
fn test_resolve_face_square() {
    let entities = square_entities();
    let face = resolve_face(7, &entities).unwrap();
    assert_eq!(face.outer.len(), 4);
    assert_eq!(face.holes.len(), 0);
    assert!((dec(face.outer[0].x) - 0.0).abs() < 1e-6);
    assert!((dec(face.outer[1].x) - 100.0).abs() < 1e-6);
    assert!((dec(face.outer[2].y) - 100.0).abs() < 1e-6);
}

#[test]
fn test_resolve_face_reversed_orientation() {
    let mut entities = square_entities();
    entities.insert(6, raw(6, "IFCFACEOUTERBOUND", "#5,.F."));
    let face = resolve_face(7, &entities).unwrap();
    assert_eq!(face.outer.len(), 4);
    // The point order is reversed: the first point is now (0,100,0).
    assert!((dec(face.outer[0].x) - 0.0).abs() < 1e-6);
    assert!((dec(face.outer[0].y) - 100.0).abs() < 1e-6);
    assert!((dec(face.outer[3].x) - 0.0).abs() < 1e-6);
    assert!((dec(face.outer[3].y) - 0.0).abs() < 1e-6);
}

#[test]
fn test_resolve_face_with_hole() {
    let mut entities = square_entities();
    entities.insert(11, raw(11, "IFCCARTESIANPOINT", "(30.,30.,0.)"));
    entities.insert(12, raw(12, "IFCCARTESIANPOINT", "(70.,30.,0.)"));
    entities.insert(13, raw(13, "IFCCARTESIANPOINT", "(70.,70.,0.)"));
    entities.insert(14, raw(14, "IFCPOLYLOOP", "(#11,#12,#13)"));
    entities.insert(15, raw(15, "IFCFACEBOUND", "#14,.T."));
    entities.insert(7, raw(7, "IFCFACE", "(#6,#15)"));

    let face = resolve_face(7, &entities).unwrap();
    assert_eq!(face.outer.len(), 4);
    assert_eq!(face.holes.len(), 1);
    assert_eq!(face.holes[0].len(), 3);
}

#[test]
fn test_resolve_faceted_brep_square() {
    let entities = square_entities();
    let faces = resolve_faceted_brep(9, &entities).unwrap();
    assert_eq!(faces.len(), 1);
    assert_eq!(faces[0].outer.len(), 4);
    let p0 = &faces[0].outer[0];
    assert!((dec(p0.x) - 0.0).abs() < 1e-6);
    assert!((dec(p0.y) - 0.0).abs() < 1e-6);
    assert!((dec(p0.z) - 0.0).abs() < 1e-6);
}

#[test]
fn test_resolve_faceted_brep_missing_shell() {
    let mut entities = HashMap::new();
    entities.insert(9, raw(9, "IFCFACETEDBREP", "#8"));
    assert!(resolve_faceted_brep(9, &entities).is_none());
}
