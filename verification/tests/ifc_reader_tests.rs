use std::collections::HashMap;
use cst_kernel::ifc_reader::{parse_entity_line, parse_entity_refs, parse_real_list, split_ifc_args,
    extract_single_ref, IfcRawEntity};
use cst_kernel::ifc_resolve::{parse_point, parse_direction, resolve_axis2placement3d,
    resolve_placement_chain, resolve_face};
use cst_kernel::text::Decimal;

/// The numeric value a `Decimal` denotes.
fn dec(d: Decimal) -> f64 {
    let m = d.mant as f64 * if d.neg { -1.0 } else { 1.0 };
    m * 10f64.powi(d.exp as i32)
}

fn raw(id: u64, ty: &str, args: &str) -> IfcRawEntity {
    IfcRawEntity { entity_id: id, entity_type: ty.to_string(), raw_args: args.to_string() }
}

#[test]
fn test_parse_entity_refs() {
    assert_eq!(parse_entity_refs("(#55,#56,#57,#58)"), vec![55, 56, 57, 58]);
    assert_eq!(parse_entity_refs("(#47)"), vec![47]);
    assert_eq!(parse_entity_refs("(#95)"), vec![95]);
    assert_eq!(parse_entity_refs(""), Vec::<u64>::new());
}

#[test]
fn test_parse_real_list() {
    let coords = parse_real_list("(165379.999999999,22500.,18830.)");
    assert_eq!(coords.len(), 3);
    assert!((dec(coords[0]) - 165379.999999999).abs() < 1e-6);
    assert!((dec(coords[1]) - 22500.0).abs() < 1e-6);
    assert!((dec(coords[2]) - 18830.0).abs() < 1e-6);
}

#[test]
fn test_parse_cartesian_point() {
    let mut entities = HashMap::new();
    entities.insert(47, raw(47, "IFCCARTESIANPOINT", "(165379.999999999,22500.,18830.)"));

    let point = parse_point(47, &entities).unwrap();
    assert!((dec(point.x) - 165379.999999999).abs() < 1e-6);
    assert!((dec(point.y) - 22500.0).abs() < 1e-6);
    assert!((dec(point.z) - 18830.0).abs() < 1e-6);
}

#[test]
fn test_parse_entity_line() {
    let line = "#47= IFCCARTESIANPOINT((165379.999999999,22500.,18830.));";
    let entity = parse_entity_line(line).unwrap();

    assert_eq!(entity.entity_id, 47);
    assert_eq!(entity.entity_type, "IFCCARTESIANPOINT");
    assert_eq!(entity.raw_args, "(165379.999999999,22500.,18830.)");
}

#[test]
fn test_handle_missing_entities() {
    let entities = HashMap::new();
    let point = parse_point(999, &entities);
    assert!(point.is_none());

    let face = resolve_face(999, &entities);
    assert!(face.is_none());
}

#[test]
fn test_split_ifc_args_simple() {
    let args = split_ifc_args("'name',$,#51,(#145),0.5,.NOTDEFINED.");
    assert_eq!(args.len(), 6);
    assert_eq!(args[0], "'name'");
    assert_eq!(args[1], "$");
    assert_eq!(args[2], "#51");
    assert_eq!(args[3], "(#145)");
    assert_eq!(args[4], "0.5");
    assert_eq!(args[5], ".NOTDEFINED.");
}

#[test]
fn test_split_ifc_args_nested_parens() {
    let args = split_ifc_args("$,$,(#101,#102,#103)");
    assert_eq!(args.len(), 3);
    assert_eq!(args[0], "$");
    assert_eq!(args[1], "$");
    assert_eq!(args[2], "(#101,#102,#103)");
}

#[test]
fn test_split_ifc_args_string_with_commas() {
    let args = split_ifc_args("'hello, world',$,#10");
    assert_eq!(args.len(), 3);
    assert_eq!(args[0], "'hello, world'");
    assert_eq!(args[1], "$");
    assert_eq!(args[2], "#10");
}

#[test]
fn test_extract_single_ref() {
    assert_eq!(extract_single_ref("#51"), Some(51));
    assert_eq!(extract_single_ref(" #123 "), Some(123));
    assert_eq!(extract_single_ref("$"), None);
    assert_eq!(extract_single_ref(""), None);
    assert_eq!(extract_single_ref(".T."), None);
}

#[test]
fn test_parse_direction() {
    let mut entities = HashMap::new();
    entities.insert(10, raw(10, "IFCDIRECTION", "(0.,0.,1.)"));

    let dir = parse_direction(10, &entities).unwrap();
    assert!((dec(dir.x) - 0.0).abs() < 1e-6);
    assert!((dec(dir.y) - 0.0).abs() < 1e-6);
    assert!((dec(dir.z) - 1.0).abs() < 1e-6);
}

#[test]
fn test_resolve_axis2placement3d_identity() {
    let mut entities = HashMap::new();
    // Origin at 0,0,0 with default axes.
    entities.insert(100, raw(100, "IFCAXIS2PLACEMENT3D", "#101,$,$"));
    entities.insert(101, raw(101, "IFCCARTESIANPOINT", "(0.,0.,0.)"));

    let placement = resolve_axis2placement3d(100, &entities);
    assert!((dec(placement.location.x) - 0.0).abs() < 1e-6);
    assert!((dec(placement.location.y) - 0.0).abs() < 1e-6);
    assert!((dec(placement.location.z) - 0.0).abs() < 1e-6);
    // Default axes.
    assert!((dec(placement.axis.z) - 1.0).abs() < 1e-6);
    assert!((dec(placement.ref_direction.x) - 1.0).abs() < 1e-6);
}

#[test]
fn test_resolve_axis2placement3d_translated() {
    let mut entities = HashMap::new();
    entities.insert(100, raw(100, "IFCAXIS2PLACEMENT3D", "#101,#102,#103"));
    entities.insert(101, raw(101, "IFCCARTESIANPOINT", "(10.,20.,30.)"));
    entities.insert(102, raw(102, "IFCDIRECTION", "(0.,0.,1.)"));
    entities.insert(103, raw(103, "IFCDIRECTION", "(1.,0.,0.)"));

    let placement = resolve_axis2placement3d(100, &entities);
    assert!((dec(placement.location.x) - 10.0).abs() < 1e-6);
    assert!((dec(placement.location.y) - 20.0).abs() < 1e-6);
    assert!((dec(placement.location.z) - 30.0).abs() < 1e-6);
}

#[test]
fn test_resolve_placement_chain() {
    let mut entities = HashMap::new();

    // Parent placement: translate by (100, 200, 0).
    entities.insert(10, raw(10, "IFCLOCALPLACEMENT", "$,#11"));
    entities.insert(11, raw(11, "IFCAXIS2PLACEMENT3D", "#12,$,$"));
    entities.insert(12, raw(12, "IFCCARTESIANPOINT", "(100.,200.,0.)"));

    // Child placement: translate by (10, 20, 0) relative to the parent.
    entities.insert(20, raw(20, "IFCLOCALPLACEMENT", "#10,#21"));
    entities.insert(21, raw(21, "IFCAXIS2PLACEMENT3D", "#22,$,$"));
    entities.insert(22, raw(22, "IFCCARTESIANPOINT", "(10.,20.,0.)"));

    let chain = resolve_placement_chain(20, &entities);
    assert_eq!(chain.len(), 2);

    // Each placement has the default axes, so applying the chain to the
    // origin sums the translations: 100+10=110, 200+20=220, 0+0=0.
    let mut x = 0.0;
    let mut y = 0.0;
    let mut z = 0.0;
    for p in &chain {
        x += dec(p.location.x);
        y += dec(p.location.y);
        z += dec(p.location.z);
    }
    assert!((x - 110.0).abs() < 1e-6);
    assert!((y - 220.0).abs() < 1e-6);
    assert!((z - 0.0).abs() < 1e-6);
}
