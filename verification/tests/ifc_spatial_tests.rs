use cst_kernel::ifc_spatial::{SpatialKind, SpatialNode};

fn sample_tree() -> SpatialNode {
    let mut project = SpatialNode::new(1, SpatialKind::Project, "My Project");
    let mut site = SpatialNode::new(2, SpatialKind::Site, "Main Site");
    let mut building = SpatialNode::new(3, SpatialKind::Building, "Building A");
    let storey1 = SpatialNode::new(4, SpatialKind::BuildingStorey, "Ground Floor");
    let storey2 = SpatialNode::new(5, SpatialKind::BuildingStorey, "First Floor");
    building.add_child(storey1);
    building.add_child(storey2);
    site.add_child(building);
    project.add_child(site);
    project
}

#[test]
fn test_tree_count() {
    let tree = sample_tree();
    assert_eq!(tree.count(), 5);
}

#[test]
fn test_find_by_id() {
    let tree = sample_tree();
    let found = tree.find_by_id(3).unwrap();
    assert_eq!(found.name, "Building A");
    assert_eq!(found.kind, SpatialKind::Building);
}

#[test]
fn test_find_by_id_not_found() {
    let tree = sample_tree();
    assert!(tree.find_by_id(999).is_none());
}

#[test]
fn test_find_by_kind() {
    let tree = sample_tree();
    let storeys = tree.find_by_kind(&SpatialKind::BuildingStorey);
    assert_eq!(storeys.len(), 2);
}

#[test]
fn test_hierarchy_structure() {
    let tree = sample_tree();
    assert_eq!(tree.kind, SpatialKind::Project);
    assert_eq!(tree.children.len(), 1);
    assert_eq!(tree.children[0].children.len(), 1);
    assert_eq!(tree.children[0].children[0].children.len(), 2);
}
