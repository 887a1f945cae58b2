use bom_kit::{Bom, BomError, Dependencies, Part, PartCatalog, Quantity};
use std::collections::HashMap;
use std::rc::Rc;

fn part(id: &str) -> Part {
    Part {
        id: id.to_string(),
        name: format!("part {}", id),
        description: Some(format!("the {} part", id)),
        part_number: None,
        manufacturer: Some("acme".to_string()),
        attributes: HashMap::from([("colour".to_string(), "grey".to_string())]),
    }
}

fn catalog(ids: &[&str]) -> PartCatalog {
    let mut catalog = PartCatalog::new();
    for id in ids {
        catalog.insert(part(id));
    }
    catalog
}

fn table(entries: &[(&str, &[(&str, u32)])]) -> Dependencies {
    let mut deps = Dependencies::new();
    for (parent, edges) in entries {
        deps.insert(
            parent.to_string(),
            edges.iter().map(|(child, n)| (child.to_string(), Quantity::Units(*n))).collect(),
        );
    }
    deps
}

fn build(deps: &Dependencies, parts: &PartCatalog, root: &str) -> Result<Rc<Bom>, BomError> {
    Bom::build_hierarchy(deps, parts, root.to_string())
}

fn sub<'a>(node: &'a Bom, id: &str) -> &'a Rc<Bom> {
    node.sub_bom(&id.to_string()).expect("the line leads to a node")
}

#[test]
fn catalog_files_parts_under_their_ids() {
    let mut parts = PartCatalog::new();
    assert_eq!(parts.len(), 0);
    assert!(!parts.contains("bolt"));
    parts.insert(part("bolt"));
    parts.insert(part("nut"));
    assert_eq!(parts.len(), 2);
    assert!(parts.contains("bolt"));
    assert_eq!(parts.get("nut").map(|p| p.name.clone()), Some("part nut".to_string()));
    assert!(parts.get("washer").is_none());
    let mut other = part("bolt");
    other.name = "replaced".to_string();
    parts.insert(other);
    assert_eq!(parts.len(), 2);
    assert_eq!(parts.get("bolt").map(|p| p.name.clone()), Some("replaced".to_string()));
}

#[test]
fn table_lists_edges_for_parents() {
    let mut deps = Dependencies::new();
    assert_eq!(deps.len(), 0);
    assert!(deps.get("root").is_none());
    deps.insert("root".to_string(), vec![("a".to_string(), Quantity::Units(2))]);
    assert_eq!(deps.len(), 1);
    assert_eq!(deps.get("root"), Some(&vec![("a".to_string(), Quantity::Units(2))]));
    deps.insert("root".to_string(), vec![]);
    assert_eq!(deps.len(), 1);
    assert_eq!(deps.get("root"), Some(&vec![]));
}

#[test]
fn new_node_has_no_lines() {
    let node = Bom::new(part("table"), None);
    assert_eq!(node.root.id, "table");
    assert_eq!(node.quantity, Quantity::Units(1));
    assert!(node.components.is_empty());
    assert!(node.sub_boms.is_empty());
    assert_eq!(node.bom_level, 0);
    assert_eq!(node.metadata.version, "");
    assert_eq!(node.metadata.revision, "");
    assert!(node.metadata.created_by.is_none());
    assert!(node.metadata.attributes.is_empty());
    let node = Bom::new(part("table"), Some(Quantity::Units(12)));
    assert_eq!(node.quantity, Quantity::Units(12));
}

#[test]
fn build_copies_the_catalog_part_and_lists_the_lines_in_order() {
    let parts = catalog(&["root", "sub", "leaf", "screw"]);
    let deps = table(&[("root", &[("screw", 8), ("sub", 2), ("leaf", 1)]), ("sub", &[("leaf", 3)])]);
    let root = build(&deps, &parts, "root").unwrap();
    assert_eq!(root.root.id, "root");
    assert_eq!(root.root.name, "part root");
    assert_eq!(root.root.description, Some("the root part".to_string()));
    assert_eq!(root.root.part_number, None);
    assert_eq!(root.root.manufacturer, Some("acme".to_string()));
    assert_eq!(root.root.attributes.get("colour"), Some(&"grey".to_string()));
    assert_eq!(root.quantity, Quantity::Units(1));
    assert_eq!(root.bom_level, 0);
    let lines: Vec<(String, Quantity)> =
        root.components.iter().map(|c| (c.part_id.clone(), c.quantity)).collect();
    assert_eq!(
        lines,
        vec![
            ("screw".to_string(), Quantity::Units(8)),
            ("sub".to_string(), Quantity::Units(2)),
            ("leaf".to_string(), Quantity::Units(1)),
        ]
    );
    for line in &root.components {
        assert!(line.cost.is_none());
        assert!(line.supplier.is_none());
        assert!(line.reference.is_none());
        assert!(line.substitutes.is_empty());
        assert!(line.sustainability.is_none());
    }
    assert_eq!(root.sub_boms.len(), 1);
    assert_eq!(root.sub_boms[0].0, "sub");
    let below = sub(&root, "sub");
    assert_eq!(below.root.id, "sub");
    assert_eq!(below.bom_level, 1);
    assert_eq!(below.components.len(), 1);
    assert_eq!(below.components[0].part_id, "leaf");
    assert_eq!(below.components[0].quantity, Quantity::Units(3));
    assert!(below.sub_boms.is_empty());
}

#[test]
fn terminal_lines_lead_to_no_node() {
    let parts = catalog(&["root", "leaf", "bare"]);
    let deps = table(&[("root", &[("leaf", 1), ("bare", 2)]), ("bare", &[])]);
    let root = build(&deps, &parts, "root").unwrap();
    assert_eq!(root.components.len(), 2);
    assert!(root.sub_boms.is_empty());
    assert!(root.sub_bom(&"leaf".to_string()).is_none());
    assert!(root.sub_bom(&"bare".to_string()).is_none());
    assert!(root.sub_bom(&"unknown".to_string()).is_none());
}

#[test]
fn terminal_root_builds_to_a_single_node() {
    let parts = catalog(&["leaf"]);
    let deps = table(&[]);
    let root = build(&deps, &parts, "leaf").unwrap();
    assert_eq!(root.root.id, "leaf");
    assert!(root.components.is_empty());
    assert!(root.sub_boms.is_empty());
    assert_eq!(root.bom_level, 0);
    assert_eq!(Rc::strong_count(&root), 1);
}

#[test]
fn missing_reference_is_reported() {
    let parts = catalog(&["root"]);
    let deps = table(&[("root", &[("ghost", 1)])]);
    let outcome = build(&deps, &parts, "root");
    assert_eq!(outcome.err(), Some(BomError::PartNotFound("ghost".to_string())));
}

#[test]
fn missing_root_is_reported() {
    let parts = catalog(&["other"]);
    let deps = table(&[("root", &[("other", 1)])]);
    let outcome = build(&deps, &parts, "root");
    assert_eq!(outcome.err(), Some(BomError::PartNotFound("root".to_string())));
}

#[test]
fn missing_part_deep_in_the_table_is_reported() {
    let parts = catalog(&["root", "a", "b"]);
    let deps = table(&[("root", &[("a", 1)]), ("a", &[("b", 1)]), ("b", &[("c", 4)])]);
    let outcome = build(&deps, &parts, "root");
    assert_eq!(outcome.err(), Some(BomError::PartNotFound("c".to_string())));
}

#[test]
fn cycle_of_two_is_rejected_by_build() {
    let parts = catalog(&["A", "B"]);
    let deps = table(&[("A", &[("B", 1)]), ("B", &[("A", 1)])]);
    let outcome = build(&deps, &parts, "A");
    assert_eq!(outcome.err(), Some(BomError::CircularDependency("B -> A".to_string())));
    let outcome = build(&deps, &parts, "B");
    assert_eq!(outcome.err(), Some(BomError::CircularDependency("A -> B".to_string())));
}

#[test]
fn part_that_lists_itself_is_rejected_by_build() {
    let parts = catalog(&["A"]);
    let deps = table(&[("A", &[("A", 1)])]);
    let outcome = build(&deps, &parts, "A");
    assert_eq!(outcome.err(), Some(BomError::CircularDependency("A -> A".to_string())));
}

#[test]
fn long_cycle_below_the_root_is_rejected_by_build() {
    let parts = catalog(&["root", "a", "b", "c"]);
    let deps = table(&[
        ("root", &[("a", 1)]),
        ("a", &[("b", 1)]),
        ("b", &[("c", 1)]),
        ("c", &[("a", 1)]),
    ]);
    let outcome = build(&deps, &parts, "root");
    assert_eq!(outcome.err(), Some(BomError::CircularDependency("c -> a".to_string())));
}

#[test]
fn first_defect_in_edge_order_is_the_one_reported() {
    let parts = catalog(&["root", "a"]);
    let missing_first = table(&[("root", &[("ghost", 1), ("a", 1)]), ("a", &[("root", 1)])]);
    assert_eq!(
        build(&missing_first, &parts, "root").err(),
        Some(BomError::PartNotFound("ghost".to_string()))
    );
    let cycle_first = table(&[("root", &[("a", 1), ("ghost", 1)]), ("a", &[("root", 1)])]);
    assert_eq!(
        build(&cycle_first, &parts, "root").err(),
        Some(BomError::CircularDependency("a -> root".to_string()))
    );
}

#[test]
fn a_cycle_is_reported_before_the_catalog_is_asked() {
    let parts = catalog(&["root"]);
    let deps = table(&[("root", &[("root", 1)])]);
    assert_eq!(
        build(&deps, &parts, "root").err(),
        Some(BomError::CircularDependency("root -> root".to_string()))
    );
}

#[test]
fn diamond_is_no_cycle_and_shares_one_node() {
    let parts = catalog(&["root", "B", "C", "A", "leaf"]);
    let deps = table(&[
        ("root", &[("B", 1), ("C", 1)]),
        ("B", &[("A", 1)]),
        ("C", &[("A", 1)]),
        ("A", &[("leaf", 1)]),
    ]);
    let root = build(&deps, &parts, "root").unwrap();
    let via_b = sub(sub(&root, "B"), "A");
    let via_c = sub(sub(&root, "C"), "A");
    assert!(Rc::ptr_eq(via_b, via_c));
    assert_eq!(Rc::strong_count(via_b), 2);
    assert_eq!(via_b.bom_level, 2);
}

#[test]
fn same_sub_assembly_from_two_edges_is_one_object() {
    let parts = catalog(&["root", "sub", "leaf"]);
    let deps = table(&[("root", &[("sub", 1), ("sub", 4)]), ("sub", &[("leaf", 1)])]);
    let root = build(&deps, &parts, "root").unwrap();
    assert_eq!(root.components.len(), 2);
    assert_eq!(root.sub_boms.len(), 1);
    let first = root.sub_bom(&root.components[0].part_id).unwrap();
    let second = root.sub_bom(&root.components[1].part_id).unwrap();
    assert!(Rc::ptr_eq(first, second));
    assert_eq!(Rc::strong_count(first), 1);
}

#[test]
fn shared_node_keeps_the_level_of_its_first_visit() {
    let parts = catalog(&["root", "B", "A", "leaf"]);
    let deps = table(&[
        ("root", &[("B", 1), ("A", 1)]),
        ("B", &[("A", 1)]),
        ("A", &[("leaf", 1)]),
    ]);
    let root = build(&deps, &parts, "root").unwrap();
    let direct = sub(&root, "A");
    let via_b = sub(sub(&root, "B"), "A");
    assert!(Rc::ptr_eq(direct, via_b));
    assert_eq!(sub(&root, "B").bom_level, 1);
    assert_eq!(direct.bom_level, 2);

    let deps = table(&[
        ("root", &[("A", 1), ("B", 1)]),
        ("B", &[("A", 1)]),
        ("A", &[("leaf", 1)]),
    ]);
    let root = build(&deps, &parts, "root").unwrap();
    assert_eq!(sub(&root, "A").bom_level, 1);
    assert_eq!(sub(sub(&root, "B"), "A").bom_level, 1);
}

#[test]
fn builds_do_not_share_nodes_with_each_other() {
    let parts = catalog(&["root", "sub", "leaf"]);
    let deps = table(&[("root", &[("sub", 1)]), ("sub", &[("leaf", 1)])]);
    let first = build(&deps, &parts, "root").unwrap();
    let second = build(&deps, &parts, "root").unwrap();
    assert!(!Rc::ptr_eq(&first, &second));
    assert!(!Rc::ptr_eq(sub(&first, "sub"), sub(&second, "sub")));
    assert_eq!(Rc::strong_count(sub(&first, "sub")), 1);
}

#[test]
fn build_from_a_sub_assembly_is_its_own_hierarchy() {
    let parts = catalog(&["root", "sub", "leaf"]);
    let deps = table(&[("root", &[("sub", 1)]), ("sub", &[("leaf", 5)])]);
    let node = build(&deps, &parts, "sub").unwrap();
    assert_eq!(node.root.id, "sub");
    assert_eq!(node.bom_level, 0);
    assert_eq!(node.components.len(), 1);
}
