use bom_kit::{Bom, BomError, Component, Dependencies, Part, PartCatalog, Quantity, Totals};
use std::collections::HashMap;
use std::rc::Rc;

fn part(id: &str) -> Part {
    Part {
        id: id.to_string(),
        name: id.to_uppercase(),
        description: None,
        part_number: None,
        manufacturer: None,
        attributes: HashMap::new(),
    }
}

fn catalog(ids: &[&str]) -> PartCatalog {
    let mut catalog = PartCatalog::new();
    for id in ids {
        catalog.insert(part(id));
    }
    catalog
}

fn table(entries: &[(&str, &[(&str, u32)])]) -> Dependencies {
    let mut deps = Dependencies::new();
    for (parent, edges) in entries {
        deps.insert(
            parent.to_string(),
            edges.iter().map(|(child, n)| (child.to_string(), Quantity::Units(*n))).collect(),
        );
    }
    deps
}

fn explode(entries: &[(&str, &[(&str, u32)])], ids: &[&str], root: &str) -> Result<Totals, BomError> {
    let root = Bom::build_hierarchy(&table(entries), &catalog(ids), root.to_string()).unwrap();
    root.explode_quantities()
}

fn node(id: &str, lines: &[(&str, u32)], subs: Vec<(&str, Rc<Bom>)>) -> Rc<Bom> {
    let mut bom = Bom::new(part(id), None);
    for (child, n) in lines {
        bom.components.push(Component::line(child.to_string(), Quantity::Units(*n)));
    }
    for (key, sub) in subs {
        bom.sub_boms.push((key.to_string(), sub));
    }
    Rc::new(bom)
}

fn overflow() -> BomError {
    BomError::QuantityCalculationOverflow { context: None }
}

#[test]
fn end_to_end_chain_multiplies_quantities() {
    let totals = explode(
        &[("root", &[("sub", 2)]), ("sub", &[("leaf", 3)])],
        &["root", "sub", "leaf"],
        "root",
    )
    .unwrap();
    assert_eq!(totals.len(), 1);
    assert_eq!(totals.get("leaf"), Some(6));
    assert_eq!(totals.get("sub"), None);
    assert_eq!(totals.get("root"), None);
    assert_eq!(totals.entries(), vec![("leaf".to_string(), 6)]);
}

#[test]
fn diamond_contributions_are_summed() {
    let totals = explode(
        &[("root", &[("B", 1), ("C", 1)]), ("B", &[("A", 1)]), ("C", &[("A", 1)])],
        &["root", "B", "C", "A"],
        "root",
    )
    .unwrap();
    assert_eq!(totals.get("A"), Some(2));
    assert_eq!(totals.len(), 1);
}

#[test]
fn shared_assembly_is_walked_once_for_each_edge_that_reaches_it() {
    let totals = explode(
        &[
            ("root", &[("B", 2), ("C", 3), ("A", 1), ("screw", 1)]),
            ("B", &[("A", 5)]),
            ("C", &[("A", 7), ("screw", 2)]),
            ("A", &[("leaf", 11), ("screw", 1)]),
        ],
        &["root", "B", "C", "A", "leaf", "screw"],
        "root",
    )
    .unwrap();
    // A is needed 2*5 + 3*7 + 1 = 32 times.
    assert_eq!(totals.get("leaf"), Some(32 * 11));
    assert_eq!(totals.get("screw"), Some(32 + 3 * 2 + 1));
    assert_eq!(totals.len(), 2);
    assert_eq!(
        totals.entries(),
        vec![("leaf".to_string(), 352), ("screw".to_string(), 39)]
    );
}

#[test]
fn repeated_lines_for_one_part_add_up() {
    let totals = explode(
        &[("root", &[("leaf", 2), ("leaf", 3), ("sub", 1), ("sub", 2)]), ("sub", &[("leaf", 10)])],
        &["root", "sub", "leaf"],
        "root",
    )
    .unwrap();
    assert_eq!(totals.get("leaf"), Some(2 + 3 + 10 + 20));
}

#[test]
fn terminal_root_explodes_to_nothing() {
    let totals = explode(&[], &["leaf"], "leaf").unwrap();
    assert_eq!(totals.len(), 0);
    assert_eq!(totals.get("leaf"), None);
    assert!(totals.entries().is_empty());
}

#[test]
fn totals_of_a_built_hierarchy_are_positive() {
    let totals = explode(
        &[("root", &[("a", 1), ("b", 4)]), ("a", &[("x", 1), ("y", 9)]), ("b", &[("y", 1), ("z", 6)])],
        &["root", "a", "b", "x", "y", "z"],
        "root",
    )
    .unwrap();
    let entries = totals.entries();
    assert_eq!(entries.len(), 3);
    for (_, amount) in &entries {
        assert!(*amount > 0);
    }
    assert_eq!(totals.get("x"), Some(1));
    assert_eq!(totals.get("y"), Some(13));
    assert_eq!(totals.get("z"), Some(24));
}

#[test]
fn zero_quantity_gives_a_zero_total() {
    let totals = explode(&[("root", &[("leaf", 0)])], &["root", "leaf"], "root").unwrap();
    assert_eq!(totals.get("leaf"), Some(0));
}

#[test]
fn explosion_starts_with_one_unit_of_the_root() {
    let mut bom = Bom::new(part("root"), Some(Quantity::Units(5)));
    bom.components.push(Component::line("leaf".to_string(), Quantity::Units(3)));
    let totals = bom.explode_quantities().unwrap();
    assert_eq!(totals.get("leaf"), Some(3));
}

#[test]
fn product_above_the_range_is_an_overflow() {
    let outcome = explode(
        &[("root", &[("a", 65536)]), ("a", &[("b", 65536)]), ("b", &[("leaf", 1)])],
        &["root", "a", "b", "leaf"],
        "root",
    );
    assert_eq!(outcome.err(), Some(overflow()));
}

#[test]
fn product_at_the_top_of_the_range_is_no_overflow() {
    let totals = explode(
        &[("root", &[("a", 65535)]), ("a", &[("leaf", 65537)])],
        &["root", "a", "leaf"],
        "root",
    )
    .unwrap();
    assert_eq!(totals.get("leaf"), Some(u32::MAX));
}

#[test]
fn overflowing_multiplier_of_a_terminal_line_is_an_overflow() {
    let outcome = explode(
        &[("root", &[("a", 3)]), ("a", &[("leaf", 1431655766)])],
        &["root", "a", "leaf"],
        "root",
    );
    assert_eq!(outcome.err(), Some(overflow()));
}

#[test]
fn sum_above_the_range_is_an_overflow() {
    let outcome = explode(
        &[("root", &[("leaf", u32::MAX), ("leaf", 1)])],
        &["root", "leaf"],
        "root",
    );
    assert_eq!(outcome.err(), Some(overflow()));
    let totals = explode(
        &[("root", &[("leaf", u32::MAX - 1), ("leaf", 1)])],
        &["root", "leaf"],
        "root",
    )
    .unwrap();
    assert_eq!(totals.get("leaf"), Some(u32::MAX));
}

#[test]
fn cycle_in_a_hierarchy_is_rejected_by_explosion() {
    let a_again = node("A", &[("B", 1)], vec![]);
    let b = node("B", &[("A", 1)], vec![("A", a_again)]);
    let a = node("A", &[("B", 1)], vec![("B", b)]);
    assert_eq!(
        a.explode_quantities().err(),
        Some(BomError::CircularDependency("B -> A".to_string()))
    );
}

#[test]
fn line_for_the_root_itself_is_a_cycle() {
    let a = node("A", &[("leaf", 2), ("A", 1)], vec![]);
    assert_eq!(
        a.explode_quantities().err(),
        Some(BomError::CircularDependency("A -> A".to_string()))
    );
}

#[test]
fn terminal_line_for_an_ancestor_is_a_cycle() {
    let b = node("B", &[("leaf", 1), ("A", 1)], vec![]);
    let a = node("A", &[("B", 1)], vec![("B", b)]);
    assert_eq!(
        a.explode_quantities().err(),
        Some(BomError::CircularDependency("B -> A".to_string()))
    );
}

#[test]
fn cycle_detection_is_relative_to_the_path() {
    // B and C both hold A, and A is walked while neither B nor C is an
    // ancestor of the other: no cycle.
    let a = node("A", &[("leaf", 1)], vec![]);
    let b = node("B", &[("A", 2)], vec![("A", Rc::clone(&a))]);
    let c = node("C", &[("A", 3), ("B", 1)], vec![("A", Rc::clone(&a)), ("B", Rc::clone(&b))]);
    let root = node("root", &[("B", 1), ("C", 1)], vec![("B", b), ("C", c)]);
    let totals = root.explode_quantities().unwrap();
    assert_eq!(totals.get("leaf"), Some(2 + 3 + 2));
}

#[test]
fn overflow_before_a_cycle_is_the_one_reported() {
    let deep = node("B", &[("A", 1)], vec![]);
    let a = node("A", &[("x", 65536), ("B", 1)], vec![("B", deep)]);
    let x = node("x", &[("leaf", 65536)], vec![]);
    let a_with_x = node(
        "A",
        &[("x", 65536), ("A", 1)],
        vec![("x", x)],
    );
    assert_eq!(a_with_x.explode_quantities().err(), Some(overflow()));
    assert_eq!(
        a.explode_quantities().err(),
        Some(BomError::CircularDependency("B -> A".to_string()))
    );
}

#[test]
fn first_entry_for_a_part_is_the_one_followed() {
    let first = node("s", &[("x", 1)], vec![]);
    let second = node("s", &[("y", 1)], vec![]);
    let root = node("root", &[("s", 4)], vec![("s", first), ("s", second)]);
    let totals = root.explode_quantities().unwrap();
    assert_eq!(totals.get("x"), Some(4));
    assert_eq!(totals.get("y"), None);
}

#[test]
fn totals_add_and_refuse_to_pass_the_range() {
    let mut totals = Totals::new();
    assert_eq!(totals.len(), 0);
    assert!(totals.add("bolt", 7));
    assert!(totals.add("nut", 1));
    assert!(totals.add("bolt", 5));
    assert_eq!(totals.get("bolt"), Some(12));
    assert_eq!(totals.get("nut"), Some(1));
    assert_eq!(totals.get("washer"), None);
    assert_eq!(totals.len(), 2);
    assert!(!totals.add("bolt", u32::MAX - 11));
    assert_eq!(totals.get("bolt"), Some(12));
    assert!(totals.add("bolt", u32::MAX - 12));
    assert_eq!(totals.get("bolt"), Some(u32::MAX));
    assert!(totals.add("washer", 0));
    assert_eq!(
        totals.entries(),
        vec![("bolt".to_string(), u32::MAX), ("nut".to_string(), 1), ("washer".to_string(), 0)]
    );
}

#[test]
fn assemblies_are_totalled_apart_from_purchased_parts() {
    let deps = table(&[
        ("root", &[("B", 2), ("C", 3), ("A", 1), ("screw", 1)]),
        ("B", &[("A", 5)]),
        ("C", &[("A", 7), ("screw", 2)]),
        ("A", &[("leaf", 11), ("screw", 1)]),
    ]);
    let parts = catalog(&["root", "B", "C", "A", "leaf", "screw"]);
    let root = Bom::build_hierarchy(&deps, &parts, "root".to_string()).unwrap();
    let assemblies = root.explode_assemblies().unwrap();
    assert_eq!(
        assemblies.entries(),
        vec![("B".to_string(), 2), ("A".to_string(), 32), ("C".to_string(), 3)]
    );
    assert_eq!(assemblies.get("root"), None);
    assert_eq!(assemblies.get("leaf"), None);
    assert_eq!(assemblies.get("screw"), None);
    let purchased = root.explode_quantities().unwrap();
    assert_eq!(purchased.get("A"), None);
    assert_eq!(purchased.get("B"), None);
}

#[test]
fn assemblies_of_a_flat_hierarchy_are_none() {
    let root = node("root", &[("x", 2), ("y", 3)], vec![]);
    let assemblies = root.explode_assemblies().unwrap();
    assert_eq!(assemblies.len(), 0);
}

#[test]
fn assembly_walk_reports_cycles_and_overflows() {
    let b = node("B", &[("A", 1)], vec![]);
    let a = node("A", &[("B", 1)], vec![("B", b)]);
    assert_eq!(
        a.explode_assemblies().err(),
        Some(BomError::CircularDependency("B -> A".to_string()))
    );
    let empty = node("s", &[], vec![]);
    let root = node(
        "root",
        &[("s", u32::MAX), ("s", 1)],
        vec![("s", empty)],
    );
    assert_eq!(root.explode_assemblies().err(), Some(overflow()));
    assert_eq!(root.explode_quantities().unwrap().len(), 0);
}

#[test]
fn table_with_a_frame_takes_legs_and_screws() {
    let totals = explode(
        &[
            ("table", &[("frame", 1), ("screw", 4)]),
            ("frame", &[("leg", 4), ("screw", 8)]),
        ],
        &["table", "frame", "leg", "screw"],
        "table",
    )
    .unwrap();
    assert_eq!(totals.get("leg"), Some(4));
    assert_eq!(totals.get("screw"), Some(12));
    assert_eq!(totals.get("frame"), None);
}
