use bom_kit::text::render_count;
use bom_kit::{
    BomError, Component, DecimalValue, Quantity, Substitute, SubstituteRatio, Unit,
};

fn decimal(mantissa: i128, scale: u32) -> DecimalValue {
    DecimalValue::new(mantissa, scale).expect("a decimal")
}

#[test]
fn decimal_values_are_checked() {
    let d = decimal(-12345678, 7);
    assert_eq!(d.mantissa(), -12345678);
    assert_eq!(d.scale(), 7);
    let largest: i128 = 0xFFFF_FFFF_FFFF_FFFF_FFFF_FFFF;
    assert!(DecimalValue::new(largest, 28).is_some());
    assert!(DecimalValue::new(-largest, 0).is_some());
    assert!(DecimalValue::new(largest + 1, 0).is_none());
    assert!(DecimalValue::new(-largest - 1, 0).is_none());
    assert!(DecimalValue::new(1, 29).is_none());
}

#[test]
fn default_quantity_is_one_unit() {
    assert_eq!(Quantity::default(), Quantity::Units(1));
}

#[test]
fn base_unit_of_a_count_is_the_count() {
    let (unit, amount) = Quantity::Units(7).to_base_unit();
    assert_eq!(unit, Unit::Count);
    assert_eq!(amount.mantissa(), 7);
    assert_eq!(amount.scale(), 0);
    let (_, amount) = Quantity::Units(u32::MAX).to_base_unit();
    assert_eq!(amount.mantissa(), 4294967295);
    assert_eq!(amount.scale(), 0);
}

#[test]
fn counts_are_compatible() {
    assert!(Quantity::Units(1).is_compatible(&Quantity::Units(900)));
    assert!(Quantity::Units(0).is_compatible(&Quantity::Units(0)));
}

#[test]
fn add_sums_counts() {
    assert_eq!(Quantity::Units(2).add(&Quantity::Units(3)), Ok(Quantity::Units(5)));
    assert_eq!(Quantity::Units(0).add(&Quantity::Units(0)), Ok(Quantity::Units(0)));
    assert_eq!(Quantity::Units(0).add(&Quantity::Units(9)), Ok(Quantity::Units(9)));
    assert_eq!(
        Quantity::Units(4_000_000_000).add(&Quantity::Units(294_967_295)),
        Ok(Quantity::Units(u32::MAX))
    );
}

#[test]
fn add_holds_at_the_largest_count() {
    assert_eq!(
        Quantity::Units(u32::MAX).add(&Quantity::Units(1)),
        Ok(Quantity::Units(u32::MAX))
    );
    assert_eq!(
        Quantity::Units(u32::MAX).add(&Quantity::Units(u32::MAX)),
        Ok(Quantity::Units(u32::MAX))
    );
    assert_eq!(
        Quantity::Units(4_000_000_000).add(&Quantity::Units(294_967_296)),
        Ok(Quantity::Units(u32::MAX))
    );
}

#[test]
fn multiply_scales_and_rounds_to_even() {
    assert_eq!(Quantity::Units(3).multiply(decimal(2, 0)), Quantity::Units(6));
    assert_eq!(Quantity::Units(3).multiply(decimal(25, 1)), Quantity::Units(8));
    assert_eq!(Quantity::Units(1).multiply(decimal(25, 1)), Quantity::Units(2));
    assert_eq!(Quantity::Units(1).multiply(decimal(35, 1)), Quantity::Units(4));
    assert_eq!(Quantity::Units(10).multiply(decimal(124, 2)), Quantity::Units(12));
    assert_eq!(Quantity::Units(10).multiply(decimal(126, 2)), Quantity::Units(13));
    assert_eq!(Quantity::Units(7).multiply(decimal(0, 0)), Quantity::Units(0));
    assert_eq!(Quantity::Units(0).multiply(decimal(-5, 0)), Quantity::Units(0));
    assert_eq!(Quantity::Units(1).multiply(decimal(4, 1)), Quantity::Units(0));
    assert_eq!(Quantity::Units(1).multiply(decimal(5, 1)), Quantity::Units(0));
    assert_eq!(Quantity::Units(1).multiply(decimal(51, 2)), Quantity::Units(1));
}

#[test]
fn multiply_holds_at_the_largest_count() {
    assert_eq!(Quantity::Units(u32::MAX).multiply(decimal(2, 0)), Quantity::Units(u32::MAX));
    assert_eq!(Quantity::Units(65536).multiply(decimal(65536, 0)), Quantity::Units(u32::MAX));
    assert_eq!(Quantity::Units(65535).multiply(decimal(65537, 0)), Quantity::Units(u32::MAX));
}

#[test]
fn multiply_by_a_negative_factor_gives_the_largest_count() {
    assert_eq!(Quantity::Units(3).multiply(decimal(-1, 0)), Quantity::Units(u32::MAX));
    assert_eq!(Quantity::Units(3).multiply(decimal(-25, 1)), Quantity::Units(u32::MAX));
    // -0.3 rounds to zero.
    assert_eq!(Quantity::Units(1).multiply(decimal(-3, 1)), Quantity::Units(0));
}

#[test]
fn checked_multiply_refuses_a_product_that_does_not_fit() {
    let largest: i128 = 0xFFFF_FFFF_FFFF_FFFF_FFFF_FFFF;
    assert_eq!(Quantity::Units(2).checked_multiply(decimal(largest, 0)), None);
    assert_eq!(Quantity::Units(2).checked_multiply(decimal(-largest, 0)), None);
    assert_eq!(
        Quantity::Units(1).checked_multiply(decimal(largest, 0)),
        Some(Quantity::Units(u32::MAX))
    );
    assert_eq!(
        Quantity::Units(3).checked_multiply(decimal(25, 1)),
        Some(Quantity::Units(8))
    );
    assert_eq!(
        Quantity::Units(2).checked_multiply(decimal(largest, 28)),
        Some(Quantity::Units(16))
    );
}

#[test]
fn from_amount_rounds_and_holds() {
    assert_eq!(Quantity::from_amount(Unit::Count, decimal(75, 1)), Quantity::Units(8));
    assert_eq!(Quantity::from_amount(Unit::Count, decimal(65, 1)), Quantity::Units(6));
    assert_eq!(Quantity::from_amount(Unit::Count, decimal(42_949_672_954, 1)), Quantity::Units(u32::MAX));
    assert_eq!(Quantity::from_amount(Unit::Count, decimal(42_949_672_955, 1)), Quantity::Units(u32::MAX));
    assert_eq!(Quantity::from_amount(Unit::Count, decimal(4_294_967_296, 0)), Quantity::Units(u32::MAX));
    assert_eq!(Quantity::from_amount(Unit::Count, decimal(-1, 0)), Quantity::Units(u32::MAX));
    assert_eq!(Quantity::from_amount(Unit::Count, decimal(-5, 1)), Quantity::Units(0));
    assert_eq!(Quantity::from_amount(Unit::Count, decimal(-15, 1)), Quantity::Units(u32::MAX));
    assert_eq!(Quantity::from_amount(Unit::Count, decimal(1, 28)), Quantity::Units(0));
}

#[test]
fn quantities_are_shown_as_text() {
    assert_eq!(Quantity::Units(5).to_text(), "5 units");
    assert_eq!(Quantity::Units(0).to_text(), "0 units");
    assert_eq!(Quantity::Units(u32::MAX).to_text(), "4294967295 units");
    assert_eq!(Quantity::Units(5).describe(), "Units(5)");
    assert_eq!(Quantity::Units(1200).describe(), "Units(1200)");
}

#[test]
fn counts_are_rendered_in_decimal() {
    assert_eq!(render_count(0), "0");
    assert_eq!(render_count(9), "9");
    assert_eq!(render_count(10), "10");
    assert_eq!(render_count(1234567890), "1234567890");
    assert_eq!(render_count(u32::MAX), u32::MAX.to_string());
}

#[test]
fn one_to_one_substitute_has_top_priority() {
    let substitute = Substitute::one_to_one("m4-bolt");
    assert_eq!(substitute.part_id, "m4-bolt");
    assert!(matches!(substitute.ratio, SubstituteRatio::OneToOne));
    assert_eq!(substitute.priority, 0);
}

#[test]
fn plain_line_and_default_component() {
    let line = Component::line("leg".to_string(), Quantity::Units(4));
    assert_eq!(line.part_id, "leg");
    assert_eq!(line.quantity, Quantity::Units(4));
    assert!(line.cost.is_none());
    assert!(line.supplier.is_none());
    assert!(line.reference.is_none());
    assert!(line.substitutes.is_empty());
    assert!(line.sustainability.is_none());
    let blank = Component::default();
    assert_eq!(blank.part_id, "");
    assert_eq!(blank.quantity, Quantity::Units(1));
    assert!(blank.substitutes.is_empty());
}

#[test]
fn errors_describe_themselves() {
    assert_eq!(BomError::PartNotFound("ghost".to_string()).message(), "Part not found: ghost");
    assert_eq!(
        BomError::CircularDependency("A -> B".to_string()).message(),
        "Circular dependency detected: A -> B"
    );
    assert_eq!(
        BomError::QuantityCalculationOverflow { context: None }.message(),
        "Quantity calculation overflow during BOM explosion (likely due to deep hierarchy or cycle)"
    );
    assert_eq!(
        BomError::QuantityCalculationOverflow { context: Some("x".to_string()) }.message(),
        "Quantity calculation overflow during BOM explosion (likely due to deep hierarchy or cycle)"
    );
    assert_eq!(
        BomError::IncompatibleUnits("Units(1)".to_string(), "Units(2)".to_string()).message(),
        "Incompatible units: cannot operate on Units(1) and Units(2)"
    );
    assert_eq!(
        BomError::InvalidSubstituteRatio("zero".to_string()).message(),
        "Invalid substitute ratio: zero"
    );
    assert_eq!(BomError::DuplicatePartId("bolt".to_string()).message(), "Duplicate part ID: bolt");
    assert_eq!(
        BomError::InvalidStructure("empty".to_string()).message(),
        "Invalid BOM structure: empty"
    );
    assert_eq!(
        BomError::ConversionError("bad unit".to_string()).message(),
        "Conversion error: bad unit"
    );
}

#[test]
fn edge_label_joins_parent_and_child() {
    assert_eq!(bom_kit::error::edge_label("frame", "leg"), "frame -> leg");
    assert_eq!(bom_kit::error::edge_label("", ""), " -> ");
}
