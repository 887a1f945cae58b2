//! The lines of a bill of materials.

use vstd::prelude::*;
use crate::decimal::DecimalValue;
use crate::part::PartId;
use crate::quantity::Quantity;
use crate::substitute::Substitute;

verus! {

/// One line of a bill of materials: a part and how much of it one unit of
/// the parent takes.
#[derive(Debug, Clone)]
pub struct Component {
    /// The part this line refers to.
    pub part_id: PartId,
    /// The quantity per unit of the parent.
    pub quantity: Quantity,
    /// Unit cost.
    pub cost: Option<DecimalValue>,
    pub supplier: Option<String>,
    /// Reference designator ("R1", "C1").
    pub reference: Option<String>,
    /// Parts that may replace this one.
    pub substitutes: Vec<Substitute>,
    pub sustainability: Option<Sustainability>,
}

/// Environmental data of a component.
#[derive(Debug, Clone)]
pub struct Sustainability {
    pub carbon_footprint: Option<DecimalValue>,
    pub recyclable: bool,
    pub origin_country: Option<String>,
}

impl Component {
    /// Whether the line says no more than a part and a quantity.
    pub open spec fn is_plain(self) -> bool {
        &&& self.cost is None
        &&& self.supplier is None
        &&& self.reference is None
        &&& self.substitutes@.len() == 0
        &&& self.sustainability is None
    }

    /// Whether the line is the plain line for `quantity` of part `part_id`.
    pub open spec fn is_line(self, part_id: Seq<char>, quantity: Quantity) -> bool {
        &&& self.part_id@ == part_id
        &&& self.quantity == quantity
        &&& self.is_plain()
    }

    /// The plain line for `quantity` of part `part_id`.
    pub fn line(part_id: PartId, quantity: Quantity) -> (component: Self)
        ensures
            component.is_line(part_id@, quantity),
            component.part_id == part_id,
    {
        Component {
            part_id,
            quantity,
            cost: None,
            supplier: None,
            reference: None,
            substitutes: Vec::new(),
            sustainability: None,
        }
    }
}

impl Default for Component {
    fn default() -> (component: Self)
        ensures
            component.is_line(Seq::empty(), Quantity::Units(1)),
    {
        Component::line(String::new(), Quantity::Units(1))
    }
}

} // verus!
