//! Parts that may stand in for another, and at what ratio.

use vstd::prelude::*;
use vstd::string::StringExecFns;
use crate::decimal::DecimalValue;
use crate::part::PartId;
use crate::quantity::Quantity;

verus! {

/// A part that may replace another.
#[derive(Debug, Clone)]
pub struct Substitute {
    /// The replacing part.
    pub part_id: PartId,
    /// How much of it replaces one unit.
    pub ratio: SubstituteRatio,
    /// The lower, the more preferred.
    pub priority: u32,
}

/// How much of a substitute replaces the part it stands in for.
#[derive(Debug, Clone)]
pub enum SubstituteRatio {
    /// One for one.
    OneToOne,
    /// A fixed factor: one unit is replaced by this many.
    Fixed(DecimalValue),
    /// A pair of quantities: one litre is replaced by 950 ml.
    QuantityBased { original: Quantity, substitute: Quantity },
}

impl Substitute {
    /// A one-for-one substitute of the highest priority.
    pub fn one_to_one(part_id: &str) -> (substitute: Self)
        ensures
            substitute.part_id@ == part_id@,
            substitute.ratio is OneToOne,
            substitute.priority == 0,
    {
        Substitute { part_id: String::from_str(part_id), ratio: SubstituteRatio::OneToOne, priority: 0 }
    }
}

} // verus!
