//! Quantities of parts and the units they are counted in.

use vstd::prelude::*;
use vstd::string::StringExecFns;
use crate::decimal::{
    count_of, decimal_checked_product, decimal_of_u32, decimal_product, decimal_rounded,
    decimal_sum, decimal_to_u32, round_half_even, DecimalValue,
};
use crate::error::BomError;
use crate::text::{digits, render_count};

verus! {

/// How much of a part is needed.
#[derive(Debug, Clone, Copy, PartialEq, Eq, Hash, Structural)]
pub enum Quantity {
    /// Discrete units (5 screws).
    Units(u32),
}

/// The kinds of unit by which quantities are compared.
#[derive(Debug, Clone, Copy, PartialEq, Eq, Hash, Structural)]
pub enum Unit {
    Count,
}

impl Default for Quantity {
    fn default() -> (quantity: Self)
        ensures
            quantity == Quantity::Units(1),
    {
        Quantity::Units(1)
    }
}

/// The count that a whole number stands for, and `u32::MAX` where it stands
/// for none.
pub open spec fn count_or_max(whole: int) -> u32 {
    match count_of(whole) {
        Some(count) => count,
        None => u32::MAX,
    }
}

impl Quantity {
    /// The number of base units.
    pub open spec fn count(self) -> nat {
        match self {
            Quantity::Units(n) => n as nat,
        }
    }

    /// The kind of unit the quantity is counted in.
    pub open spec fn unit(self) -> Unit {
        match self {
            Quantity::Units(_) => Unit::Count,
        }
    }

    /// The sum of two counts in the unit of the first, held at `u32::MAX`
    /// where it would pass it.
    pub open spec fn plus(self, other: Quantity) -> Quantity {
        match self {
            Quantity::Units(n) => Quantity::Units(
                if n + other.count() <= u32::MAX {
                    (n + other.count()) as u32
                } else {
                    u32::MAX
                },
            ),
        }
    }

    /// The text `describe` returns: the variant and its count.
    pub open spec fn description(self) -> Seq<char> {
        "Units("@ + digits(self.count()) + ")"@
    }

    /// The text `to_text` returns: the count and its unit.
    pub open spec fn text(self) -> Seq<char> {
        digits(self.count()) + " units"@
    }

    /// The quantity that a decimal amount of `unit` comes to: the amount
    /// rounded to the nearest whole, and `u32::MAX` where that is negative or
    /// too large.
    pub open spec fn of_amount(unit: Unit, mantissa: int, scale: nat) -> Quantity {
        match unit {
            Unit::Count => Quantity::Units(count_or_max(round_half_even(mantissa, scale))),
        }
    }

    /// The quantity in its base unit, as a decimal.
    pub fn to_base_unit(&self) -> (base: (Unit, DecimalValue))
        ensures
            base.0 == self.unit(),
            base.1.spec_mantissa() == self.count(),
            base.1.spec_scale() == 0,
    {
        match self {
            Quantity::Units(n) => (Unit::Count, decimal_of_u32(*n)),
        }
    }

    /// Whether two quantities can be added.
    pub fn is_compatible(&self, other: &Self) -> (compatible: bool)
        ensures
            compatible == (self.unit() == other.unit()),
    {
        let (left, _) = self.to_base_unit();
        let (right, _) = other.to_base_unit();
        left == right
    }

    /// The sum of two quantities of one kind, held at `u32::MAX` where it
    /// would pass it.
    pub fn add(&self, other: &Self) -> (sum: Result<Self, BomError>)
        ensures
            match sum {
                Ok(total) => self.unit() == other.unit() && total == self.plus(*other),
                Err(BomError::IncompatibleUnits(left, right)) => self.unit() != other.unit()
                    && left@ == self.description() && right@ == other.description(),
                Err(_) => false,
            },
    {
        if !self.is_compatible(other) {
            return Err(BomError::IncompatibleUnits(self.describe(), other.describe()));
        }
        let (unit, left) = self.to_base_unit();
        let (_, right) = other.to_base_unit();
        let total = decimal_sum(left, right);
        Ok(
            match unit {
                Unit::Count => Quantity::Units(
                    match decimal_to_u32(total) {
                        Some(count) => count,
                        None => u32::MAX,
                    },
                ),
            },
        )
    }

    /// The quantity that a decimal amount of `unit` comes to.
    pub fn from_amount(unit: Unit, amount: DecimalValue) -> (quantity: Self)
        ensures
            quantity == Self::of_amount(
                unit,
                amount.spec_mantissa() as int,
                amount.spec_scale() as nat,
            ),
    {
        let whole = decimal_rounded(amount);
        match unit {
            Unit::Count => Quantity::Units(
                match decimal_to_u32(whole) {
                    Some(count) => count,
                    None => u32::MAX,
                },
            ),
        }
    }

    /// The quantity times a factor, where the decimal product exists.
    pub fn multiply(&self, factor: DecimalValue) -> (scaled: Self)
        requires
            decimal_product(
                self.count() as int,
                0,
                factor.spec_mantissa() as int,
                factor.spec_scale() as nat,
            ) is Some,
        ensures
            decimal_product(
                self.count() as int,
                0,
                factor.spec_mantissa() as int,
                factor.spec_scale() as nat,
            ) matches Some((mantissa, scale)) && scaled == Self::of_amount(
                self.unit(),
                mantissa,
                scale,
            ),
    {
        let (unit, base) = self.to_base_unit();
        match decimal_checked_product(base, factor) {
            Some(product) => Self::from_amount(unit, product),
            None => {
                // The product exists, so this arm is never taken.
                assert(false);
                *self
            },
        }
    }

    /// The quantity times a factor, or `None` where the decimal product does
    /// not exist.
    pub fn checked_multiply(&self, factor: DecimalValue) -> (scaled: Option<Self>)
        ensures
            match decimal_product(
                self.count() as int,
                0,
                factor.spec_mantissa() as int,
                factor.spec_scale() as nat,
            ) {
                Some((mantissa, scale)) => scaled == Some(
                    Self::of_amount(self.unit(), mantissa, scale),
                ),
                None => scaled is None,
            },
    {
        let (_, base) = self.to_base_unit();
        match decimal_checked_product(base, factor) {
            Some(_) => Some(self.multiply(factor)),
            None => None,
        }
    }

    /// The quantity as it is shown to a reader: `5 units`.
    pub fn to_text(&self) -> (text: String)
        ensures
            text@ == self.text(),
    {
        match self {
            Quantity::Units(n) => render_count(*n).concat(" units"),
        }
    }

    /// The quantity as it is shown in a diagnostic: `Units(5)`.
    pub fn describe(&self) -> (text: String)
        ensures
            text@ == self.description(),
    {
        match self {
            Quantity::Units(n) => {
                let count = render_count(*n);
                String::from_str("Units(").concat(count.as_str()).concat(")")
            },
        }
    }
}

} // verus!
