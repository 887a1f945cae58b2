//! Fixed-point decimal values, and the arithmetic that `rust_decimal` does on
//! them.
//!
//! A [`DecimalValue`] holds the two numbers that make up a `rust_decimal`
//! decimal: a signed mantissa of at most 96 bits and a scale between 0 and
//! 28. Its value is `mantissa / 10^scale`.
//!
//! The arithmetic itself is `rust_decimal`'s. Each operation hands its
//! operands over with `Decimal::from_i128_with_scale`, which accepts every
//! mantissa and scale that a `DecimalValue` can hold, and reads the result
//! back with `Decimal::mantissa` and `Decimal::scale`. What the operations
//! return is stated here and not proved.

use vstd::prelude::*;

verus! {

/// The largest scale of a decimal.
pub const MAX_SCALE: u32 = 28;

/// The largest magnitude of a mantissa: `2^96 - 1`.
pub const MAX_MANTISSA: i128 = 0x0000_0000_FFFF_FFFF_FFFF_FFFF_FFFF_FFFF;

/// Whether a mantissa and a scale make up a decimal.
pub open spec fn representable(mantissa: int, scale: nat) -> bool {
    -MAX_MANTISSA <= mantissa <= MAX_MANTISSA && scale <= MAX_SCALE
}

/// Ten to the power `exponent`.
pub open spec fn pow10(exponent: nat) -> nat
    decreases exponent,
{
    if exponent == 0 {
        1
    } else {
        10 * pow10((exponent - 1) as nat)
    }
}

/// `magnitude / 10^scale`, rounded to the nearest integer, a tie going to the
/// even neighbour.
pub open spec fn round_half_even_magnitude(magnitude: nat, scale: nat) -> nat {
    let unit = pow10(scale);
    let whole = magnitude / unit;
    let rest = magnitude % unit;
    if 2 * rest > unit || (2 * rest == unit && whole % 2 == 1) {
        whole + 1
    } else {
        whole
    }
}

/// `mantissa / 10^scale`, rounded to the nearest integer, a tie going to the
/// even neighbour.
pub open spec fn round_half_even(mantissa: int, scale: nat) -> int {
    if mantissa < 0 {
        -(round_half_even_magnitude((-mantissa) as nat, scale) as int)
    } else {
        round_half_even_magnitude(mantissa as nat, scale) as int
    }
}

/// The mantissa and scale of the product of two decimals as `rust_decimal`
/// computes it, or `None` where the product does not fit.
pub uninterp spec fn decimal_product(
    left_mantissa: int,
    left_scale: nat,
    right_mantissa: int,
    right_scale: nat,
) -> Option<(int, nat)>;

/// A decimal number as mantissa and scale.
#[derive(Debug, Clone, Copy, PartialEq, Eq)]
pub struct DecimalValue {
    mantissa: i128,
    scale: u32,
}

impl DecimalValue {
    #[verifier::type_invariant]
    pub closed spec fn well_formed(self) -> bool {
        representable(self.mantissa as int, self.scale as nat)
    }

    /// The mantissa, as an integer.
    pub closed spec fn spec_mantissa(&self) -> i128 {
        self.mantissa
    }

    /// The scale: the number of digits after the decimal point.
    pub closed spec fn spec_scale(&self) -> u32 {
        self.scale
    }

    /// The decimal `mantissa / 10^scale`, or `None` where the two numbers are
    /// out of range.
    pub fn new(mantissa: i128, scale: u32) -> (value: Option<Self>)
        ensures
            value is Some <==> representable(mantissa as int, scale as nat),
            value matches Some(v) ==> v.spec_mantissa() == mantissa && v.spec_scale() == scale,
    {
        if scale <= MAX_SCALE && -MAX_MANTISSA <= mantissa && mantissa <= MAX_MANTISSA {
            Some(DecimalValue { mantissa, scale })
        } else {
            None
        }
    }

    #[verifier::when_used_as_spec(spec_mantissa)]
    pub fn mantissa(&self) -> (mantissa: i128)
        ensures
            mantissa == self.spec_mantissa(),
            -MAX_MANTISSA <= mantissa <= MAX_MANTISSA,
    {
        proof {
            use_type_invariant(self);
        }
        self.mantissa
    }

    #[verifier::when_used_as_spec(spec_scale)]
    pub fn scale(&self) -> (scale: u32)
        ensures
            scale == self.spec_scale(),
            scale <= MAX_SCALE,
    {
        proof {
            use_type_invariant(self);
        }
        self.scale
    }
}

/// The count that a whole number stands for, where it is one.
pub open spec fn count_of(mantissa: int) -> Option<u32> {
    if 0 <= mantissa <= u32::MAX {
        Some(mantissa as u32)
    } else {
        None
    }
}

/// `Decimal::from(u32)` of `rust_decimal`: the decimal with the count as its
/// mantissa and scale 0. Not proved.
#[verifier::external_body]
pub(crate) fn decimal_of_u32(count: u32) -> (value: DecimalValue)
    ensures
        value.spec_mantissa() == count,
        value.spec_scale() == 0,
{
    let decimal = rust_decimal::Decimal::from(count);
    DecimalValue { mantissa: decimal.mantissa(), scale: decimal.scale() }
}

/// `Decimal + Decimal` of `rust_decimal`, on two whole numbers between 0 and
/// `u32::MAX`: the sum is exact and has scale 0. Not proved. The addition
/// overflows on no such operands.
#[verifier::external_body]
pub(crate) fn decimal_sum(left: DecimalValue, right: DecimalValue) -> (sum: DecimalValue)
    requires
        left.spec_scale() == 0,
        right.spec_scale() == 0,
        0 <= left.spec_mantissa() <= u32::MAX,
        0 <= right.spec_mantissa() <= u32::MAX,
    ensures
        sum.spec_mantissa() == left.spec_mantissa() + right.spec_mantissa(),
        sum.spec_scale() == 0,
{
    let a = rust_decimal::Decimal::from_i128_with_scale(left.mantissa, left.scale);
    let b = rust_decimal::Decimal::from_i128_with_scale(right.mantissa, right.scale);
    let decimal = a + b;
    DecimalValue { mantissa: decimal.mantissa(), scale: decimal.scale() }
}

/// `Decimal::checked_mul` of `rust_decimal`: the product as that crate
/// computes it, which `decimal_product` names, and `None` where the crate
/// reports an overflow. Not proved; nothing is claimed of the product but
/// that it depends on the operands alone.
#[verifier::external_body]
pub(crate) fn decimal_checked_product(left: DecimalValue, right: DecimalValue) -> (product: Option<
    DecimalValue,
>)
    ensures
        match decimal_product(
            left.spec_mantissa() as int,
            left.spec_scale() as nat,
            right.spec_mantissa() as int,
            right.spec_scale() as nat,
        ) {
            Some((mantissa, scale)) => product matches Some(p) && p.spec_mantissa() == mantissa
                && p.spec_scale() == scale,
            None => product is None,
        },
{
    let a = rust_decimal::Decimal::from_i128_with_scale(left.mantissa, left.scale);
    let b = rust_decimal::Decimal::from_i128_with_scale(right.mantissa, right.scale);
    match a.checked_mul(b) {
        Some(decimal) => Some(DecimalValue { mantissa: decimal.mantissa(), scale: decimal.scale() }),
        None => None,
    }
}

/// `Decimal::round` of `rust_decimal`: the nearest whole number, a tie going
/// to the even neighbour, with scale 0. The sign is that of the operand. Not
/// proved.
#[verifier::external_body]
pub(crate) fn decimal_rounded(value: DecimalValue) -> (rounded: DecimalValue)
    ensures
        rounded.spec_mantissa() == round_half_even(value.spec_mantissa() as int, value.spec_scale() as nat),
        rounded.spec_scale() == 0,
{
    let decimal = rust_decimal::Decimal::from_i128_with_scale(value.mantissa, value.scale).round();
    DecimalValue { mantissa: decimal.mantissa(), scale: decimal.scale() }
}

/// `u32::try_from(Decimal)` of `rust_decimal`, on a whole number: the number
/// itself where it lies between 0 and `u32::MAX`, and a failure elsewhere.
/// Not proved.
#[verifier::external_body]
pub(crate) fn decimal_to_u32(value: DecimalValue) -> (count: Option<u32>)
    requires
        value.spec_scale() == 0,
    ensures
        count == count_of(value.spec_mantissa() as int),
{
    let decimal = rust_decimal::Decimal::from_i128_with_scale(value.mantissa, value.scale);
    match u32::try_from(decimal) {
        Ok(count) => Some(count),
        Err(_) => None,
    }
}

} // verus!
