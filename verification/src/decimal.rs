use vstd::prelude::*;
use std::str::FromStr;

verus! {

/// `rust_decimal::Decimal`, an exact decimal number, carried through without
/// looking inside.
#[verifier::external_type_specification]
#[verifier::external_body]
pub struct ExDecimal(rust_decimal::Decimal);

/// What `rust_decimal::Decimal::from_str` makes of a text: the number it
/// reads, or `None` where it rejects the text.
pub uninterp spec fn decimal_from_str(text: Seq<char>) -> Option<rust_decimal::Decimal>;

/// `rust_decimal::Decimal::from_str`, with its error dropped.
#[verifier::external_body]
pub(crate) fn parse_decimal(text: &str) -> (value: Option<rust_decimal::Decimal>)
    ensures
        value == decimal_from_str(text@),
{
    rust_decimal::Decimal::from_str(text).ok()
}

} // verus!
