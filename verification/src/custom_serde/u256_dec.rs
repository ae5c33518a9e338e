//! Amounts as decimal text.

use vstd::prelude::*;
use crate::decimal::{FromDecStrErr, dec_failure, dec_text, dec_value, is_u256_text};
use crate::uint::U256;

verus! {

/// The decimal text of an amount.
pub fn serialize(value: &U256) -> (r: String)
    ensures
        r@ == dec_text(value.value()),
{
    value.to_dec_string()
}

/// The amount that a decimal text stands for.
pub fn deserialize(value: &str) -> (r: Result<U256, FromDecStrErr>)
    ensures
        r.is_ok() == is_u256_text(value@),
        r matches Ok(v) ==> v.value() == dec_value(value@),
        r matches Err(e) ==> e == dec_failure(value@),
{
    U256::from_dec_str(value)
}

} // verus!
