//! Addresses as checksummed text.

use vstd::prelude::*;
use crate::address::{Address, checksum_text};

verus! {

/// The checksummed text of an address.
pub fn serialize(value: &Address) -> (r: String)
    ensures
        r@ == checksum_text(value.bytes@),
{
    value.to_checksum()
}

} // verus!
