//! The text forms in which amounts, addresses and signatures travel.

use vstd::prelude::*;
use crate::address::{Address, checksum_text};

pub mod checksumed_address;
pub mod hex_bytes;
pub mod u256_dec;

verus! {

/// Stands for the checksummed text of an address where a list of addresses is written.
#[derive(Clone, Copy, Debug, PartialEq, Eq, Structural)]
pub struct ChecksumedAddress;

impl ChecksumedAddress {
    /// The checksummed text of `source`.
    pub fn serialize_as(source: &Address) -> (r: String)
        ensures
            r@ == checksum_text(source.bytes@),
    {
        checksumed_address::serialize(source)
    }
}

} // verus!
