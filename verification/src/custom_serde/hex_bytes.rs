//! Byte strings as hexadecimal text after `0x`.

use vstd::prelude::*;
use crate::decimal::push_text;
use crate::hexcode::{
    hex_bytes,
    hex_decode,
    hex_encode,
    hex_text,
    is_hex_text,
    trim_leading_0x,
    without_leading_0x,
};

verus! {

/// Why a text stands for no bytes.
#[derive(Clone, Copy, Debug, PartialEq, Eq, Structural)]
pub enum HexError {
    /// After its `0x` the text holds something other than pairs of hexadecimal digits.
    InvalidHex,
}

/// `0x`, then two lower-case hexadecimal digits for each byte.
pub fn serialize(value: &[u8]) -> (r: String)
    ensures
        r@ == "0x"@ + hex_text(value@),
{
    let mut text = "0x".to_owned();
    push_text(&mut text, hex_encode(value).as_str());
    text
}

/// The bytes that a hexadecimal text stands for. Every `0x` at its start is passed over.
pub fn deserialize(value: &str) -> (r: Result<Vec<u8>, HexError>)
    ensures
        r.is_ok() == is_hex_text(without_leading_0x(value@)),
        r matches Ok(bytes) ==> bytes@ == hex_bytes(without_leading_0x(value@)),
{
    match hex_decode(trim_leading_0x(value)) {
        Ok(bytes) => Ok(bytes),
        Err(_) => Err(HexError::InvalidHex),
    }
}

} // verus!
