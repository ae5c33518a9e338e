//! Hexadecimal text of byte strings.

use vstd::prelude::*;

verus! {

/// The lower-case hexadecimal digit of a number below 16.
pub open spec fn hex_digit(n: nat) -> char {
    if n < 10 {
        (n + 0x30) as u8 as char
    } else {
        (n + 0x57) as u8 as char
    }
}

/// The upper-case hexadecimal digit of a number below 16.
pub open spec fn upper_hex_digit(n: nat) -> char {
    if n < 10 {
        (n + 0x30) as u8 as char
    } else {
        (n + 0x37) as u8 as char
    }
}

/// The number that a hexadecimal digit of either case stands for.
pub open spec fn hex_digit_value(c: char) -> Option<nat> {
    let u = c as u32;
    if 0x30 <= u <= 0x39 {
        Some((u - 0x30) as nat)
    } else if 0x61 <= u <= 0x66 {
        Some((u - 0x57) as nat)
    } else if 0x41 <= u <= 0x46 {
        Some((u - 0x37) as nat)
    } else {
        None
    }
}

/// The `i`-th half byte of `bytes`, the high half of each byte first.
pub open spec fn nibble(bytes: Seq<u8>, i: int) -> nat {
    if i % 2 == 0 {
        (bytes[i / 2] / 16) as nat
    } else {
        (bytes[i / 2] % 16) as nat
    }
}

/// The lower-case hexadecimal text of `bytes`: two digits per byte.
pub open spec fn hex_text(bytes: Seq<u8>) -> Seq<char> {
    Seq::new(2 * bytes.len(), |i: int| hex_digit(nibble(bytes, i)))
}

/// Whether every character of `s` is a hexadecimal digit.
pub open spec fn all_hex_digits(s: Seq<char>) -> bool {
    forall|i: int| 0 <= i < s.len() ==> hex_digit_value(#[trigger] s[i]).is_some()
}

/// Whether `s` is the hexadecimal text of some bytes: digits only, and a pair for each.
pub open spec fn is_hex_text(s: Seq<char>) -> bool {
    s.len() % 2 == 0 && all_hex_digits(s)
}

/// The bytes that a hexadecimal text stands for.
pub open spec fn hex_bytes(s: Seq<char>) -> Seq<u8> {
    Seq::new(
        s.len() / 2,
        |i: int|
            (16 * hex_digit_value(s[2 * i]).unwrap() + hex_digit_value(
                s[2 * i + 1],
            ).unwrap()) as u8,
    )
}

/// Round trip: the hexadecimal text of bytes is a hexadecimal text, and stands for them.
pub proof fn lemma_hex_round_trip(bytes: Seq<u8>)
    ensures
        is_hex_text(hex_text(bytes)),
        hex_bytes(hex_text(bytes)) == bytes,
{
    let t = hex_text(bytes);
    assert forall|i: int| 0 <= i < t.len() implies hex_digit_value(#[trigger] t[i]).is_some()
        && hex_digit_value(t[i]).unwrap() == nibble(bytes, i) by {
        let n = nibble(bytes, i);
        assert(n < 16);
    }
    assert forall|i: int| 0 <= i < bytes.len() implies hex_bytes(t)[i] == bytes[i] by {
        assert(hex_digit_value(t[2 * i]).unwrap() == nibble(bytes, 2 * i));
        assert(hex_digit_value(t[2 * i + 1]).unwrap() == nibble(bytes, 2 * i + 1));
        assert(nibble(bytes, 2 * i) == bytes[i] / 16);
        assert(nibble(bytes, 2 * i + 1) == bytes[i] % 16);
    }
    assert(hex_bytes(t) =~= bytes);
}

/// The text without every `0x` that it starts with.
pub open spec fn without_leading_0x(s: Seq<char>) -> Seq<char>
    decreases s.len(),
{
    if s.len() >= 2 && s[0] == '0' && s[1] == 'x' {
        without_leading_0x(s.skip(2))
    } else {
        s
    }
}

/// The error of `hex::decode`, which is handed on as it is.
#[verifier::external_type_specification]
#[verifier::external_body]
pub struct ExFromHexError(hex::FromHexError);

/// Calls `hex::encode`: two lower-case digits for each byte.
#[verifier::external_body]
pub(crate) fn hex_encode(data: &[u8]) -> (r: String)
    ensures
        r@ == hex_text(data@),
{
    hex::encode(data)
}

/// Calls `hex::decode`, which accepts digits of either case and wants a pair of them for
/// each byte.
#[verifier::external_body]
pub(crate) fn hex_decode(text: &str) -> (r: Result<Vec<u8>, hex::FromHexError>)
    ensures
        r.is_ok() == is_hex_text(text@),
        r matches Ok(v) ==> v@ == hex_bytes(text@),
{
    hex::decode(text)
}

/// Calls `str::trim_start_matches` with the pattern `0x`: the text without every `0x`
/// that it starts with.
#[verifier::external_body]
pub(crate) fn trim_leading_0x(text: &str) -> (r: &str)
    ensures
        r@ == without_leading_0x(text@),
{
    text.trim_start_matches("0x")
}

} // verus!
