//! Decimal text: what it stands for, and the conversions between text and numbers.

use vstd::prelude::*;
use crate::uint::{U256, u256_limit};

verus! {

/// Whether `c` is one of `0` to `9`.
pub open spec fn is_digit(c: char) -> bool {
    0x30 <= c as u32 <= 0x39
}

/// The number that the digit `c` stands for.
pub open spec fn digit_value(c: char) -> nat {
    (c as u32 - 0x30) as nat
}

/// The digit that stands for `d`.
pub open spec fn digit_char(d: nat) -> char {
    (d + 0x30) as u8 as char
}

/// Whether every character of `s` is a digit.
pub open spec fn all_digits(s: Seq<char>) -> bool {
    forall|i: int| 0 <= i < s.len() ==> is_digit(#[trigger] s[i])
}

/// The number that a string of digits stands for; the empty string stands for zero.
pub open spec fn dec_value(s: Seq<char>) -> nat
    decreases s.len(),
{
    if s.len() == 0 {
        0
    } else {
        dec_value(s.drop_last()) * 10 + digit_value(s.last())
    }
}

/// The decimal text of `n`, without leading zeros.
pub open spec fn dec_text(n: nat) -> Seq<char>
    decreases n,
{
    if n < 10 {
        seq![digit_char(n)]
    } else {
        dec_text(n / 10).push(digit_char(n % 10))
    }
}

/// The length of the longest prefix of `s` that holds digits only.
pub open spec fn digit_prefix_len(s: Seq<char>) -> nat
    decreases s.len(),
{
    if s.len() == 0 || !is_digit(s[0]) {
        0
    } else {
        1 + digit_prefix_len(s.drop_first())
    }
}

/// Whether `s` is what the standard parser of unsigned integers accepts: an optional `+`,
/// then at least one digit and nothing else.
pub open spec fn is_unsigned_text(s: Seq<char>) -> bool {
    let body = unsigned_body(s);
    body.len() > 0 && all_digits(body)
}

/// The digits of an unsigned integer's text: the text without a leading `+`.
pub open spec fn unsigned_body(s: Seq<char>) -> Seq<char> {
    if s.len() > 0 && s[0] == '+' {
        s.drop_first()
    } else {
        s
    }
}

/// Whether `s` is the text of a number that 64 bits hold.
pub open spec fn is_u64_text(s: Seq<char>) -> bool {
    is_unsigned_text(s) && dec_value(unsigned_body(s)) <= u64::MAX
}

/// Whether `s` is the text of a number that 32 bits hold.
pub open spec fn is_u32_text(s: Seq<char>) -> bool {
    is_unsigned_text(s) && dec_value(unsigned_body(s)) <= u32::MAX
}

/// Whether `s` is the text of a number that 256 bits hold.
pub open spec fn is_u256_text(s: Seq<char>) -> bool {
    all_digits(s) && dec_value(s) < u256_limit()
}

/// Round trip: the decimal text of a number holds digits only and stands for the number.
pub proof fn lemma_dec_round_trip(n: nat)
    ensures
        all_digits(dec_text(n)),
        dec_text(n).len() > 0,
        dec_value(dec_text(n)) == n,
    decreases n,
{
    if n < 10 {
        let s = dec_text(n);
        assert(s.drop_last() =~= Seq::<char>::empty());
        assert(dec_value(s.drop_last()) == 0);
        assert(s.last() == digit_char(n));
    } else {
        lemma_dec_round_trip(n / 10);
        let s = dec_text(n);
        assert(s.drop_last() =~= dec_text(n / 10));
        assert(s.last() == digit_char(n % 10));
    }
}

/// Why a decimal string is no 256-bit integer.
#[derive(Clone, Copy, Debug, PartialEq, Eq, Structural)]
pub enum FromDecStrErr {
    /// A character is not in the range `0` to `9`.
    InvalidCharacter,
    /// The number is too large for 256 bits.
    InvalidLength,
}

impl U256 {
    /// Reads a 256-bit integer from decimal text. Digits only are accepted, the empty text
    /// stands for zero, and the number has to fit.
    pub fn from_dec_str(text: &str) -> (r: Result<U256, FromDecStrErr>)
        ensures
            r.is_ok() == is_u256_text(text@),
            r matches Ok(v) ==> v.value() == dec_value(text@),
            r matches Err(e) ==> e == dec_failure(text@),
    {
        proof {
            lemma_digit_prefix(text@);
        }
        outside_from_dec_str(text)
    }

    /// The decimal text of the value.
    pub fn to_dec_string(&self) -> (r: String)
        ensures
            r@ == dec_text(self.value()),
    {
        outside_display(self)
    }
}

/// What is wrong with a decimal text that is no 256-bit integer: the digits before its
/// first other character are too many for 256 bits, or else that character is.
pub open spec fn dec_failure(s: Seq<char>) -> FromDecStrErr {
    if dec_value(s.take(digit_prefix_len(s) as int)) >= u256_limit() {
        FromDecStrErr::InvalidLength
    } else {
        FromDecStrErr::InvalidCharacter
    }
}

/// The digit prefix is a prefix of digits, it is the whole text exactly where the text
/// holds digits only, and the character after it is no digit.
pub proof fn lemma_digit_prefix(s: Seq<char>)
    ensures
        digit_prefix_len(s) <= s.len(),
        all_digits(s.take(digit_prefix_len(s) as int)),
        (digit_prefix_len(s) == s.len()) == all_digits(s),
        digit_prefix_len(s) < s.len() ==> !is_digit(s[digit_prefix_len(s) as int]),
    decreases s.len(),
{
    if s.len() == 0 || !is_digit(s[0]) {
        assert(s.take(0) =~= Seq::<char>::empty());
    } else {
        let rest = s.drop_first();
        lemma_digit_prefix(rest);
        let n = digit_prefix_len(rest);
        assert forall|i: int| 0 <= i < n + 1 implies is_digit(
            #[trigger] s.take(n as int + 1)[i],
        ) by {
            if i > 0 {
                assert(s.take(n as int + 1)[i] == rest.take(n as int)[i - 1]);
            }
        }
        if all_digits(s) {
            assert forall|i: int| 0 <= i < rest.len() implies is_digit(#[trigger] rest[i]) by {
                assert(rest[i] == s[i + 1]);
            }
        }
        if all_digits(rest) {
            assert forall|i: int| 0 <= i < s.len() implies is_digit(#[trigger] s[i]) by {
                if i > 0 {
                    assert(s[i] == rest[i - 1]);
                }
            }
        }
        if n < rest.len() {
            assert(s[n as int + 1] == rest[n as int]);
        }
    }
}

/// Calls `ethers_core::types::U256::from_dec_str`, which reads the text byte by byte: a
/// byte that is no digit gives `InvalidCharacter`, a digit with which the number leaves
/// 256 bits gives `InvalidLength`, whichever comes first.
#[verifier::external_body]
fn outside_from_dec_str(text: &str) -> (r: Result<U256, FromDecStrErr>)
    ensures
        r.is_ok() == (digit_prefix_len(text@) == text@.len() && dec_value(text@) < u256_limit()),
        r matches Ok(v) ==> v.value() == dec_value(text@),
        r matches Err(e) ==> e == dec_failure(text@),
{
    match ethers_core::types::U256::from_dec_str(text) {
        Ok(v) => Ok(U256 { limb0: v.0[0], limb1: v.0[1], limb2: v.0[2], limb3: v.0[3] }),
        Err(ethers_core::abi::ethereum_types::FromDecStrErr::InvalidCharacter) => Err(
            FromDecStrErr::InvalidCharacter,
        ),
        Err(ethers_core::abi::ethereum_types::FromDecStrErr::InvalidLength) => Err(
            FromDecStrErr::InvalidLength,
        ),
    }
}

/// Formats an `ethers_core::types::U256` with `{}`: its decimal digits without leading
/// zeros, `0` for zero.
#[verifier::external_body]
fn outside_display(value: &U256) -> (r: String)
    ensures
        r@ == dec_text(value.value()),
{
    let v = ethers_core::types::U256([value.limb0, value.limb1, value.limb2, value.limb3]);
    format!("{}", v)
}

/// Calls `str::parse::<u64>`: an optional `+`, then at least one digit and nothing else,
/// for a number that 64 bits hold.
#[verifier::external_body]
pub(crate) fn parse_u64(text: &str) -> (r: Option<u64>)
    ensures
        r.is_some() == is_u64_text(text@),
        r matches Some(v) ==> v == dec_value(unsigned_body(text@)),
{
    text.parse::<u64>().ok()
}

/// Reads a number that 32 bits hold, in the same form as one that 64 bits hold.
pub(crate) fn parse_u32(text: &str) -> (r: Option<u32>)
    ensures
        r.is_some() == is_u32_text(text@),
        r matches Some(v) ==> v == dec_value(unsigned_body(text@)),
{
    match parse_u64(text) {
        Some(v) => if v <= 0xffff_ffff {
            Some(v as u32)
        } else {
            None
        },
        None => None,
    }
}

/// Calls `u64::to_string`: the decimal digits without leading zeros.
#[verifier::external_body]
pub(crate) fn u64_text(value: u64) -> (r: String)
    ensures
        r@ == dec_text(value as nat),
{
    value.to_string()
}

/// Calls `String::push_str`: the text with `tail` after it.
#[verifier::external_body]
pub(crate) fn push_text(text: &mut String, tail: &str)
    ensures
        final(text)@ == old(text)@ + tail@,
{
    text.push_str(tail)
}

} // verus!
