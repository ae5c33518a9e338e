//! Account addresses and their canonical order.

use vstd::prelude::*;
use crate::hashing::keccak256_hash;
use crate::hexcode::{all_hex_digits, hex_bytes, hex_digit, hex_text, nibble, upper_hex_digit};

verus! {

/// The number that a byte string stands for when read with the most significant byte first.
pub open spec fn be_value(s: Seq<u8>) -> nat
    decreases s.len(),
{
    if s.len() == 0 {
        0
    } else {
        be_value(s.drop_last()) * 256 + s.last() as nat
    }
}

/// Byte strings of one length that stand for the same number are equal.
pub proof fn lemma_be_value_injective(s: Seq<u8>, t: Seq<u8>)
    requires
        s.len() == t.len(),
        be_value(s) == be_value(t),
    ensures
        s == t,
    decreases s.len(),
{
    if s.len() > 0 {
        let p = be_value(s.drop_last());
        let q = be_value(t.drop_last());
        assert(p == q && s.last() == t.last()) by {
            if p < q {
                assert(p * 256 + 256 <= q * 256);
            } else if q < p {
                assert(q * 256 + 256 <= p * 256);
            }
        }
        lemma_be_value_injective(s.drop_last(), t.drop_last());
        assert(s =~= s.drop_last().push(s.last()));
        assert(t =~= t.drop_last().push(t.last()));
    } else {
        assert(s =~= t);
    }
}

/// How one address stands to another in the canonical order.
#[derive(Clone, Copy, Debug, PartialEq, Eq, Structural)]
pub enum Rank {
    Below,
    Same,
    Above,
}

/// A 20-byte account address.
#[derive(Clone, Copy, Debug, PartialEq, Eq, Hash)]
pub struct Address {
    pub bytes: [u8; 20],
}

impl Address {
    /// The address as a number, most significant byte first. The canonical order of
    /// addresses is the order of their keys, which is the order of their bytes read
    /// left to right.
    pub open spec fn key(self) -> nat {
        be_value(self.bytes@)
    }

    /// Addresses with one key are one address.
    pub proof fn lemma_key_injective(self, other: Address)
        requires
            self.key() == other.key(),
        ensures
            self == other,
    {
        lemma_be_value_injective(self.bytes@, other.bytes@);
        assert(self.bytes@ =~= other.bytes@);
        assert(self.bytes == other.bytes);
    }

    /// Compares two addresses byte by byte from the left.
    pub fn rank(&self, other: &Address) -> (r: Rank)
        ensures
            (r == Rank::Below) == (self.key() < other.key()),
            (r == Rank::Same) == (self == other),
            (r == Rank::Above) == (self.key() > other.key()),
    {
        let mut r = Rank::Same;
        let mut i: usize = 0;
        assert(self.bytes@.take(0) =~= Seq::<u8>::empty());
        assert(other.bytes@.take(0) =~= Seq::<u8>::empty());
        while i < 20
            invariant
                i <= 20,
                (r == Rank::Below) == (be_value(self.bytes@.take(i as int)) < be_value(
                    other.bytes@.take(i as int),
                )),
                (r == Rank::Above) == (be_value(self.bytes@.take(i as int)) > be_value(
                    other.bytes@.take(i as int),
                )),
            decreases 20 - i,
        {
            let a = self.bytes[i];
            let b = other.bytes[i];
            proof {
                let sa = self.bytes@.take(i as int + 1);
                let sb = other.bytes@.take(i as int + 1);
                assert(sa.drop_last() =~= self.bytes@.take(i as int));
                assert(sb.drop_last() =~= other.bytes@.take(i as int));
                assert(sa.last() == a && sb.last() == b);
                let p = be_value(self.bytes@.take(i as int));
                let q = be_value(other.bytes@.take(i as int));
                if p < q {
                    assert(p * 256 + 256 <= q * 256);
                } else if q < p {
                    assert(q * 256 + 256 <= p * 256);
                }
            }
            if r == Rank::Same {
                if a < b {
                    r = Rank::Below;
                } else if a > b {
                    r = Rank::Above;
                }
            }
            i += 1;
        }
        proof {
            assert(self.bytes@.take(20) =~= self.bytes@);
            assert(other.bytes@.take(20) =~= other.bytes@);
            if r == Rank::Same {
                self.lemma_key_injective(*other);
            }
        }
        r
    }

    /// Whether the two addresses are the same.
    pub fn same(&self, other: &Address) -> (r: bool)
        ensures
            r == (self == other),
    {
        self.rank(other) == Rank::Same
    }
}

/// Whether `list` holds `a`.
pub fn contains_address(list: &Vec<Address>, a: &Address) -> (r: bool)
    ensures
        r == list@.contains(*a),
{
    let mut i: usize = 0;
    while i < list.len()
        invariant
            i <= list.len(),
            forall|j: int| 0 <= j < i ==> list@[j] != *a,
        decreases list.len() - i,
    {
        if list[i].same(a) {
            return true;
        }
        i += 1;
    }
    false
}

/// Whether `c` is a character that the address parser passes over.
pub open spec fn is_hex_space(c: char) -> bool {
    c == ' ' || c == '\r' || c == '\n' || c == '\t'
}

/// The text without one `0x` at its start.
pub open spec fn without_0x(s: Seq<char>) -> Seq<char> {
    if s.len() >= 2 && s[0] == '0' && s[1] == 'x' {
        s.skip(2)
    } else {
        s
    }
}

/// The characters of an address text that count: those after the `0x`, blanks left out.
pub open spec fn address_digits(s: Seq<char>) -> Seq<char> {
    without_0x(s).filter(|c: char| !is_hex_space(c))
}

/// Whether `s` is the text of an address: 40 hexadecimal digits of either case, with or
/// without `0x` before them.
pub open spec fn is_address_text(s: Seq<char>) -> bool {
    address_digits(s).len() == 40 && all_hex_digits(address_digits(s))
}

/// The bytes of the lower-case hexadecimal text of `bytes`.
pub open spec fn hex_ascii(bytes: Seq<u8>) -> Seq<u8> {
    hex_text(bytes).map_values(|c: char| c as u8)
}

/// The `i`-th digit of the checksummed text of `bytes`: in upper case where the matching
/// half byte of `hash` is 8 or more.
pub open spec fn checksum_digit(bytes: Seq<u8>, hash: Seq<u8>, i: int) -> char {
    if nibble(hash, i) >= 8 {
        upper_hex_digit(nibble(bytes, i))
    } else {
        hex_digit(nibble(bytes, i))
    }
}

/// The checksummed text of an address: `0x`, then its hexadecimal digits, cased by the
/// Keccak-256 hash of its lower-case hexadecimal text.
pub open spec fn checksum_text(bytes: Seq<u8>) -> Seq<char> {
    seq!['0', 'x'] + Seq::new(
        2 * bytes.len(),
        |i: int| checksum_digit(bytes, keccak256_hash(hex_ascii(bytes)), i),
    )
}

impl Address {
    /// Reads an address from its text.
    pub fn from_text(text: &str) -> (r: Option<Address>)
        ensures
            r.is_some() == is_address_text(text@),
            r matches Some(a) ==> a.bytes@ == hex_bytes(address_digits(text@)),
    {
        outside_parse_address(text)
    }

    /// The checksummed text of the address.
    pub fn to_checksum(&self) -> (r: String)
        ensures
            r@ == checksum_text(self.bytes@),
    {
        outside_to_checksum(self)
    }
}

/// Calls `str::parse::<ethers_core::types::Address>`, which drops one `0x` at the start,
/// passes over blanks, tabs and line ends, and wants exactly 40 hexadecimal digits.
#[verifier::external_body]
fn outside_parse_address(text: &str) -> (r: Option<Address>)
    ensures
        r.is_some() == is_address_text(text@),
        r matches Some(a) ==> a.bytes@ == hex_bytes(address_digits(text@)),
{
    text.parse::<ethers_core::types::Address>().ok().map(|a| Address { bytes: a.0 })
}

/// Calls `ethers_core::utils::to_checksum` without a chain id: `0x`, then the 40 hexadecimal
/// digits of the address, a letter in upper case where the digit at the same place in the
/// Keccak-256 hash of the 40 lower-case digits is 8 or more.
#[verifier::external_body]
fn outside_to_checksum(a: &Address) -> (r: String)
    ensures
        r@ == checksum_text(a.bytes@),
{
    ethers_core::utils::to_checksum(&ethers_core::types::H160(a.bytes), None)
}

} // verus!
