//! 256-bit and 512-bit unsigned integers, held as 64-bit limbs, least significant first.
//!
//! The limbs are plain fields, so the number a value stands for is an ordinary spec
//! function. Arithmetic that needs carries across limbs is done by `ethers_core`'s
//! integer types; each such call is a small function whose contract is stated over
//! [`U256::value`] and [`U512::value`].

use vstd::prelude::*;

verus! {

/// The weight of one limb: 2^64.
pub open spec fn limb_base() -> nat {
    0x1_0000_0000_0000_0000
}

/// The first number that no `U256` holds: 2^256.
pub open spec fn u256_limit() -> nat {
    limb_base() * limb_base() * limb_base() * limb_base()
}

/// An unsigned 256-bit integer.
#[derive(Clone, Copy, Debug, PartialEq, Eq, Hash, Structural)]
pub struct U256 {
    pub limb0: u64,
    pub limb1: u64,
    pub limb2: u64,
    pub limb3: u64,
}

/// An unsigned 512-bit integer: `low + 2^256 * high`.
#[derive(Clone, Copy, Debug, PartialEq, Eq, Hash, Structural)]
pub struct U512 {
    pub low: U256,
    pub high: U256,
}

impl U256 {
    /// The number that the four limbs stand for.
    pub open spec fn value(self) -> nat {
        self.limb0 as nat + limb_base() * (self.limb1 as nat + limb_base() * (self.limb2 as nat
            + limb_base() * (self.limb3 as nat)))
    }

    /// Every value is below 2^256, and the limbs are determined by the number.
    pub proof fn lemma_value_bounded(self)
        ensures
            self.value() < u256_limit(),
    {
    }

    /// Two values that stand for the same number are the same value.
    pub proof fn lemma_value_injective(self, other: U256)
        requires
            self.value() == other.value(),
        ensures
            self == other,
    {
        let b = limb_base() as int;
        let hi_a = self.limb1 as int + b * (self.limb2 as int + b * (self.limb3 as int));
        let hi_b = other.limb1 as int + b * (other.limb2 as int + b * (other.limb3 as int));
        assert(self.limb0 as int + b * hi_a == other.limb0 as int + b * hi_b);
        assert(hi_a == hi_b && self.limb0 == other.limb0) by {
            if hi_a < hi_b {
                assert(b * hi_a + b <= b * hi_b);
            } else if hi_b < hi_a {
                assert(b * hi_b + b <= b * hi_a);
            }
        }
        let mid_a = self.limb2 as int + b * (self.limb3 as int);
        let mid_b = other.limb2 as int + b * (other.limb3 as int);
        assert(mid_a == mid_b && self.limb1 == other.limb1) by {
            if mid_a < mid_b {
                assert(b * mid_a + b <= b * mid_b);
            } else if mid_b < mid_a {
                assert(b * mid_b + b <= b * mid_a);
            }
        }
        assert(self.limb3 == other.limb3 && self.limb2 == other.limb2) by {
            if self.limb3 < other.limb3 {
                assert(b * (self.limb3 as int) + b <= b * (other.limb3 as int));
            } else if other.limb3 < self.limb3 {
                assert(b * (other.limb3 as int) + b <= b * (self.limb3 as int));
            }
        }
    }

    /// Zero.
    pub fn zero() -> (r: U256)
        ensures
            r.value() == 0,
    {
        U256 { limb0: 0, limb1: 0, limb2: 0, limb3: 0 }
    }

    /// The 256-bit integer with the value of `x`.
    pub fn from_u64(x: u64) -> (r: U256)
        ensures
            r.value() == x,
    {
        U256 { limb0: x, limb1: 0, limb2: 0, limb3: 0 }
    }

    /// Whether the value is zero.
    pub fn is_zero(&self) -> (r: bool)
        ensures
            r == (self.value() == 0),
    {
        self.limb0 == 0 && self.limb1 == 0 && self.limb2 == 0 && self.limb3 == 0
    }

    /// The sum, or `None` where it does not fit in 256 bits.
    pub fn checked_add(&self, other: &U256) -> (r: Option<U256>)
        ensures
            r.is_some() == (self.value() + other.value() < u256_limit()),
            r matches Some(v) ==> v.value() == self.value() + other.value(),
    {
        outside_checked_add(self, other)
    }

    /// The difference, or `None` where `other` is the larger.
    pub fn checked_sub(&self, other: &U256) -> (r: Option<U256>)
        ensures
            r.is_some() == (self.value() >= other.value()),
            r matches Some(v) ==> v.value() == self.value() - other.value(),
    {
        outside_checked_sub(self, other)
    }

    /// `self * numerator / denominator`, rounded down, with the product taken in 512
    /// bits; `None` where the denominator is zero or the quotient needs more than 256 bits.
    pub fn checked_mul_div(&self, numerator: &U256, denominator: &U256) -> (r: Option<U256>)
        ensures
            r.is_some() == (denominator.value() > 0 && (self.value() * numerator.value())
                / denominator.value() < u256_limit()),
            r matches Some(q) ==> q.value() == (self.value() * numerator.value())
                / denominator.value(),
    {
        if denominator.is_zero() {
            return None;
        }
        let product = outside_full_mul(self, numerator);
        let quotient = outside_div_512(&product, denominator);
        proof {
            quotient.low.lemma_value_bounded();
            if quotient.high.value() > 0 {
                assert(u256_limit() * quotient.high.value() >= u256_limit()) by (nonlinear_arith)
                    requires
                        quotient.high.value() >= 1,
                ;
            } else {
                assert(u256_limit() * quotient.high.value() == 0) by (nonlinear_arith)
                    requires
                        quotient.high.value() == 0,
                ;
            }
        }
        if quotient.high.is_zero() {
            Some(quotient.low)
        } else {
            None
        }
    }

    /// `self * numerator / denominator`, rounded down, with the product taken in 512 bits.
    pub fn mul_div(&self, numerator: &U256, denominator: &U256) -> (r: U256)
        requires
            denominator.value() > 0,
            (self.value() * numerator.value()) / denominator.value() < u256_limit(),
        ensures
            r.value() == (self.value() * numerator.value()) / denominator.value(),
    {
        self.checked_mul_div(numerator, denominator).unwrap()
    }
}

impl U512 {
    /// The number that the two halves stand for.
    pub open spec fn value(self) -> nat {
        self.low.value() + u256_limit() * self.high.value()
    }
}

/// `a * b / d` is at most `a` when `b <= d`.
pub proof fn lemma_scaled_quotient_bounded(a: nat, b: nat, d: nat)
    requires
        d > 0,
        b <= d,
    ensures
        (a * b) / d <= a,
{
    assert(a * b <= a * d) by (nonlinear_arith)
        requires
            b <= d,
    ;
    vstd::arithmetic::div_mod::lemma_div_is_ordered((a * b) as int, (a * d) as int, d as int);
    vstd::arithmetic::div_mod::lemma_div_multiples_vanish(a as int, d as int);
    assert(a * d == d * a) by (nonlinear_arith);
}

/// Calls `ethers_core::types::U256::checked_add`: the sum of the two numbers, and `None`
/// exactly where the sum needs more than 256 bits.
#[verifier::external_body]
fn outside_checked_add(a: &U256, b: &U256) -> (r: Option<U256>)
    ensures
        r.is_some() == (a.value() + b.value() < u256_limit()),
        r matches Some(v) ==> v.value() == a.value() + b.value(),
{
    let x = ethers_core::types::U256([a.limb0, a.limb1, a.limb2, a.limb3]);
    let y = ethers_core::types::U256([b.limb0, b.limb1, b.limb2, b.limb3]);
    x.checked_add(y).map(|s| U256 { limb0: s.0[0], limb1: s.0[1], limb2: s.0[2], limb3: s.0[3] })
}

/// Calls `ethers_core::types::U256::checked_sub`: the difference of the two numbers, and
/// `None` exactly where the second is larger than the first.
#[verifier::external_body]
fn outside_checked_sub(a: &U256, b: &U256) -> (r: Option<U256>)
    ensures
        r.is_some() == (a.value() >= b.value()),
        r matches Some(v) ==> v.value() == a.value() - b.value(),
{
    let x = ethers_core::types::U256([a.limb0, a.limb1, a.limb2, a.limb3]);
    let y = ethers_core::types::U256([b.limb0, b.limb1, b.limb2, b.limb3]);
    x.checked_sub(y).map(|s| U256 { limb0: s.0[0], limb1: s.0[1], limb2: s.0[2], limb3: s.0[3] })
}

/// Calls `ethers_core::types::U256::full_mul`: the product of the two numbers as a 512-bit
/// integer, which always holds it.
#[verifier::external_body]
fn outside_full_mul(a: &U256, b: &U256) -> (r: U512)
    ensures
        r.value() == a.value() * b.value(),
{
    let x = ethers_core::types::U256([a.limb0, a.limb1, a.limb2, a.limb3]);
    let y = ethers_core::types::U256([b.limb0, b.limb1, b.limb2, b.limb3]);
    let p = x.full_mul(y).0;
    U512 {
        low: U256 { limb0: p[0], limb1: p[1], limb2: p[2], limb3: p[3] },
        high: U256 { limb0: p[4], limb1: p[5], limb2: p[6], limb3: p[7] },
    }
}

/// Calls the `/` of `ethers_core::types::U512` with a 256-bit divisor, which panics on a
/// zero divisor and otherwise gives the quotient rounded down.
#[verifier::external_body]
fn outside_div_512(n: &U512, d: &U256) -> (r: U512)
    requires
        d.value() > 0,
    ensures
        r.value() == n.value() / d.value(),
{
    let (l, h) = (n.low, n.high);
    let x = ethers_core::types::U512(
        [l.limb0, l.limb1, l.limb2, l.limb3, h.limb0, h.limb1, h.limb2, h.limb3],
    );
    let q = (x / ethers_core::types::U256([d.limb0, d.limb1, d.limb2, d.limb3])).0;
    U512 {
        low: U256 { limb0: q[0], limb1: q[1], limb2: q[2], limb3: q[3] },
        high: U256 { limb0: q[4], limb1: q[5], limb2: q[6], limb3: q[7] },
    }
}

} // verus!
