//! Fee income of the reward pool, whatever kind of event paid it.

use vstd::prelude::*;
use crate::graphql::{ExchangeEntry, PerpFeeEntry};
use crate::uint::{U256, u256_limit};

verus! {

/// A half-open span of time in seconds since the UNIX epoch: `start <= t < end`.
#[derive(Clone, Copy, Debug, PartialEq, Eq, Structural)]
pub struct Window {
    pub start: u64,
    pub end: u64,
}

impl Window {
    /// Whether `t` lies in the window.
    pub open spec fn holds(self, t: u64) -> bool {
        self.start <= t && t < self.end
    }

    /// Whether `t` lies in the window.
    pub fn contains(&self, t: u64) -> (r: bool)
        ensures
            r == self.holds(t),
    {
        self.start <= t && t < self.end
    }
}

/// An event that pays a fee into the reward pool.
pub trait PoolableFeeEntry {
    /// The fee that goes to the pool.
    spec fn pool_fee(&self) -> U256;

    /// When the fee was paid.
    spec fn paid_at(&self) -> u64;

    fn fee_for_pool(&self) -> (r: U256)
        ensures
            r == self.pool_fee(),
    ;

    fn timestamp(&self) -> (r: u64)
        ensures
            r == self.paid_at(),
    ;
}

impl PoolableFeeEntry for ExchangeEntry {
    open spec fn pool_fee(&self) -> U256 {
        self.fee_for_pool
    }

    open spec fn paid_at(&self) -> u64 {
        self.timestamp
    }

    fn fee_for_pool(&self) -> (r: U256) {
        self.fee_for_pool
    }

    fn timestamp(&self) -> (r: u64) {
        self.timestamp
    }
}

impl PoolableFeeEntry for PerpFeeEntry {
    open spec fn pool_fee(&self) -> U256 {
        self.fee_for_pool
    }

    open spec fn paid_at(&self) -> u64 {
        self.timestamp
    }

    fn fee_for_pool(&self) -> (r: U256) {
        self.fee_for_pool
    }

    fn timestamp(&self) -> (r: u64) {
        self.timestamp
    }
}

/// The fees that the entries paid into the pool within the window.
pub open spec fn pooled_fees<E: PoolableFeeEntry>(entries: Seq<E>, w: Window) -> nat
    decreases entries.len(),
{
    if entries.len() == 0 {
        0
    } else {
        pooled_fees(entries.drop_last(), w) + if w.holds(entries.last().paid_at()) {
            entries.last().pool_fee().value()
        } else {
            0
        }
    }
}

/// The fees of a prefix are at most the fees of the whole.
pub proof fn lemma_pooled_fees_prefix<E: PoolableFeeEntry>(entries: Seq<E>, w: Window, n: int)
    requires
        0 <= n <= entries.len(),
    ensures
        pooled_fees(entries.take(n), w) <= pooled_fees(entries, w),
    decreases entries.len() - n,
{
    if n == entries.len() {
        assert(entries.take(n) =~= entries);
    } else {
        assert(entries.take(n + 1).drop_last() =~= entries.take(n));
        lemma_pooled_fees_prefix(entries, w, n + 1);
    }
}

/// Adds up the fees that the entries paid into the pool within the window, or gives `None`
/// where the sum needs more than 256 bits.
pub fn accumulate_fees<E: PoolableFeeEntry>(entries: &Vec<E>, w: &Window) -> (r: Option<U256>)
    ensures
        r.is_some() == (pooled_fees(entries@, *w) < u256_limit()),
        r matches Some(total) ==> total.value() == pooled_fees(entries@, *w),
{
    let mut total = U256::zero();
    let mut i: usize = 0;
    assert(entries@.take(0) =~= Seq::<E>::empty());
    while i < entries.len()
        invariant
            i <= entries.len(),
            total.value() == pooled_fees(entries@.take(i as int), *w),
        decreases entries.len() - i,
    {
        proof {
            assert(entries@.take(i as int + 1).drop_last() =~= entries@.take(i as int));
            lemma_pooled_fees_prefix(entries@, *w, i as int + 1);
        }
        if w.contains(entries[i].timestamp()) {
            let fee = entries[i].fee_for_pool();
            match total.checked_add(&fee) {
                Some(t) => {
                    total = t;
                },
                None => {
                    return None;
                },
            }
        }
        i += 1;
    }
    proof {
        assert(entries@.take(i as int) =~= entries@);
        total.lemma_value_bounded();
    }
    Some(total)
}

} // verus!
