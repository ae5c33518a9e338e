//! Bounded retrying: how many failures in a row an operation may have.

use vstd::prelude::*;

verus! {

/// How many failed requests for one page the collector tolerates.
pub const GRAPHQL_RETRY_COUNT: u32 = 5;

/// How many times the signing of one reward entry is attempted.
pub const SIGNING_ATTEMPTS: u32 = 10;

/// How many seconds pass between two attempts to sign.
pub const SIGNING_RETRY_DELAY_SECS: u64 = 10;

/// The failures that an operation may still have before it is given up.
#[derive(Clone, Copy, Debug, PartialEq, Eq, Structural)]
pub struct RetryBudget {
    pub remaining: u32,
}

impl RetryBudget {
    /// The budget of an operation that may fail `tolerated` times and still be tried again.
    pub fn new(tolerated: u32) -> (r: RetryBudget)
        ensures
            r.remaining == tolerated,
    {
        RetryBudget { remaining: tolerated }
    }

    /// The budget after one more failure, or `None` where the operation is given up.
    pub open spec fn after_failure(self) -> Option<RetryBudget> {
        if self.remaining > 0 {
            Some(RetryBudget { remaining: (self.remaining - 1) as u32 })
        } else {
            None
        }
    }

    /// The budget after `k` more failures in a row, or `None` where the operation was
    /// given up at one of them.
    pub open spec fn after_failures(self, k: nat) -> Option<RetryBudget>
        decreases k,
    {
        if k == 0 {
            Some(self)
        } else {
            match self.after_failure() {
                Some(b) => b.after_failures((k - 1) as nat),
                None => None,
            }
        }
    }

    /// Records a failure. The result says whether the operation is to be tried again; where
    /// it is not, the budget stays as it was.
    pub fn fail(&mut self) -> (retry: bool)
        ensures
            retry == old(self).after_failure().is_some(),
            retry ==> *final(self) == old(self).after_failure().unwrap(),
            !retry ==> *final(self) == *old(self),
    {
        if self.remaining > 0 {
            self.remaining = self.remaining - 1;
            true
        } else {
            false
        }
    }

    /// The ceiling: an operation survives `k` failures in a row exactly where `k` is at
    /// most the number of failures that it tolerates, so one more failure gives it up.
    pub proof fn lemma_retry_ceiling(self, k: nat)
        ensures
            self.after_failures(k).is_some() == (k <= self.remaining),
            self.after_failures(k) matches Some(b) ==> b.remaining == self.remaining - k,
        decreases k,
    {
        if k > 0 && self.remaining > 0 {
            self.after_failure().unwrap().lemma_retry_ceiling((k - 1) as nat);
        }
    }
}

/// The budget for the requests of one page.
pub fn page_budget() -> (r: RetryBudget)
    ensures
        r.remaining == GRAPHQL_RETRY_COUNT,
{
    RetryBudget::new(GRAPHQL_RETRY_COUNT)
}

/// The budget for the signing of one reward entry: the last of the attempts may not fail.
pub fn signing_budget() -> (r: RetryBudget)
    ensures
        r.remaining == SIGNING_ATTEMPTS - 1,
{
    RetryBudget::new(SIGNING_ATTEMPTS - 1)
}

} // verus!
