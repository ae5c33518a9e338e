//! Signing the reward entries of a period, one after the other.
//!
//! The batch decides; its caller asks the signing authority. The caller signs the payload
//! that the batch names and reports the signature, or that the signing failed. A failed
//! signing is tried again after a pause, up to a fixed number of attempts for each entry;
//! after that the whole batch is given up, so a period never ends with part of its
//! signatures.

use vstd::prelude::*;
use crate::address::Address;
use crate::retry::{RetryBudget, SIGNING_ATTEMPTS, SIGNING_RETRY_DELAY_SECS, signing_budget};
use crate::rewards::RewardEntry;
use crate::signing::{Eip712RewardEntry, Signature, SignedRewardEntry};

verus! {

/// What came back from the signing authority.
pub enum SigningEvent {
    /// The signature over the pending payload.
    Signed(Vec<u8>),
    /// The signing failed.
    Failed,
}

/// What the caller of the batch has to do next.
#[derive(Clone, Copy, Debug, PartialEq, Eq, Structural)]
pub enum SigningAction {
    /// Sign the entry at `index` now.
    Sign { index: usize },
    /// Wait for `delay_secs` seconds, then sign the entry at `index` again.
    RetryAfter { index: usize, delay_secs: u64 },
    /// Every entry is signed.
    Finish,
    /// The batch is given up.
    Abort,
}

/// The state of a batch.
pub struct SigningBatch {
    pub entries: Vec<RewardEntry>,
    pub signer: Address,
    pub chain_id: u64,
    pub contract_name: String,
    pub contract_address: Address,
    pub signed: Vec<SignedRewardEntry>,
    pub budget: RetryBudget,
    pub closed: bool,
}

/// Whether `s` is the entry `e` with one signature, `bytes`, made by `signer`.
pub open spec fn is_signed_by(
    s: SignedRewardEntry,
    e: RewardEntry,
    signer: Address,
    bytes: Seq<u8>,
) -> bool {
    &&& s.reward == e
    &&& s.signatures@.len() == 1
    &&& s.signatures@[0].signer == signer
    &&& s.signatures@[0].signature@ == bytes
}

impl SigningBatch {
    /// In a well-formed batch the signed entries are the first entries, each with one
    /// signature of the signer, and an open batch has an entry left to sign.
    pub open spec fn wf(self) -> bool {
        &&& self.signed@.len() <= self.entries@.len()
        &&& forall|i: int|
            0 <= i < self.signed@.len() ==> is_signed_by(
                #[trigger] self.signed@[i],
                self.entries@[i],
                self.signer,
                self.signed@[i].signatures@[0].signature@,
            )
        &&& !self.closed ==> self.signed@.len() < self.entries@.len()
    }

    /// Whether every entry is signed.
    pub open spec fn complete(self) -> bool {
        self.signed@.len() == self.entries@.len()
    }

    /// Whether `other` is a batch for the same entries, signer and domain.
    pub open spec fn same_task(self, other: SigningBatch) -> bool {
        &&& self.entries@ == other.entries@
        &&& self.signer == other.signer
        &&& self.chain_id == other.chain_id
        &&& self.contract_name@ == other.contract_name@
        &&& self.contract_address == other.contract_address
    }

    /// Starts a batch. Without entries it is complete at once.
    pub fn new(
        entries: Vec<RewardEntry>,
        signer: Address,
        chain_id: u64,
        contract_name: &str,
        contract_address: Address,
    ) -> (r: (SigningBatch, SigningAction))
        ensures
            r.0.wf(),
            r.0.entries@ == entries@,
            r.0.signer == signer,
            r.0.chain_id == chain_id,
            r.0.contract_name@ == contract_name@,
            r.0.contract_address == contract_address,
            r.0.signed@.len() == 0,
            r.0.budget.remaining == SIGNING_ATTEMPTS - 1,
            r.0.closed == (entries@.len() == 0),
            r.1 == if entries@.len() == 0 {
                SigningAction::Finish
            } else {
                SigningAction::Sign { index: 0 }
            },
    {
        let closed = entries.len() == 0;
        let batch = SigningBatch {
            entries,
            signer,
            chain_id,
            contract_name: contract_name.to_owned(),
            contract_address,
            signed: Vec::new(),
            budget: signing_budget(),
            closed,
        };
        let action = if closed {
            SigningAction::Finish
        } else {
            SigningAction::Sign { index: 0 }
        };
        (batch, action)
    }

    /// The payload to sign next.
    pub fn payload(&self) -> (r: Eip712RewardEntry)
        requires
            self.wf(),
            !self.closed,
        ensures
            r.inner == self.entries@[self.signed@.len() as int],
            r.chain_id == self.chain_id,
            r.contract_name@ == self.contract_name@,
            r.contract_address == self.contract_address,
    {
        Eip712RewardEntry::new(
            &self.entries[self.signed.len()],
            self.chain_id,
            self.contract_name.as_str(),
            self.contract_address,
        )
    }

    /// Takes what came back for the pending payload and says what to do next.
    ///
    /// A signature completes the pending entry; the next entry starts with all its
    /// attempts. A failure is followed by another attempt after the pause, unless it was
    /// the last attempt, which gives the batch up.
    pub fn step(&mut self, event: SigningEvent) -> (action: SigningAction)
        requires
            old(self).wf(),
            !old(self).closed,
        ensures
            final(self).wf(),
            final(self).same_task(*old(self)),
            final(self).closed == (action is Finish || action is Abort),
            match event {
                SigningEvent::Signed(bytes) => {
                    let n = old(self).signed@.len() as int;
                    &&& final(self).signed@.len() == n + 1
                    &&& final(self).signed@.take(n) == old(self).signed@
                    &&& is_signed_by(
                        final(self).signed@[n],
                        old(self).entries@[n],
                        old(self).signer,
                        bytes@,
                    )
                    &&& final(self).budget.remaining == SIGNING_ATTEMPTS - 1
                    &&& action == if n + 1 == old(self).entries@.len() {
                        SigningAction::Finish
                    } else {
                        SigningAction::Sign { index: (n + 1) as usize }
                    }
                },
                SigningEvent::Failed => {
                    &&& final(self).signed@ == old(self).signed@
                    &&& match old(self).budget.after_failure() {
                        Some(b) => {
                            &&& final(self).budget == b
                            &&& action == SigningAction::RetryAfter {
                                index: old(self).signed@.len() as usize,
                                delay_secs: SIGNING_RETRY_DELAY_SECS,
                            }
                        },
                        None => action == SigningAction::Abort,
                    }
                },
            },
    {
        match event {
            SigningEvent::Signed(bytes) => {
                let ghost before = self.signed@;
                let ghost given = bytes@;
                let index = self.signed.len();
                let total = self.entries.len();
                let mut signatures: Vec<Signature> = Vec::new();
                signatures.push(Signature { signer: self.signer, signature: bytes });
                self.signed.push(SignedRewardEntry { reward: self.entries[index], signatures });
                self.budget = signing_budget();
                proof {
                    assert(self.signed@.take(index as int) =~= before);
                    assert forall|i: int| 0 <= i < self.signed@.len() implies is_signed_by(
                        #[trigger] self.signed@[i],
                        self.entries@[i],
                        self.signer,
                        self.signed@[i].signatures@[0].signature@,
                    ) by {
                        if i < index {
                            assert(self.signed@[i] == before[i]);
                        }
                    }
                }
                if index + 1 == total {
                    self.closed = true;
                    SigningAction::Finish
                } else {
                    SigningAction::Sign { index: index + 1 }
                }
            },
            SigningEvent::Failed => {
                if self.budget.fail() {
                    SigningAction::RetryAfter {
                        index: self.signed.len(),
                        delay_secs: SIGNING_RETRY_DELAY_SECS,
                    }
                } else {
                    self.closed = true;
                    SigningAction::Abort
                }
            },
        }
    }

    /// The signed entries of a complete batch; a batch that was given up has none to show.
    pub fn finish(self) -> (r: Option<Vec<SignedRewardEntry>>)
        requires
            self.wf(),
        ensures
            r.is_some() == self.complete(),
            r matches Some(signed) ==> signed@ == self.signed@,
    {
        if self.signed.len() == self.entries.len() {
            Some(self.signed)
        } else {
            None
        }
    }
}

} // verus!
