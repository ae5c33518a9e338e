//! What a signer node exchanges with the coordination service.

use vstd::prelude::*;
use vstd::utf8::encode_utf8;
use crate::address::{Address, checksum_text};
use crate::decimal::{dec_text, push_text, u64_text};
use crate::hashing::{sha256, sha256_hash};
use crate::hexcode::{hex_encode, hex_text};
use crate::signing::SignedRewardEntry;
use crate::uint::{U256, u256_limit};

verus! {

/// The schedule of periods and the signers of the quorum.
#[derive(Clone, Debug, PartialEq, Eq)]
pub struct WorkerConfig {
    pub first_period_start_time: u64,
    pub period_duration: u64,
    pub signers: Vec<Address>,
}

/// One recipient's rewards with this signer's signature over them.
#[derive(Clone, Debug, PartialEq, Eq)]
pub struct SubmissionRewardEntry {
    pub recipient: Address,
    pub staking_reward: U256,
    pub fee_reward: U256,
    pub signature: Vec<u8>,
}

/// Where the rewards of a period come from.
#[derive(Clone, Copy, Debug, PartialEq, Eq, Structural)]
pub struct RewardComposition {
    pub scheduled_staking_rewards: U256,
    pub rollover_staking_rewards: U256,
    pub fees_accumulated: U256,
    pub rollover_fees: U256,
}

/// One signer's attestation of a period's rewards.
#[derive(Clone, Debug, PartialEq, Eq)]
pub struct Submission {
    pub period_id: u32,
    pub chain_id: u64,
    pub signer: Address,
    pub entries: Vec<SubmissionRewardEntry>,
    pub composition: RewardComposition,
}

impl RewardComposition {
    /// The staking reward of the period as a number.
    pub open spec fn staking_total(self) -> nat {
        self.scheduled_staking_rewards.value() + self.rollover_staking_rewards.value()
    }

    /// The fee reward of the period as a number.
    pub open spec fn fee_total(self) -> nat {
        self.fees_accumulated.value() + self.rollover_fees.value()
    }

    /// A composition is well formed where both of its totals fit in 256 bits.
    pub open spec fn wf(self) -> bool {
        self.staking_total() < u256_limit() && self.fee_total() < u256_limit()
    }

    /// What is scheduled for the period together with what was carried into it.
    pub fn staking_reward_for_period(&self) -> (r: U256)
        requires
            self.staking_total() < u256_limit(),
        ensures
            r.value() == self.staking_total(),
    {
        self.scheduled_staking_rewards.checked_add(&self.rollover_staking_rewards).unwrap()
    }

    /// The fees of the period together with what was carried into it.
    pub fn fee_reward_for_period(&self) -> (r: U256)
        requires
            self.fee_total() < u256_limit(),
        ensures
            r.value() == self.fee_total(),
    {
        self.fees_accumulated.checked_add(&self.rollover_fees).unwrap()
    }
}

impl Default for RewardComposition {
    fn default() -> (r: RewardComposition)
        ensures
            r.staking_total() == 0,
            r.fee_total() == 0,
    {
        RewardComposition {
            scheduled_staking_rewards: U256::zero(),
            rollover_staking_rewards: U256::zero(),
            fees_accumulated: U256::zero(),
            rollover_fees: U256::zero(),
        }
    }
}

/// The two kinds of request that the coordination service takes.
#[derive(Clone, Copy, Debug, PartialEq, Eq, Structural)]
pub enum HttpMethod {
    Get,
    Post,
}

/// A request to the coordination service, without its body.
#[derive(Clone, Debug, PartialEq, Eq)]
pub struct WorkerRequest {
    pub method: HttpMethod,
    pub url: String,
    pub authorization: String,
}

/// Why a call to the coordination service failed.
#[derive(Clone, Debug, PartialEq, Eq)]
pub enum WorkerError {
    /// The service answered with a status that is no success.
    Status { status: u16, body: String },
    /// The reward configuration is not the one that the node expects.
    ChecksumMismatch { expected: [u8; 32], actual: [u8; 32] },
}

/// The address of the coordination service and the token that it wants.
#[derive(Clone, Debug, PartialEq, Eq)]
pub struct WorkerClient {
    pub base_url: String,
    pub admin_token: String,
    pub timeout_secs: u64,
}

/// Whether a status code reports success: 200 to 299.
pub open spec fn is_success(status: u16) -> bool {
    200 <= status <= 299
}

/// Whether `request` goes to `path` below the base address, with the bearer token.
pub open spec fn is_request(
    request: WorkerRequest,
    client: WorkerClient,
    method: HttpMethod,
    path: Seq<char>,
) -> bool {
    &&& request.method == method
    &&& request.url@ == client.base_url@ + path
    &&& request.authorization@ == "Bearer "@ + client.admin_token@
}

/// Whether two hashes are the same.
fn same_hash(a: &[u8; 32], b: &[u8; 32]) -> (r: bool)
    ensures
        r == (a@ == b@),
{
    let mut i: usize = 0;
    while i < 32
        invariant
            i <= 32,
            forall|k: int| 0 <= k < i ==> a@[k] == b@[k],
        decreases 32 - i,
    {
        if a[i] != b[i] {
            return false;
        }
        i += 1;
    }
    assert(a@ =~= b@);
    true
}

impl WorkerClient {
    /// A client for the service at `base_url`.
    pub fn new(base_url: String, admin_token: String, timeout_secs: u64) -> (r: WorkerClient)
        ensures
            r.base_url == base_url,
            r.admin_token == admin_token,
            r.timeout_secs == timeout_secs,
    {
        WorkerClient { base_url, admin_token, timeout_secs }
    }

    /// The request to `path`.
    fn request(&self, method: HttpMethod, path: String) -> (r: WorkerRequest)
        ensures
            is_request(r, *self, method, path@),
    {
        let mut url = self.base_url.clone();
        push_text(&mut url, path.as_str());
        let mut authorization = "Bearer ".to_owned();
        push_text(&mut authorization, self.admin_token.as_str());
        WorkerRequest { method, url, authorization }
    }

    /// The request for the schedule of periods and the signers.
    pub fn get_worker_config(&self) -> (r: WorkerRequest)
        ensures
            is_request(r, *self, HttpMethod::Get, "admin/workerConfig"@),
    {
        self.request(HttpMethod::Get, "admin/workerConfig".to_owned())
    }

    /// The request that sets the schedule of periods and the signers.
    pub fn set_worker_config(&self) -> (r: WorkerRequest)
        ensures
            is_request(r, *self, HttpMethod::Post, "admin/workerConfig"@),
    {
        self.request(HttpMethod::Post, "admin/workerConfig".to_owned())
    }

    /// The request for the text of the reward configuration.
    pub fn get_reward_config(&self) -> (r: WorkerRequest)
        ensures
            is_request(r, *self, HttpMethod::Get, "admin/rewardConfig"@),
    {
        self.request(HttpMethod::Get, "admin/rewardConfig".to_owned())
    }

    /// The request for the id of the last period.
    pub fn get_last_period_id(&self) -> (r: WorkerRequest)
        ensures
            is_request(r, *self, HttpMethod::Get, "lastPeriodId"@),
    {
        self.request(HttpMethod::Get, "lastPeriodId".to_owned())
    }

    /// The request that asks whether `signer` has staged its attestation of the period.
    pub fn get_signer_staged(&self, period_id: u32, signer: &Address) -> (r: WorkerRequest)
        ensures
            is_request(
                r,
                *self,
                HttpMethod::Get,
                "admin/signerStaged?periodId="@ + dec_text(period_id as nat) + "&signer="@
                    + checksum_text(signer.bytes@),
            ),
    {
        let mut path = "admin/signerStaged?periodId=".to_owned();
        push_text(&mut path, u64_text(period_id as u64).as_str());
        push_text(&mut path, "&signer=");
        push_text(&mut path, signer.to_checksum().as_str());
        self.request(HttpMethod::Get, path)
    }

    /// The request that asks whether the period has the attestations it needs.
    pub fn get_stage_ready(&self, period_id: u32) -> (r: WorkerRequest)
        ensures
            is_request(
                r,
                *self,
                HttpMethod::Get,
                "admin/stageReady?periodId="@ + dec_text(period_id as nat),
            ),
    {
        let mut path = "admin/stageReady?periodId=".to_owned();
        push_text(&mut path, u64_text(period_id as u64).as_str());
        self.request(HttpMethod::Get, path)
    }

    /// The request that stages an attestation.
    pub fn stage(&self) -> (r: WorkerRequest)
        ensures
            is_request(r, *self, HttpMethod::Post, "admin/stage"@),
    {
        self.request(HttpMethod::Post, "admin/stage".to_owned())
    }

    /// The request that publishes the rewards of the period.
    pub fn publish(&self, period_id: u32) -> (r: WorkerRequest)
        ensures
            is_request(
                r,
                *self,
                HttpMethod::Post,
                "admin/publish?periodId="@ + dec_text(period_id as nat),
            ),
    {
        let mut path = "admin/publish?periodId=".to_owned();
        push_text(&mut path, u64_text(period_id as u64).as_str());
        self.request(HttpMethod::Post, path)
    }

    /// Takes the answer of the service: its body where the status reports success, and
    /// otherwise an error with the status and the body.
    pub fn check_response(status: u16, body: String) -> (r: Result<String, WorkerError>)
        ensures
            is_success(status) ==> r == Ok::<String, WorkerError>(body),
            !is_success(status) ==> r == Err::<String, WorkerError>(
                WorkerError::Status { status, body },
            ),
    {
        if 200 <= status && status <= 299 {
            Ok(body)
        } else {
            Err(WorkerError::Status { status, body })
        }
    }

    /// Hands the text of the reward configuration on where its hash is the checksum that
    /// the node expects, and says which hash it has where it is not.
    pub fn verify_checksum(raw_text: String, hash: [u8; 32], checksum: &[u8; 32]) -> (r: Result<
        String,
        WorkerError,
    >)
        ensures
            hash@ == checksum@ ==> r == Ok::<String, WorkerError>(raw_text),
            hash@ != checksum@ ==> r == Err::<String, WorkerError>(
                WorkerError::ChecksumMismatch { expected: *checksum, actual: hash },
            ),
    {
        if same_hash(checksum, &hash) {
            Ok(raw_text)
        } else {
            Err(WorkerError::ChecksumMismatch { expected: *checksum, actual: hash })
        }
    }

    /// Takes the answer to the request for the reward configuration. The text is handed
    /// on only where its SHA-256 hash is `checksum`, whatever the text holds.
    pub fn get_reward_config_checked(status: u16, body: String, checksum: &[u8; 32]) -> (r: Result<
        String,
        WorkerError,
    >)
        ensures
            !is_success(status) ==> r == Err::<String, WorkerError>(
                WorkerError::Status { status, body },
            ),
            is_success(status) && sha256_hash(encode_utf8(body@)) == checksum@ ==> r == Ok::<
                String,
                WorkerError,
            >(body),
            is_success(status) && sha256_hash(encode_utf8(body@)) != checksum@ ==> {
                &&& r matches Err(WorkerError::ChecksumMismatch { expected, actual })
                &&& expected == *checksum
                &&& actual@ == sha256_hash(encode_utf8(body@))
            },
    {
        let raw_text = Self::check_response(status, body)?;
        let hash_from_worker = sha256(raw_text.as_str().as_bytes());
        Self::verify_checksum(raw_text, hash_from_worker, checksum)
    }
}

impl WorkerError {
    /// What the error says.
    pub open spec fn message_text(self) -> Seq<char> {
        match self {
            WorkerError::Status { status, body } => "unsuccessful status code: "@ + dec_text(
                status as nat,
            ),
            WorkerError::ChecksumMismatch { expected, actual } => {
                "config checksum mismatch: expected: "@ + hex_text(expected@) + "; actual: "@
                    + hex_text(actual@)
            },
        }
    }

    /// What the error says.
    pub fn message(&self) -> (r: String)
        ensures
            r@ == self.message_text(),
    {
        match self {
            WorkerError::Status { status, body } => {
                let mut text = "unsuccessful status code: ".to_owned();
                push_text(&mut text, u64_text(*status as u64).as_str());
                text
            },
            WorkerError::ChecksumMismatch { expected, actual } => {
                let mut text = "config checksum mismatch: expected: ".to_owned();
                push_text(&mut text, hex_encode(expected.as_slice()).as_str());
                push_text(&mut text, "; actual: ");
                push_text(&mut text, hex_encode(actual.as_slice()).as_str());
                text
            },
        }
    }
}

/// Whether `e` is what the signer stages for the signed entry `s`: its recipient, its
/// amounts and its first signature.
pub open spec fn stages(e: SubmissionRewardEntry, s: SignedRewardEntry) -> bool {
    &&& e.recipient == s.reward.recipient
    &&& e.staking_reward == s.reward.staking_reward
    &&& e.fee_reward == s.reward.fee_reward
    &&& e.signature@ == s.signatures@[0].signature@
}

/// A copy of the bytes.
fn copy_bytes(bytes: &Vec<u8>) -> (r: Vec<u8>)
    ensures
        r@ == bytes@,
{
    let mut copy: Vec<u8> = Vec::new();
    let mut i: usize = 0;
    while i < bytes.len()
        invariant
            i <= bytes.len(),
            copy@ == bytes@.take(i as int),
        decreases bytes.len() - i,
    {
        copy.push(bytes[i]);
        assert(copy@ =~= bytes@.take(i as int + 1));
        i += 1;
    }
    assert(bytes@.take(i as int) =~= bytes@);
    copy
}

impl Submission {
    /// The attestation of a period by one signer, from the entries that it has signed.
    pub fn from_signed(
        period_id: u32,
        chain_id: u64,
        signer: Address,
        signed: &Vec<SignedRewardEntry>,
        composition: RewardComposition,
    ) -> (r: Submission)
        requires
            forall|i: int| 0 <= i < signed@.len() ==> (#[trigger] signed@[i]).signatures@.len() > 0,
        ensures
            r.period_id == period_id,
            r.chain_id == chain_id,
            r.signer == signer,
            r.composition == composition,
            r.entries@.len() == signed@.len(),
            forall|i: int| 0 <= i < signed@.len() ==> stages(#[trigger] r.entries@[i], signed@[i]),
    {
        let mut entries: Vec<SubmissionRewardEntry> = Vec::new();
        let mut i: usize = 0;
        while i < signed.len()
            invariant
                i <= signed.len(),
                entries@.len() == i,
                forall|k: int|
                    0 <= k < signed@.len() ==> (#[trigger] signed@[k]).signatures@.len() > 0,
                forall|k: int| 0 <= k < i ==> stages(#[trigger] entries@[k], signed@[k]),
            decreases signed.len() - i,
        {
            let s = &signed[i];
            assert(s.signatures@.len() > 0);
            entries.push(
                SubmissionRewardEntry {
                    recipient: s.reward.recipient,
                    staking_reward: s.reward.staking_reward,
                    fee_reward: s.reward.fee_reward,
                    signature: copy_bytes(&s.signatures[0].signature),
                },
            );
            i += 1;
        }
        Submission { period_id, chain_id, signer, entries, composition }
    }
}

} // verus!
