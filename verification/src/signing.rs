//! The typed data that a signer attests: one reward entry within the domain of the
//! settlement contract.

use vstd::prelude::*;
use vstd::utf8::encode_utf8;
use crate::address::Address;
use crate::hashing::{keccak256, keccak256_hash};
use crate::rewards::RewardEntry;
use crate::uint::U256;

verus! {

/// The last `len` bytes of `n`, most significant first.
pub open spec fn be_bytes(n: nat, len: nat) -> Seq<u8>
    decreases len,
{
    if len == 0 {
        Seq::empty()
    } else {
        be_bytes(n / 256, (len - 1) as nat).push((n % 256) as u8)
    }
}

/// An unsigned integer as a word of 32 bytes.
pub open spec fn be_word(n: nat) -> Seq<u8> {
    be_bytes(n, 32)
}

/// An address as a word of 32 bytes: twelve zero bytes, then the address.
pub open spec fn address_word(bytes: Seq<u8>) -> Seq<u8> {
    Seq::new(12, |i: int| 0u8) + bytes
}

/// The type of a reward as the settlement contract declares it.
pub open spec fn reward_type_text() -> Seq<char> {
    "Reward(uint256 periodId,address recipient,uint256 stakingReward,uint256 feeReward)"@
}

/// The type of a signing domain that has a name, a version, a chain and a contract.
pub open spec fn domain_type_text() -> Seq<char> {
    "EIP712Domain(string name,string version,uint256 chainId,address verifyingContract)"@
}

/// The version of the signing domain.
pub open spec fn domain_version_text() -> Seq<char> {
    "1"@
}

/// The signing domain of the settlement contract.
#[derive(Clone, Debug, PartialEq, Eq)]
pub struct Eip712Domain {
    pub name: String,
    pub version: String,
    pub chain_id: u64,
    pub verifying_contract: Address,
}

/// A reward entry together with the domain in which it is signed.
#[derive(Clone, Debug, PartialEq, Eq)]
pub struct Eip712RewardEntry {
    pub inner: RewardEntry,
    pub chain_id: u64,
    pub contract_name: String,
    pub contract_address: Address,
}

/// A signature and the address of the key that made it.
#[derive(Clone, Debug, PartialEq, Eq)]
pub struct Signature {
    pub signer: Address,
    pub signature: Vec<u8>,
}

/// A reward entry with the signatures over it.
#[derive(Clone, Debug, PartialEq, Eq)]
pub struct SignedRewardEntry {
    pub reward: RewardEntry,
    pub signatures: Vec<Signature>,
}

/// The hash of the reward type.
pub open spec fn reward_type_hash() -> Seq<u8> {
    keccak256_hash(encode_utf8(reward_type_text()))
}

/// The bytes that are hashed for a reward: five words, for the type, the period, the
/// recipient and the two amounts.
pub open spec fn reward_encoding(e: RewardEntry) -> Seq<u8> {
    reward_type_hash() + be_word(e.period_id as nat) + address_word(e.recipient.bytes@) + be_word(
        e.staking_reward.value(),
    ) + be_word(e.fee_reward.value())
}

/// The hash of a reward.
pub open spec fn reward_struct_hash(e: RewardEntry) -> Seq<u8> {
    keccak256_hash(reward_encoding(e))
}

/// The separator of a signing domain: the hash of five words, for the domain type, the
/// name, the version, the chain and the contract.
pub open spec fn domain_separator_hash(
    name: Seq<char>,
    version: Seq<char>,
    chain_id: u64,
    contract: Seq<u8>,
) -> Seq<u8> {
    keccak256_hash(
        keccak256_hash(encode_utf8(domain_type_text())) + keccak256_hash(encode_utf8(name))
            + keccak256_hash(encode_utf8(version)) + be_word(chain_id as nat) + address_word(
            contract,
        ),
    )
}

/// The digest that is signed for a reward in a domain: the hash of the bytes 0x19 and
/// 0x01, the domain separator and the hash of the reward.
pub open spec fn typed_data_digest(
    e: RewardEntry,
    name: Seq<char>,
    chain_id: u64,
    contract: Seq<u8>,
) -> Seq<u8> {
    keccak256_hash(
        seq![0x19u8, 0x01u8] + domain_separator_hash(
            name,
            domain_version_text(),
            chain_id,
            contract,
        )
            + reward_struct_hash(e),
    )
}

/// The type of a reward as the settlement contract declares it.
pub fn reward_type() -> (r: &'static str)
    ensures
        r@ == reward_type_text(),
{
    "Reward(uint256 periodId,address recipient,uint256 stakingReward,uint256 feeReward)"
}

/// Adds the 32 bytes of `word` to `buffer`.
fn push_word(buffer: &mut Vec<u8>, word: &[u8; 32])
    ensures
        final(buffer)@ == old(buffer)@ + word@,
{
    let mut i: usize = 0;
    while i < 32
        invariant
            i <= 32,
            buffer@ == old(buffer)@ + word@.take(i as int),
        decreases 32 - i,
    {
        buffer.push(word[i]);
        assert(buffer@ =~= old(buffer)@ + word@.take(i as int + 1));
        i += 1;
    }
    assert(word@.take(32) =~= word@);
}

impl Eip712RewardEntry {
    /// The payload for `entry` in the domain of the contract `contract_name` at
    /// `contract_address` on chain `chain_id`.
    pub fn new(
        entry: &RewardEntry,
        chain_id: u64,
        contract_name: &str,
        contract_address: Address,
    ) -> (r: Eip712RewardEntry)
        ensures
            r.inner == *entry,
            r.chain_id == chain_id,
            r.contract_name@ == contract_name@,
            r.contract_address == contract_address,
    {
        Eip712RewardEntry {
            inner: *entry,
            chain_id,
            contract_name: contract_name.to_owned(),
            contract_address,
        }
    }

    /// The digest of the payload as a spec value.
    pub open spec fn digest(self) -> Seq<u8> {
        typed_data_digest(
            self.inner,
            self.contract_name@,
            self.chain_id,
            self.contract_address.bytes@,
        )
    }

    /// The signing domain: the contract's name, version 1, the chain and the contract.
    pub fn domain(&self) -> (r: Eip712Domain)
        ensures
            r.name@ == self.contract_name@,
            r.version@ == domain_version_text(),
            r.chain_id == self.chain_id,
            r.verifying_contract == self.contract_address,
    {
        Eip712Domain {
            name: self.contract_name.clone(),
            version: "1".to_owned(),
            chain_id: self.chain_id,
            verifying_contract: self.contract_address,
        }
    }

    /// The hash of the reward type.
    pub fn type_hash() -> (r: [u8; 32])
        ensures
            r@ == reward_type_hash(),
    {
        keccak256(reward_type().as_bytes())
    }

    /// The hash of the reward.
    pub fn struct_hash(&self) -> (r: [u8; 32])
        ensures
            r@ == reward_struct_hash(self.inner),
    {
        let type_hash = Self::type_hash();
        let encoded = outside_abi_encode(
            &type_hash,
            self.inner.period_id,
            &self.inner.recipient,
            &self.inner.staking_reward,
            &self.inner.fee_reward,
        );
        keccak256(encoded.as_slice())
    }

    /// The separator of the signing domain.
    pub fn domain_separator(&self) -> (r: [u8; 32])
        ensures
            r@ == domain_separator_hash(
                self.contract_name@,
                domain_version_text(),
                self.chain_id,
                self.contract_address.bytes@,
            ),
    {
        let domain = self.domain();
        outside_domain_separator(&domain)
    }

    /// The digest to sign.
    pub fn encode_eip712(&self) -> (r: [u8; 32])
        ensures
            r@ == self.digest(),
    {
        let separator = self.domain_separator();
        let hash = self.struct_hash();
        let mut input: Vec<u8> = Vec::new();
        input.push(0x19);
        input.push(0x01);
        assert(input@ =~= seq![0x19u8, 0x01u8]);
        push_word(&mut input, &separator);
        push_word(&mut input, &hash);
        keccak256(input.as_slice())
    }
}

/// Calls `ethers_core::abi::encode` on five tokens, four unsigned integers and an address,
/// each of which it encodes as one word of 32 bytes in the order given.
#[verifier::external_body]
fn outside_abi_encode(
    type_hash: &[u8; 32],
    period_id: u32,
    recipient: &Address,
    staking: &U256,
    fee: &U256,
) -> (r: Vec<u8>)
    ensures
        r@ == type_hash@ + be_word(period_id as nat) + address_word(recipient.bytes@) + be_word(
            staking.value(),
        ) + be_word(fee.value()),
{
    let s = ethers_core::types::U256([staking.limb0, staking.limb1, staking.limb2, staking.limb3]);
    let f = ethers_core::types::U256([fee.limb0, fee.limb1, fee.limb2, fee.limb3]);
    ethers_core::abi::encode(
        &[
            ethers_core::abi::Token::Uint(ethers_core::types::U256::from(*type_hash)),
            ethers_core::abi::Token::Uint(ethers_core::types::U256::from(period_id)),
            ethers_core::abi::Token::Address(ethers_core::types::H160(recipient.bytes)),
            ethers_core::abi::Token::Uint(s),
            ethers_core::abi::Token::Uint(f),
        ],
    )
}

/// Calls `EIP712Domain::separator` of `ethers_core` for a domain with a name, a version,
/// a chain and a contract, and without a salt: the Keccak-256 hash of five words, which are
/// the hash of the domain type, the hash of the name, the hash of the version, the chain and
/// the contract.
#[verifier::external_body]
fn outside_domain_separator(domain: &Eip712Domain) -> (r: [u8; 32])
    ensures
        r@ == domain_separator_hash(
            domain.name@,
            domain.version@,
            domain.chain_id,
            domain.verifying_contract.bytes@,
        ),
{
    ethers_core::types::transaction::eip712::EIP712Domain {
        name: Some(domain.name.clone()),
        version: Some(domain.version.clone()),
        chain_id: Some(domain.chain_id.into()),
        verifying_contract: Some(ethers_core::types::H160(domain.verifying_contract.bytes)),
        salt: None,
    }.separator()
}

} // verus!
