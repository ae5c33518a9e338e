use ethers_core::abi::{self, Token};
use ethers_core::types::transaction::eip712::{EIP712Domain, Eip712};
use ethers_core::types::{H160, H256};
use ethers_core::utils::keccak256;
use reward_oracle::address::Address;
use reward_oracle::rewards::RewardEntry;
use reward_oracle::signing::Eip712RewardEntry;
use reward_oracle::uint::U256;
use reward_oracle::wallet::{
    AwsSigner, LocalWallet, Wallet, WalletConfig, WalletError, WalletSourceError,
};

struct Reference {
    period_id: u32,
    recipient: H160,
    staking_reward: ethers_core::types::U256,
    fee_reward: ethers_core::types::U256,
    chain_id: u64,
    contract_name: String,
    contract_address: H160,
}

impl Eip712 for Reference {
    type Error = std::convert::Infallible;

    fn domain(&self) -> Result<EIP712Domain, Self::Error> {
        Ok(EIP712Domain {
            name: Some(self.contract_name.clone()),
            version: Some("1".into()),
            chain_id: Some(self.chain_id.into()),
            verifying_contract: Some(self.contract_address),
            salt: None,
        })
    }

    fn type_hash() -> Result<[u8; 32], Self::Error> {
        Ok(keccak256(
            "Reward(uint256 periodId,address recipient,uint256 stakingReward,uint256 feeReward)",
        ))
    }

    fn struct_hash(&self) -> Result<[u8; 32], Self::Error> {
        Ok(keccak256(abi::encode(&[
            Token::Uint(ethers_core::types::U256::from(Self::type_hash()?)),
            Token::Uint(self.period_id.into()),
            Token::Address(self.recipient),
            Token::Uint(self.staking_reward),
            Token::Uint(self.fee_reward),
        ])))
    }
}

fn recipient() -> Address {
    Address::from_text("0x5C9d6aFE82C8f1c33aB274C577932F2D40778347").unwrap()
}

fn contract() -> Address {
    Address::from_text("0xfB6916095ca1df60bB79Ce92cE3Ea74c37c5d359").unwrap()
}

fn entry() -> RewardEntry {
    RewardEntry {
        chain_id: 56,
        period_id: 136,
        recipient: recipient(),
        staking_reward: U256::from_dec_str("10000000000000000000000").unwrap(),
        fee_reward: U256::from_dec_str("1000000000000000").unwrap(),
    }
}

fn payload() -> Eip712RewardEntry {
    Eip712RewardEntry::new(&entry(), 56, "Linear", contract())
}

fn reference() -> Reference {
    Reference {
        period_id: 136,
        recipient: H160(recipient().bytes),
        staking_reward: ethers_core::types::U256::from_dec_str("10000000000000000000000").unwrap(),
        fee_reward: ethers_core::types::U256::from_dec_str("1000000000000000").unwrap(),
        chain_id: 56,
        contract_name: "Linear".to_string(),
        contract_address: H160(contract().bytes),
    }
}

fn key(last: u8) -> [u8; 32] {
    let mut bytes = [0u8; 32];
    bytes[31] = last;
    bytes
}

#[test]
fn type_hash_is_the_hash_of_the_reward_type() {
    assert_eq!(
        reward_oracle::signing::reward_type(),
        "Reward(uint256 periodId,address recipient,uint256 stakingReward,uint256 feeReward)"
    );
    assert_eq!(Eip712RewardEntry::type_hash(), Reference::type_hash().unwrap());
}

#[test]
fn struct_hash_covers_period_recipient_and_amounts() {
    let mut words = Vec::new();
    words.extend_from_slice(&Eip712RewardEntry::type_hash());
    let mut period = [0u8; 32];
    period[31] = 136;
    words.extend_from_slice(&period);
    let mut who = [0u8; 32];
    who[12..].copy_from_slice(&recipient().bytes);
    words.extend_from_slice(&who);
    let mut staking = [0u8; 32];
    ethers_core::types::U256::from_dec_str("10000000000000000000000").unwrap().to_big_endian(&mut staking);
    words.extend_from_slice(&staking);
    let mut fee = [0u8; 32];
    fee[25..].copy_from_slice(&1000000000000000u64.to_be_bytes()[1..]);
    words.extend_from_slice(&fee);
    assert_eq!(words.len(), 160);
    assert_eq!(payload().struct_hash(), keccak256(&words));
    assert_eq!(payload().struct_hash(), reference().struct_hash().unwrap());
}

#[test]
fn struct_hash_changes_with_every_field() {
    let base = payload().struct_hash();
    let mut e = entry();
    e.period_id = 137;
    assert_ne!(Eip712RewardEntry::new(&e, 56, "Linear", contract()).struct_hash(), base);
    let mut e = entry();
    e.recipient = contract();
    assert_ne!(Eip712RewardEntry::new(&e, 56, "Linear", contract()).struct_hash(), base);
    let mut e = entry();
    e.staking_reward = U256::from_u64(1);
    assert_ne!(Eip712RewardEntry::new(&e, 56, "Linear", contract()).struct_hash(), base);
    let mut e = entry();
    e.fee_reward = U256::from_u64(1);
    assert_ne!(Eip712RewardEntry::new(&e, 56, "Linear", contract()).struct_hash(), base);
}

#[test]
fn domain_has_name_version_chain_and_contract() {
    let d = payload().domain();
    assert_eq!(d.name, "Linear");
    assert_eq!(d.version, "1");
    assert_eq!(d.chain_id, 56);
    assert_eq!(d.verifying_contract, contract());
    assert_eq!(payload().domain_separator(), reference().domain_separator().unwrap());
    let other_chain = Eip712RewardEntry::new(&entry(), 97, "Linear", contract());
    assert_ne!(other_chain.domain_separator(), payload().domain_separator());
    let other_name = Eip712RewardEntry::new(&entry(), 56, "Linear2", contract());
    assert_ne!(other_name.domain_separator(), payload().domain_separator());
}

#[test]
fn domain_separator_is_the_hash_of_five_words() {
    let mut words = Vec::new();
    words.extend_from_slice(&keccak256(
        "EIP712Domain(string name,string version,uint256 chainId,address verifyingContract)",
    ));
    words.extend_from_slice(&keccak256("Linear"));
    words.extend_from_slice(&keccak256("1"));
    let mut chain = [0u8; 32];
    chain[31] = 56;
    words.extend_from_slice(&chain);
    let mut who = [0u8; 32];
    who[12..].copy_from_slice(&contract().bytes);
    words.extend_from_slice(&who);
    assert_eq!(payload().domain_separator(), keccak256(&words));
}

#[test]
fn digest_matches_the_typed_data_encoding() {
    let mut input = vec![0x19u8, 0x01];
    input.extend_from_slice(&payload().domain_separator());
    input.extend_from_slice(&payload().struct_hash());
    assert_eq!(payload().encode_eip712(), keccak256(&input));
    assert_eq!(payload().encode_eip712(), reference().encode_eip712().unwrap());
}

#[test]
fn local_wallet_has_the_address_of_its_key() {
    let w = LocalWallet::from_bytes(key(1)).unwrap();
    assert_eq!(w.address(), Address::from_text("0x7E5F4552091A69125d5DfCb7b8C2659029395Bdf").unwrap());
    assert_eq!(w.chain_id(), 1);
    assert_eq!(w.private_key, key(1));
    let w2 = LocalWallet::from_bytes(key(2)).unwrap();
    assert_eq!(w2.address(), Address::from_text("0x2B5AD5c4795c026514f8317c7a215E218DcCD6cF").unwrap());
    assert_eq!(LocalWallet::from_bytes([0u8; 32]), None);
    assert_eq!(LocalWallet::from_bytes([0xffu8; 32]), None);
}

#[test]
fn signing_twice_gives_the_same_signature() {
    let w = LocalWallet::from_bytes(key(1)).unwrap().with_chain_id(56);
    let first = w.sign_typed_data(&payload()).unwrap();
    let second = w.sign_typed_data(&payload()).unwrap();
    assert_eq!(first.len(), 65);
    assert_eq!(first, second);
    let again = LocalWallet::from_bytes(key(1)).unwrap().sign_typed_data(&payload()).unwrap();
    assert_eq!(first, again);
    let other = LocalWallet::from_bytes(key(2)).unwrap().sign_typed_data(&payload()).unwrap();
    assert_ne!(first, other);
}

#[test]
fn signature_verifies_against_the_digest() {
    let w = LocalWallet::from_bytes(key(7)).unwrap();
    let bytes = w.sign_typed_data(&payload()).unwrap();
    let signature = ethers_core::types::Signature::try_from(bytes.as_slice()).unwrap();
    let digest = reference().encode_eip712().unwrap();
    let signer = signature.recover(H256(digest)).unwrap();
    assert_eq!(signer, H160(w.address().bytes));
    assert!(signature.v == 27 || signature.v == 28);
    let by_hash = w.sign_hash(&digest).unwrap();
    assert_eq!(by_hash, bytes);
}

#[test]
fn signing_with_no_key_fails() {
    let broken = LocalWallet { private_key: [0u8; 32], address: recipient(), chain_id: 1 };
    assert_eq!(broken.sign_hash(&[1u8; 32]), Err(WalletError::LocalWallet));
    assert_eq!(broken.sign_typed_data(&payload()), Err(WalletError::LocalWallet));
}

#[test]
fn exactly_one_key_store_is_chosen() {
    let local = LocalWallet::from_bytes(key(1)).unwrap();
    let only_local = WalletConfig { private_key: Some(local), aws_key_id: None, aws_region: None };
    assert_eq!(
        Wallet::from_source(&only_local, 56),
        Ok(Wallet::LocalWallet(LocalWallet { private_key: key(1), address: local.address, chain_id: 56 }))
    );
    let local_with_region = WalletConfig {
        private_key: Some(local),
        aws_key_id: None,
        aws_region: Some("eu-west-1".to_string()),
    };
    assert_eq!(Wallet::from_source(&local_with_region, 56).unwrap().chain_id(), 56);
    let remote = WalletConfig {
        private_key: None,
        aws_key_id: Some("key-1".to_string()),
        aws_region: Some("eu-west-1".to_string()),
    };
    assert_eq!(
        Wallet::from_source(&remote, 97),
        Ok(Wallet::Aws(AwsSigner {
            key_id: "key-1".to_string(),
            region: "eu-west-1".to_string(),
            chain_id: 97
        }))
    );
}

#[test]
fn none_or_both_key_stores_are_refused() {
    let local = LocalWallet::from_bytes(key(1)).unwrap();
    let none = WalletConfig { private_key: None, aws_key_id: None, aws_region: None };
    assert_eq!(Wallet::from_source(&none, 1), Err(WalletSourceError::KeyStoreCount));
    let region_only = WalletConfig {
        private_key: None,
        aws_key_id: None,
        aws_region: Some("eu-west-1".to_string()),
    };
    assert_eq!(Wallet::from_source(&region_only, 1), Err(WalletSourceError::KeyStoreCount));
    let both = WalletConfig {
        private_key: Some(local),
        aws_key_id: Some("key-1".to_string()),
        aws_region: Some("eu-west-1".to_string()),
    };
    assert_eq!(Wallet::from_source(&both, 1), Err(WalletSourceError::KeyStoreCount));
    let no_region =
        WalletConfig { private_key: None, aws_key_id: Some("key-1".to_string()), aws_region: None };
    assert_eq!(Wallet::from_source(&no_region, 1), Err(WalletSourceError::RegionMissing));
}

#[test]
fn wallet_moves_to_another_chain() {
    let local = LocalWallet::from_bytes(key(1)).unwrap();
    let w = Wallet::LocalWallet(local).with_chain_id(1337);
    assert_eq!(w.chain_id(), 1337);
    let remote = Wallet::Aws(AwsSigner {
        key_id: "key-1".to_string(),
        region: "eu-west-1".to_string(),
        chain_id: 1,
    })
    .with_chain_id(5);
    assert_eq!(
        remote,
        Wallet::Aws(AwsSigner { key_id: "key-1".to_string(), region: "eu-west-1".to_string(), chain_id: 5 })
    );
}
