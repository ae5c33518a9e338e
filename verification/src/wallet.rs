//! The signing authority: a key held in the process, or a key held by a remote
//! key-custody service.
//!
//! A local key signs here. A remote key is described here and signs where the network is.

use vstd::prelude::*;
use crate::address::Address;
use crate::signing::Eip712RewardEntry;

verus! {

/// The address of the account that a private key controls, or `None` where the bytes are
/// no private key.
pub uninterp spec fn key_address(private_key: Seq<u8>) -> Option<Seq<u8>>;

/// The recoverable signature of a private key over a digest, or `None` where the bytes
/// are no private key or the signing fails.
pub uninterp spec fn ecdsa_signature(private_key: Seq<u8>, digest: Seq<u8>) -> Option<Seq<u8>>;

/// A wallet with a private key held in the process.
#[derive(Clone, Copy, Debug, PartialEq, Eq)]
pub struct LocalWallet {
    pub private_key: [u8; 32],
    pub address: Address,
    pub chain_id: u64,
}

/// A signer whose key a remote key-custody service holds.
#[derive(Clone, Debug, PartialEq, Eq)]
pub struct AwsSigner {
    pub key_id: String,
    pub region: String,
    pub chain_id: u64,
}

/// The signing authority of a node.
#[derive(Clone, Debug, PartialEq, Eq)]
pub enum Wallet {
    LocalWallet(LocalWallet),
    Aws(AwsSigner),
}

/// Which backend failed to sign.
#[derive(Clone, Copy, Debug, PartialEq, Eq, Structural)]
pub enum WalletError {
    LocalWallet,
    Aws,
}

/// Why no signing authority can be made from a configuration.
#[derive(Clone, Copy, Debug, PartialEq, Eq, Structural)]
pub enum WalletSourceError {
    /// A remote key is named without the region of the service that holds it.
    RegionMissing,
    /// Not exactly one of the two key stores is configured.
    KeyStoreCount,
}

/// The key-custody selection of the process configuration.
#[derive(Clone, Debug, PartialEq, Eq)]
pub struct WalletConfig {
    pub private_key: Option<LocalWallet>,
    pub aws_key_id: Option<String>,
    pub aws_region: Option<String>,
}

/// Where the key-custody selection comes from.
pub trait WalletSource {
    /// The local key that is configured, if any.
    spec fn local_key(&self) -> Option<LocalWallet>;

    /// The id of the remote key that is configured, if any.
    spec fn remote_key_id(&self) -> Option<String>;

    /// The region of the service that holds the remote key, if configured.
    spec fn remote_region(&self) -> Option<String>;

    fn private_key(&self) -> (r: &Option<LocalWallet>)
        ensures
            *r == self.local_key(),
    ;

    fn aws_key_id(&self) -> (r: &Option<String>)
        ensures
            *r == self.remote_key_id(),
    ;

    fn aws_region(&self) -> (r: &Option<String>)
        ensures
            *r == self.remote_region(),
    ;
}

impl WalletSource for WalletConfig {
    open spec fn local_key(&self) -> Option<LocalWallet> {
        self.private_key
    }

    open spec fn remote_key_id(&self) -> Option<String> {
        self.aws_key_id
    }

    open spec fn remote_region(&self) -> Option<String> {
        self.aws_region
    }

    fn private_key(&self) -> (r: &Option<LocalWallet>) {
        &self.private_key
    }

    fn aws_key_id(&self) -> (r: &Option<String>) {
        &self.aws_key_id
    }

    fn aws_region(&self) -> (r: &Option<String>) {
        &self.aws_region
    }
}

/// The signing authority that a selection of key stores gives for a chain.
pub open spec fn wallet_choice(
    private_key: Option<LocalWallet>,
    aws_key_id: Option<String>,
    aws_region: Option<String>,
    chain_id: u64,
) -> Result<Wallet, WalletSourceError> {
    match (private_key, aws_key_id) {
        (Some(local), None) => Ok(
            Wallet::LocalWallet(
                LocalWallet { private_key: local.private_key, address: local.address, chain_id },
            ),
        ),
        (None, Some(key_id)) => match aws_region {
            Some(region) => Ok(Wallet::Aws(AwsSigner { key_id, region, chain_id })),
            None => Err(WalletSourceError::RegionMissing),
        },
        _ => Err(WalletSourceError::KeyStoreCount),
    }
}

impl LocalWallet {
    /// The wallet of a private key, on chain 1, or `None` where the bytes are no private
    /// key.
    pub fn from_bytes(private_key: [u8; 32]) -> (r: Option<LocalWallet>)
        ensures
            r.is_some() == key_address(private_key@).is_some(),
            r matches Some(w) ==> {
                &&& w.private_key == private_key
                &&& Some(w.address.bytes@) == key_address(private_key@)
                &&& w.chain_id == 1
            },
    {
        match outside_key_address(&private_key) {
            Some(address) => Some(LocalWallet { private_key, address, chain_id: 1 }),
            None => None,
        }
    }

    /// The address of the wallet.
    pub fn address(&self) -> (r: Address)
        ensures
            r == self.address,
    {
        self.address
    }

    /// The chain of the wallet.
    pub fn chain_id(&self) -> (r: u64)
        ensures
            r == self.chain_id,
    {
        self.chain_id
    }

    /// The same wallet on another chain.
    pub fn with_chain_id(self, chain_id: u64) -> (r: LocalWallet)
        ensures
            r == (LocalWallet { private_key: self.private_key, address: self.address, chain_id }),
    {
        LocalWallet { private_key: self.private_key, address: self.address, chain_id }
    }

    /// Signs a digest. The signature is a function of the key and the digest: the same
    /// two give the same 65 bytes.
    pub fn sign_hash(&self, digest: &[u8; 32]) -> (r: Result<Vec<u8>, WalletError>)
        ensures
            r.is_ok() == ecdsa_signature(self.private_key@, digest@).is_some(),
            r matches Ok(s) ==> Some(s@) == ecdsa_signature(self.private_key@, digest@) && s@.len()
                == 65,
            r matches Err(e) ==> e == WalletError::LocalWallet,
    {
        match outside_sign_hash(&self.private_key, digest) {
            Some(s) => Ok(s),
            None => Err(WalletError::LocalWallet),
        }
    }

    /// Signs a reward entry in its domain: the signature over the digest of the payload.
    pub fn sign_typed_data(&self, payload: &Eip712RewardEntry) -> (r: Result<Vec<u8>, WalletError>)
        ensures
            r.is_ok() == ecdsa_signature(self.private_key@, payload.digest()).is_some(),
            r matches Ok(s) ==> Some(s@) == ecdsa_signature(self.private_key@, payload.digest())
                && s@.len() == 65,
            r matches Err(e) ==> e == WalletError::LocalWallet,
    {
        let digest = payload.encode_eip712();
        self.sign_hash(&digest)
    }
}

impl Wallet {
    /// Chooses the signing authority: the local key where only that is configured, the
    /// remote key where only that is configured together with its region.
    pub fn from_source<S: WalletSource>(source: &S, chain_id: u64) -> (r: Result<
        Wallet,
        WalletSourceError,
    >)
        ensures
            r == wallet_choice(
                source.local_key(),
                source.remote_key_id(),
                source.remote_region(),
                chain_id,
            ),
    {
        let private_key = source.private_key();
        let key_id = source.aws_key_id();
        match (private_key, key_id) {
            (Some(local), None) => Ok(Wallet::LocalWallet(local.with_chain_id(chain_id))),
            (None, Some(id)) => {
                match source.aws_region() {
                    Some(name) => Ok(
                        Wallet::Aws(
                            AwsSigner { key_id: id.clone(), region: name.clone(), chain_id },
                        ),
                    ),
                    None => Err(WalletSourceError::RegionMissing),
                }
            },
            _ => Err(WalletSourceError::KeyStoreCount),
        }
    }

    /// The chain of the signing authority.
    pub fn chain_id(&self) -> (r: u64)
        ensures
            r == match *self {
                Wallet::LocalWallet(inner) => inner.chain_id,
                Wallet::Aws(inner) => inner.chain_id,
            },
    {
        match self {
            Wallet::LocalWallet(inner) => inner.chain_id,
            Wallet::Aws(inner) => inner.chain_id,
        }
    }

    /// The same signing authority on another chain.
    pub fn with_chain_id(self, chain_id: u64) -> (r: Wallet)
        ensures
            r == match self {
                Wallet::LocalWallet(inner) => Wallet::LocalWallet(
                    LocalWallet {
                        private_key: inner.private_key,
                        address: inner.address,
                        chain_id,
                    },
                ),
                Wallet::Aws(inner) => Wallet::Aws(
                    AwsSigner { key_id: inner.key_id, region: inner.region, chain_id },
                ),
            },
    {
        match self {
            Wallet::LocalWallet(inner) => Wallet::LocalWallet(inner.with_chain_id(chain_id)),
            Wallet::Aws(inner) => Wallet::Aws(
                AwsSigner { key_id: inner.key_id, region: inner.region, chain_id },
            ),
        }
    }
}

/// Makes a `LocalWallet` of `ethers_signers` from the key with `from_bytes` and asks for its
/// address. Both depend on the key alone; bytes that are no key give `None`.
#[verifier::external_body]
fn outside_key_address(private_key: &[u8; 32]) -> (r: Option<Address>)
    ensures
        r.is_some() == key_address(private_key@).is_some(),
        r matches Some(a) ==> Some(a.bytes@) == key_address(private_key@),
{
    let wallet = ethers_signers::LocalWallet::from_bytes(private_key).ok()?;
    Some(Address { bytes: ethers_signers::Signer::address(&wallet).0 })
}

/// Makes a `LocalWallet` of `ethers_signers` from the key with `from_bytes` and calls its
/// `sign_hash` on the digest. The signing draws on no randomness, so the signature depends on
/// the key and the digest alone; it comes as 65 bytes.
#[verifier::external_body]
fn outside_sign_hash(private_key: &[u8; 32], digest: &[u8; 32]) -> (r: Option<Vec<u8>>)
    ensures
        r.is_some() == ecdsa_signature(private_key@, digest@).is_some(),
        r matches Some(s) ==> Some(s@) == ecdsa_signature(private_key@, digest@) && s@.len() == 65,
{
    let wallet = ethers_signers::LocalWallet::from_bytes(private_key).ok()?;
    let signature = wallet.sign_hash(ethers_core::types::H256(*digest)).ok()?;
    Some(signature.to_vec())
}

} // verus!
