//! The rules of a reward signer node.
//!
//! A node collects the entries of a settlement period page by page ([`collector`],
//! [`graphql`]), computes from them one reward entry per eligible address ([`rewards`],
//! [`weights`], [`shares`], [`fees`]), signs each entry as typed data in the domain of the
//! settlement contract ([`signing`], [`attestation`], [`wallet`]) and hands its attestation
//! to the coordination service ([`worker`]), in the order that [`run_loop`] lays down.
//!
//! Nothing here touches the network or the clock: every function takes plain values and
//! gives plain values back, and says in its contract which.

pub mod address;
pub mod attestation;
pub mod collector;
pub mod config;
pub mod custom_serde;
pub mod decimal;
pub mod fees;
pub mod graphql;
pub mod hashing;
pub mod hexcode;
pub mod retry;
pub mod rewards;
pub mod run_loop;
pub mod shares;
pub mod signing;
pub mod uint;
pub mod wallet;
pub mod weights;
pub mod worker;
