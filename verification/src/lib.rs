//! Construction, canonical encoding, hashing and signing of asset-transfer
//! transactions for a remote ledger network.
//!
//! Given a secret key and the description of a call (contract, function,
//! ordered arguments, optional attached asset), [`builder`] produces a
//! signed unit that is ready for submission: the transaction, the SHA-256
//! digest of its canonical encoding, and a BLS signature over that digest.
//! [`codec`] defines the canonical encoding and [`laws`] proves what holds
//! of it. [`flow`], [`faucet`] and [`client`] hold the decisions around a
//! submission; the network itself is reached by the caller.

pub mod error;
pub mod numeral;
pub mod varint;
pub mod wire;
pub mod text;
pub mod names;
pub mod tx;
pub mod codec;
pub mod laws;
pub mod decimal;
pub mod hexadecimal;
pub mod base58;
pub mod hasher;
pub mod keys;
pub mod signer;
pub mod builder;
pub mod endpoint;
pub mod flow;
pub mod faucet;
pub mod client;

pub use builder::{build, build_mint_tx, build_transfer_tx};
pub use client::BlockchainClient;
pub use error::TxError;
pub use tx::{Tx, TxAction, TxU};
