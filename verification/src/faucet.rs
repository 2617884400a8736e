//! The faucet: a transfer of a fixed amount of the native asset, built and
//! signed in this process and submitted through a URL.
//!
//! The faucet reaches the network in one place only. [`prepare_transfer`]
//! does all that comes before it and [`conclude_transfer`] all that comes
//! after; the caller fetches the URL in between.

use vstd::prelude::*;
use crate::base58::{base58_decoding, base58_encoding, decode_text, encode_bytes};
use crate::builder::{build_transfer_unit, built_transfer};
use crate::codec::{encode_txu, txu_encoding};
use crate::endpoint::{trim_trailing_slashes, trimmed};
use crate::error::{Invalid, TxError};
use crate::flow::{is_success, status_is_success};
use crate::hexadecimal::{encode_hex, hex_text};

verus! {

/// The amount that the faucet hands out, in the smallest unit.
pub const FAUCET_AMOUNT: i128 = 100_000_000_000;

/// The symbol of the asset that the faucet hands out.
pub const FAUCET_SYMBOL: &'static str = "AMA";

/// The path under which a packed transaction is submitted.
pub const FAUCET_SUBMIT_PATH: &'static str = "/api/tx/submit/";

/// A transfer that is signed and ready to be sent.
#[derive(Debug, Clone)]
pub struct PreparedTransfer {
    /// The URL to fetch: it carries the signed transaction.
    pub url: String,
    /// The identifier of the transaction: its digest in hexadecimal.
    pub tx_hash: String,
}

/// What a [`PreparedTransfer`] holds.
pub struct PreparedView {
    pub url: Seq<char>,
    pub tx_hash: Seq<char>,
}

impl View for PreparedTransfer {
    type V = PreparedView;

    open spec fn view(&self) -> PreparedView {
        PreparedView { url: self.url@, tx_hash: self.tx_hash@ }
    }
}

/// What preparing a transfer gives. The key and the address are decoded
/// first, then the address is measured, then the transfer is built.
pub open spec fn prepared(
    rpc: Seq<char>,
    key_b58: Seq<char>,
    address: Seq<char>,
    now_ms: int,
) -> Result<PreparedView, TxError> {
    match base58_decoding(key_b58) {
        None => Err(TxError::Validation(Invalid::SecretEncoding)),
        Some(secret) => match base58_decoding(address) {
            None => Err(TxError::Validation(Invalid::AddressEncoding)),
            Some(receiver) => match built_transfer(
                secret,
                receiver,
                FAUCET_SYMBOL@,
                FAUCET_AMOUNT as int,
                now_ms,
            ) {
                Err(e) => Err(e),
                Ok(unit) => Ok(
                    PreparedView {
                        url: trimmed(rpc) + FAUCET_SUBMIT_PATH@ + base58_encoding(txu_encoding(unit)),
                        tx_hash: hex_text(unit.hash),
                    },
                ),
            },
        },
    }
}

/// Builds and signs the faucet's transfer to `address` with the key
/// `key_b58`, both in base58, at `now_ms` milliseconds since the epoch, for
/// submission to the node at `rpc`.
pub fn prepare_transfer(rpc: &str, key_b58: &str, address: &str, now_ms: i64) -> (r: Result<
    PreparedTransfer,
    TxError,
>)
    ensures
        match prepared(rpc@, key_b58@, address@, now_ms as int) {
            Ok(view) => r matches Ok(made) && made@ == view,
            Err(e) => r matches Err(f) && f == e,
        },
{
    let secret = match decode_text(key_b58) {
        Ok(bytes) => bytes,
        Err(_) => {
            return Err(TxError::Validation(Invalid::SecretEncoding));
        },
    };
    let receiver = match decode_text(address) {
        Ok(bytes) => bytes,
        Err(_) => {
            return Err(TxError::Validation(Invalid::AddressEncoding));
        },
    };
    let unit = match build_transfer_unit(
        secret.as_slice(),
        receiver.as_slice(),
        FAUCET_SYMBOL,
        FAUCET_AMOUNT,
        now_ms,
    ) {
        Ok(unit) => unit,
        Err(e) => {
            return Err(e);
        },
    };
    let packed = encode_txu(&unit);
    let tx_hash = encode_hex(unit.hash.as_slice());
    let carried = encode_bytes(packed.as_slice());
    let url = trim_trailing_slashes(rpc).concat(FAUCET_SUBMIT_PATH).concat(carried.as_str());
    Ok(PreparedTransfer { url, tx_hash })
}

/// What the transfer came to, given the status with which the transport
/// answered: the identifier of the transaction after a success, a network
/// error that names the status after anything else.
pub fn conclude_transfer(transfer: PreparedTransfer, status: u16) -> (r: Result<String, TxError>)
    ensures
        is_success(status) ==> (r matches Ok(tx_hash) && tx_hash@ == transfer@.tx_hash),
        !is_success(status) ==> (r matches Err(e) && e == TxError::Network(status)),
{
    if status_is_success(status) {
        Ok(transfer.tx_hash)
    } else {
        Err(TxError::Network(status))
    }
}

} // verus!
