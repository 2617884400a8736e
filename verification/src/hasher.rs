//! The transaction digest: SHA-256 of the canonical encoding. It is the
//! message that is signed, the value carried in the signed unit, and the
//! identifier under which the transaction is shown.

use vstd::prelude::*;
use sha2::{Digest, Sha256};
use crate::codec::{encode_tx, tx_encoding};
use crate::tx::{Tx, TxU, TxUView, TxView};
use crate::wire::same_bytes;

verus! {

/// The SHA-256 digest of `data`.
pub uninterp spec fn sha256(data: Seq<u8>) -> Seq<u8>;

/// The digest of a transaction.
pub open spec fn tx_digest(t: TxView) -> Seq<u8> {
    sha256(tx_encoding(t))
}

/// `Sha256::digest` of the crate sha2: the 32 bytes of the SHA-256 digest
/// of `data`. The digest depends on the bytes of `data` alone.
#[verifier::external_body]
fn sha256_digest(data: &[u8]) -> (digest: Vec<u8>)
    ensures
        digest@ == sha256(data@),
        digest@.len() == 32,
{
    Sha256::digest(data).to_vec()
}

/// The digest of `tx`: SHA-256 of its canonical encoding.
pub fn hash_tx(tx: &Tx) -> (out: Vec<u8>)
    ensures
        out@ == tx_digest(tx@),
        out@.len() == 32,
{
    let encoded = encode_tx(tx);
    sha256_digest(encoded.as_slice())
}

/// Whether the digest that a signed unit carries is the digest of its
/// transaction.
pub open spec fn hash_bound(u: TxUView) -> bool {
    u.hash == tx_digest(u.tx)
}

/// Recomputes the digest of the transaction in `unit` and holds it against
/// the digest that `unit` carries.
pub fn hash_matches(unit: &TxU) -> (ok: bool)
    ensures
        ok == hash_bound(unit@),
{
    let recomputed = hash_tx(&unit.tx);
    same_bytes(recomputed.as_slice(), unit.hash.as_slice())
}

} // verus!
