//! Building signed transactions: derive the signer's key, assemble the
//! action and the transaction, hash the canonical encoding, sign the digest,
//! and package the three into a signed unit.

use vstd::prelude::*;
use vstd::slice::slice_to_vec;
use vstd::utf8::encode_utf8;
use crate::codec::{encode_txu, tx_decoding, tx_encoding, tx_fits, txu_encoding};
use crate::decimal::{decimal, decimal_bytes};
use crate::error::{Invalid, TxError};
use crate::hasher::{hash_bound, hash_matches, hash_tx, tx_digest};
use crate::laws::lemma_tx_round_trip;
use crate::keys::{get_public_key, public_key_of, secret_scalar, PUBLIC_KEY_LEN};
use crate::signer::{sign, signature_of, signing_domain, valid_signature, verify, DST_TX};
use crate::tx::{ActionView, Tx, TxAction, TxU, TxUView, TxView};
use crate::wire::contents;

verus! {

/// The nonce of a transaction built at `now_ms` milliseconds since the
/// epoch: that instant in nanoseconds.
pub open spec fn nonce_at(now_ms: int) -> int {
    now_ms * 1_000_000
}

/// The action of a call: the operation is always `"call"`.
pub open spec fn call_action(
    contract: Seq<char>,
    function: Seq<char>,
    args: Seq<Seq<u8>>,
    attached_symbol: Option<Seq<u8>>,
    attached_amount: Option<Seq<u8>>,
) -> ActionView {
    ActionView { args, contract, function, op: "call"@, attached_symbol, attached_amount }
}

/// The transaction that `secret` makes of `action` at `now_ms`.
pub open spec fn transaction_of(secret: Seq<u8>, action: ActionView, now_ms: int) -> TxView {
    TxView { action, nonce: nonce_at(now_ms), signer: public_key_of(secret) }
}

/// The signed unit of `t` under `secret`: the digest of `t`, the signature of
/// `secret` over that digest, and `t` itself.
pub open spec fn signed_unit(secret: Seq<u8>, t: TxView) -> TxUView {
    TxUView {
        hash: tx_digest(t),
        signature: signature_of(secret, tx_digest(t), signing_domain()),
        tx: t,
    }
}

/// Whether `secret` can sign: it is 64 bytes long and does not stand for the
/// scalar zero.
pub open spec fn usable_secret(secret: Seq<u8>) -> bool {
    secret.len() == 64 && secret_scalar(secret) != 0
}

/// What building a signed unit gives for each secret.
pub open spec fn built(secret: Seq<u8>, action: ActionView, now_ms: int) -> Result<
    TxUView,
    TxError,
> {
    if secret.len() != 64 {
        Err(TxError::Validation(Invalid::SecretLength))
    } else if secret_scalar(secret) == 0 {
        Err(TxError::Crypto)
    } else {
        Ok(signed_unit(secret, transaction_of(secret, action, now_ms)))
    }
}

/// The arguments of a mint, in the order the contract takes them.
pub open spec fn mint_args(symbol: Seq<char>, amount: int) -> Seq<Seq<u8>> {
    seq![encode_utf8(symbol), decimal(amount)]
}

/// The arguments of a transfer, in the order the contract takes them.
pub open spec fn transfer_args(receiver: Seq<u8>, symbol: Seq<char>, amount: int) -> Seq<
    Seq<u8>,
> {
    seq![receiver, decimal(amount), encode_utf8(symbol)]
}

/// Hash binding: the digest in a built unit is the digest of its
/// transaction, and it is still that after the transaction has gone through
/// its encoding and back.
pub proof fn lemma_hash_binding(secret: Seq<u8>, action: ActionView, now_ms: int)
    requires
        usable_secret(secret),
        tx_fits(transaction_of(secret, action, now_ms)),
    ensures
        ({
            let unit = signed_unit(secret, transaction_of(secret, action, now_ms));
            &&& built(secret, action, now_ms) == Ok::<TxUView, TxError>(unit)
            &&& hash_bound(unit)
            &&& tx_decoding(tx_encoding(unit.tx)) matches Some(t) && tx_digest(t) == unit.hash
        }),
{
    lemma_tx_round_trip(transaction_of(secret, action, now_ms));
}

/// A built unit carries the signer's public key, the nonce of its instant
/// and the action as it was given.
pub proof fn lemma_built_unit(secret: Seq<u8>, action: ActionView, now_ms: int)
    requires
        usable_secret(secret),
    ensures
        ({
            let unit = built(secret, action, now_ms)->Ok_0;
            &&& built(secret, action, now_ms) is Ok
            &&& unit.tx.action == action
            &&& unit.tx.nonce == now_ms * 1_000_000
            &&& unit.tx.signer == public_key_of(secret)
            &&& unit.signature == signature_of(secret, unit.hash, signing_domain())
        }),
{
}

/// Whether a signed unit is sound: it carries the digest of its transaction
/// and a signature over that digest that is valid for its signer.
pub open spec fn sound_unit(u: TxUView) -> bool {
    &&& hash_bound(u)
    &&& valid_signature(u.tx.signer, u.hash, signing_domain(), u.signature)
}

/// Checks a signed unit: recomputes the digest of its transaction, holds it
/// against the digest that the unit carries, and checks the signature over
/// it against the signer's key.
pub fn verify_unit(unit: &TxU) -> (ok: bool)
    ensures
        ok == sound_unit(unit@),
{
    hash_matches(unit) && verify(
        unit.tx.signer.as_slice(),
        unit.hash.as_slice(),
        DST_TX.as_bytes(),
        unit.signature.as_slice(),
    )
}

/// Input validation: a secret that is not 64 bytes long is rejected as
/// invalid, whatever else is asked for, and a transfer to a receiver that is
/// not 48 bytes long is rejected as invalid, whatever the secret.
pub proof fn lemma_invalid_inputs_rejected(
    secret: Seq<u8>,
    action: ActionView,
    receiver: Seq<u8>,
    symbol: Seq<char>,
    amount: int,
    now_ms: int,
)
    ensures
        secret.len() != 64 ==> built(secret, action, now_ms) == Err::<TxUView, TxError>(
            TxError::Validation(Invalid::SecretLength),
        ),
        receiver.len() != 48 ==> built_transfer(secret, receiver, symbol, amount, now_ms) == Err::<
            TxUView,
            TxError,
        >(TxError::Validation(Invalid::AddressLength)),
{
}

/// The nonce for a transaction built at `now_ms`.
pub fn nonce_from_millis(now_ms: i64) -> (nonce: i128)
    ensures
        nonce == nonce_at(now_ms as int),
{
    (now_ms as i128) * 1_000_000
}

/// A copy of `items`.
fn copy_items(items: &[Vec<u8>]) -> (out: Vec<Vec<u8>>)
    ensures
        contents(out@) == contents(items@),
{
    let mut out: Vec<Vec<u8>> = Vec::new();
    let mut i: usize = 0;
    while i < items.len()
        invariant
            i <= items.len(),
            out@.len() == i,
            forall|j: int| 0 <= j < i ==> out@[j]@ == items@[j]@,
        decreases items.len() - i,
    {
        out.push(slice_to_vec(items[i].as_slice()));
        i += 1;
    }
    proof {
        assert(contents(out@) =~= contents(items@));
    }
    out
}

/// A copy of an optional byte string.
fn copy_optional(value: Option<&[u8]>) -> (out: Option<Vec<u8>>)
    ensures
        match value {
            Some(bytes) => out matches Some(copy) && copy@ == bytes@,
            None => out is None,
        },
{
    match value {
        Some(bytes) => Some(slice_to_vec(bytes)),
        None => None,
    }
}

/// The view of an optional byte slice.
pub open spec fn optional_slice(value: Option<&[u8]>) -> Option<Seq<u8>> {
    match value {
        Some(bytes) => Some(bytes@),
        None => None,
    }
}

/// Builds the signed unit of a call of `function` in `contract` with `args`,
/// signed with `sk_bytes`, at `now_ms` milliseconds since the epoch.
///
/// Fails with a validation error, before any cryptographic operation, where
/// the secret is not 64 bytes long, and with a crypto error where the secret
/// stands for the scalar zero. No partly built unit is ever returned.
pub fn build_unit(
    sk_bytes: &[u8],
    contract: &str,
    function: &str,
    args: &[Vec<u8>],
    attached_symbol: Option<&[u8]>,
    attached_amount: Option<&[u8]>,
    now_ms: i64,
) -> (r: Result<TxU, TxError>)
    ensures
        match built(
            sk_bytes@,
            call_action(
                contract@,
                function@,
                contents(args@),
                optional_slice(attached_symbol),
                optional_slice(attached_amount),
            ),
            now_ms as int,
        ) {
            Ok(unit) => r matches Ok(made) && made@ == unit,
            Err(e) => r matches Err(f) && f == e,
        },
{
    let pk = match get_public_key(sk_bytes) {
        Ok(pk) => pk,
        Err(e) => {
            return Err(e);
        },
    };
    let action = TxAction {
        op: "call".to_owned(),
        contract: contract.to_owned(),
        function: function.to_owned(),
        args: copy_items(args),
        attached_symbol: copy_optional(attached_symbol),
        attached_amount: copy_optional(attached_amount),
    };
    let tx = Tx { signer: pk, nonce: nonce_from_millis(now_ms), action };
    let hash = hash_tx(&tx);
    let signature = match sign(sk_bytes, hash.as_slice(), DST_TX.as_bytes()) {
        Ok(signature) => signature,
        Err(e) => {
            return Err(e);
        },
    };
    Ok(TxU { hash, signature, tx })
}

/// Builds a signed call and gives its canonical encoding, ready for
/// submission. Fails as [`build_unit`] does.
pub fn build(
    sk_bytes: &[u8],
    contract: &str,
    function: &str,
    args: &[Vec<u8>],
    attached_symbol: Option<&[u8]>,
    attached_amount: Option<&[u8]>,
    now_ms: i64,
) -> (r: Result<Vec<u8>, TxError>)
    ensures
        match built(
            sk_bytes@,
            call_action(
                contract@,
                function@,
                contents(args@),
                optional_slice(attached_symbol),
                optional_slice(attached_amount),
            ),
            now_ms as int,
        ) {
            Ok(unit) => r matches Ok(bytes) && bytes@ == txu_encoding(unit),
            Err(e) => r matches Err(f) && f == e,
        },
{
    match build_unit(
        sk_bytes,
        contract,
        function,
        args,
        attached_symbol,
        attached_amount,
        now_ms,
    ) {
        Ok(unit) => Ok(encode_txu(&unit)),
        Err(e) => Err(e),
    }
}

/// The action of a mint of `amount` of `symbol`.
pub open spec fn mint_action(symbol: Seq<char>, amount: int) -> ActionView {
    call_action("Coin"@, "mint"@, mint_args(symbol, amount), None, None)
}

/// The action of a transfer of `amount` of `symbol` to `receiver`.
pub open spec fn transfer_action(receiver: Seq<u8>, symbol: Seq<char>, amount: int) -> ActionView {
    call_action("Coin"@, "transfer"@, transfer_args(receiver, symbol, amount), None, None)
}

/// What building a transfer gives: the receiver's length is checked first.
pub open spec fn built_transfer(
    secret: Seq<u8>,
    receiver: Seq<u8>,
    symbol: Seq<char>,
    amount: int,
    now_ms: int,
) -> Result<TxUView, TxError> {
    if receiver.len() != 48 {
        Err(TxError::Validation(Invalid::AddressLength))
    } else {
        built(secret, transfer_action(receiver, symbol, amount), now_ms)
    }
}

/// Builds the signed unit that mints `amount` of `symbol`: a call of `mint`
/// in the native asset contract with the symbol and the amount in decimal
/// digits, in that order, and no attached asset.
pub fn build_mint_unit(sk_bytes: &[u8], symbol: &str, amount: i128, now_ms: i64) -> (r: Result<
    TxU,
    TxError,
>)
    ensures
        match built(sk_bytes@, mint_action(symbol@, amount as int), now_ms as int) {
            Ok(unit) => r matches Ok(made) && made@ == unit,
            Err(e) => r matches Err(f) && f == e,
        },
{
    let mut args: Vec<Vec<u8>> = Vec::new();
    args.push(slice_to_vec(symbol.as_bytes()));
    args.push(decimal_bytes(amount));
    proof {
        assert(contents(args@) =~= mint_args(symbol@, amount as int));
    }
    build_unit(sk_bytes, "Coin", "mint", args.as_slice(), None, None, now_ms)
}

/// Builds a signed mint and gives its canonical encoding.
pub fn build_mint_tx(sk_bytes: &[u8], symbol: &str, amount: i128, now_ms: i64) -> (r: Result<
    Vec<u8>,
    TxError,
>)
    ensures
        match built(sk_bytes@, mint_action(symbol@, amount as int), now_ms as int) {
            Ok(unit) => r matches Ok(bytes) && bytes@ == txu_encoding(unit),
            Err(e) => r matches Err(f) && f == e,
        },
{
    match build_mint_unit(sk_bytes, symbol, amount, now_ms) {
        Ok(unit) => Ok(encode_txu(&unit)),
        Err(e) => Err(e),
    }
}

/// Builds the signed unit that transfers `amount` of `symbol` to `receiver`:
/// a call of `transfer` in the native asset contract with the receiver, the
/// amount in decimal digits and the symbol, in that order, and no attached
/// asset.
///
/// Fails with a validation error, before anything is built, where the
/// receiver is not 48 bytes long.
pub fn build_transfer_unit(
    sk_bytes: &[u8],
    receiver: &[u8],
    symbol: &str,
    amount: i128,
    now_ms: i64,
) -> (r: Result<TxU, TxError>)
    ensures
        match built_transfer(sk_bytes@, receiver@, symbol@, amount as int, now_ms as int) {
            Ok(unit) => r matches Ok(made) && made@ == unit,
            Err(e) => r matches Err(f) && f == e,
        },
{
    if receiver.len() != PUBLIC_KEY_LEN {
        return Err(TxError::Validation(Invalid::AddressLength));
    }
    let mut args: Vec<Vec<u8>> = Vec::new();
    args.push(slice_to_vec(receiver));
    args.push(decimal_bytes(amount));
    args.push(slice_to_vec(symbol.as_bytes()));
    proof {
        assert(contents(args@) =~= transfer_args(receiver@, symbol@, amount as int));
    }
    build_unit(sk_bytes, "Coin", "transfer", args.as_slice(), None, None, now_ms)
}

/// Builds a signed transfer and gives its canonical encoding.
pub fn build_transfer_tx(
    sk_bytes: &[u8],
    receiver: &[u8],
    symbol: &str,
    amount: i128,
    now_ms: i64,
) -> (r: Result<Vec<u8>, TxError>)
    ensures
        match built_transfer(sk_bytes@, receiver@, symbol@, amount as int, now_ms as int) {
            Ok(unit) => r matches Ok(bytes) && bytes@ == txu_encoding(unit),
            Err(e) => r matches Err(f) && f == e,
        },
{
    match build_transfer_unit(sk_bytes, receiver, symbol, amount, now_ms) {
        Ok(unit) => Ok(encode_txu(&unit)),
        Err(e) => Err(e),
    }
}

} // verus!
