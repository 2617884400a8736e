//! The canonical encoding of the transaction records.
//!
//! A record is written as a record term whose pairs are a field name and the
//! field's term, in the order in which the record declares its fields. An
//! optional field that is absent is left out altogether, and the pair count
//! says how many fields are there. Every record has exactly one encoding,
//! and no two records share one.

use vstd::prelude::*;
use vstd::utf8::encode_utf8;
use crate::error::TxError;
use crate::laws::{
    lemma_encoding_of_parse_tx, lemma_encoding_of_parse_txu, lemma_parse_tx_of_encoding,
    lemma_parse_txu_of_encoding,
};
use crate::text::{parse_text, read_text, text_fits, text_term, write_text};
use crate::tx::{optional_bytes, ActionView, Tx, TxAction, TxU, TxUView, TxView};
use crate::wire::{
    binary_fits, binary_term, int_term, lemma_length_fits, list_fits, list_term,
    parse_binary, parse_int, parse_list, parse_record_header, read_binary, read_int, read_list,
    read_record_header, record_header, same_bytes, write_binary, write_int, write_list,
    write_record_header,
};

verus! {

/// The pair of an optional byte-string field: nothing where it is absent.
pub open spec fn optional_pair(name: Seq<char>, value: Option<Seq<u8>>) -> Seq<u8> {
    match value {
        Some(bytes) => text_term(name) + binary_term(bytes),
        None => Seq::empty(),
    }
}

/// The number of fields that the record of `a` holds.
pub open spec fn action_field_count(a: ActionView) -> nat {
    let amount: nat = if a.attached_amount is Some { 1 } else { 0 };
    let symbol: nat = if a.attached_symbol is Some { 1 } else { 0 };
    4 + amount + symbol
}

/// The pairs of the attached asset, for as far as it is there.
pub open spec fn attached_encoding(symbol: Option<Seq<u8>>, amount: Option<Seq<u8>>) -> Seq<u8> {
    optional_pair("attached_symbol"@, symbol) + optional_pair("attached_amount"@, amount)
}

/// The canonical encoding of an action.
pub open spec fn action_encoding(a: ActionView) -> Seq<u8> {
    record_header(action_field_count(a))
        + (text_term("args"@) + list_term(a.args))
        + (text_term("contract"@) + text_term(a.contract))
        + (text_term("function"@) + text_term(a.function))
        + (text_term("op"@) + text_term(a.op))
        + attached_encoding(a.attached_symbol, a.attached_amount)
}

/// The canonical encoding of a transaction.
pub open spec fn tx_encoding(t: TxView) -> Seq<u8> {
    record_header(3)
        + (text_term("action"@) + action_encoding(t.action))
        + (text_term("nonce"@) + int_term(t.nonce))
        + (text_term("signer"@) + binary_term(t.signer))
}

/// The canonical encoding of a signed transaction.
pub open spec fn txu_encoding(u: TxUView) -> Seq<u8> {
    record_header(3)
        + (text_term("hash"@) + binary_term(u.hash))
        + (text_term("signature"@) + binary_term(u.signature))
        + (text_term("tx"@) + tx_encoding(u.tx))
}

/// Whether every length in `a` can be written.
pub open spec fn action_fits(a: ActionView) -> bool {
    &&& list_fits(a.args)
    &&& text_fits(a.contract)
    &&& text_fits(a.function)
    &&& text_fits(a.op)
    &&& a.attached_symbol matches Some(bytes) ==> binary_fits(bytes)
    &&& a.attached_amount matches Some(bytes) ==> binary_fits(bytes)
}

/// Whether `t` can be encoded: its lengths can be written and its nonce is a
/// 128-bit integer.
pub open spec fn tx_fits(t: TxView) -> bool {
    &&& action_fits(t.action)
    &&& i128::MIN <= t.nonce <= i128::MAX
    &&& binary_fits(t.signer)
}

/// Whether `u` can be encoded.
pub open spec fn txu_fits(u: TxUView) -> bool {
    &&& binary_fits(u.hash)
    &&& binary_fits(u.signature)
    &&& tx_fits(u.tx)
}

/// Reads the field name `name` from the front of `s`.
#[verifier::opaque]
pub open spec fn parse_name(s: Seq<u8>, name: Seq<char>) -> Option<Seq<u8>> {
    match parse_binary(s) {
        Some((bytes, rest)) => if bytes == encode_utf8(name) {
            Some(rest)
        } else {
            None
        },
        None => None,
    }
}

/// Reads the pair of a text field named `name` from the front of `s`.
pub open spec fn parse_text_pair(s: Seq<u8>, name: Seq<char>) -> Option<(Seq<char>, Seq<u8>)> {
    match parse_name(s, name) {
        Some(after) => parse_text(after),
        None => None,
    }
}

/// Reads the pair of a byte-string field named `name` from the front of `s`.
pub open spec fn parse_binary_pair(s: Seq<u8>, name: Seq<char>) -> Option<(Seq<u8>, Seq<u8>)> {
    match parse_name(s, name) {
        Some(after) => parse_binary(after),
        None => None,
    }
}

/// Reads the attached asset of an action whose record announces `count`
/// fields: the symbol, the amount and what follows them. Four fields leave
/// room for neither, five for one of the two, six for both, the symbol
/// first.
pub open spec fn parse_attached(s: Seq<u8>, count: nat) -> Option<
    (Option<Seq<u8>>, Option<Seq<u8>>, Seq<u8>),
> {
    if count == 4 {
        Some((None, None, s))
    } else if count == 5 {
        match parse_binary_pair(s, "attached_symbol"@) {
            Some((symbol, rest)) => Some((Some(symbol), None, rest)),
            None => match parse_binary_pair(s, "attached_amount"@) {
                Some((amount, rest)) => Some((None, Some(amount), rest)),
                None => None,
            },
        }
    } else if count == 6 {
        match parse_binary_pair(s, "attached_symbol"@) {
            Some((symbol, after)) => match parse_binary_pair(after, "attached_amount"@) {
                Some((amount, rest)) => Some((Some(symbol), Some(amount), rest)),
                None => None,
            },
            None => None,
        }
    } else {
        None
    }
}

/// Reads one encoded action from the front of `s`.
pub open spec fn parse_action(s: Seq<u8>) -> Option<(ActionView, Seq<u8>)> {
    match parse_record_header(s) {
        Some((count, s0)) => match parse_name(s0, "args"@) {
            Some(s1) => match parse_list(s1) {
                Some((args, s2)) => match parse_text_pair(s2, "contract"@) {
                    Some((contract, s3)) => match parse_text_pair(s3, "function"@) {
                        Some((function, s4)) => match parse_text_pair(s4, "op"@) {
                            Some((op, s5)) => match parse_attached(s5, count) {
                                Some((attached_symbol, attached_amount, rest)) => Some(
                                    (
                                        ActionView {
                                            args,
                                            contract,
                                            function,
                                            op,
                                            attached_symbol,
                                            attached_amount,
                                        },
                                        rest,
                                    ),
                                ),
                                None => None,
                            },
                            None => None,
                        },
                        None => None,
                    },
                    None => None,
                },
                None => None,
            },
            None => None,
        },
        None => None,
    }
}

/// Reads one encoded transaction from the front of `s`.
pub open spec fn parse_tx(s: Seq<u8>) -> Option<(TxView, Seq<u8>)> {
    match parse_record_header(s) {
        Some((count, s0)) => match parse_name(s0, "action"@) {
            Some(s1) => match parse_action(s1) {
                Some((action, s2)) => match parse_name(s2, "nonce"@) {
                    Some(s3) => match parse_int(s3) {
                        Some((nonce, s4)) => match parse_binary_pair(s4, "signer"@) {
                            Some((signer, rest)) => if count == 3 && i128::MIN <= nonce
                                <= i128::MAX {
                                Some((TxView { action, nonce, signer }, rest))
                            } else {
                                None
                            },
                            None => None,
                        },
                        None => None,
                    },
                    None => None,
                },
                None => None,
            },
            None => None,
        },
        None => None,
    }
}

/// Reads one encoded signed transaction from the front of `s`.
pub open spec fn parse_txu(s: Seq<u8>) -> Option<(TxUView, Seq<u8>)> {
    match parse_record_header(s) {
        Some((count, s0)) => match parse_binary_pair(s0, "hash"@) {
            Some((hash, s1)) => match parse_binary_pair(s1, "signature"@) {
                Some((signature, s2)) => match parse_name(s2, "tx"@) {
                    Some(s3) => match parse_tx(s3) {
                        Some((tx, rest)) => if count == 3 {
                            Some((TxUView { hash, signature, tx }, rest))
                        } else {
                            None
                        },
                        None => None,
                    },
                    None => None,
                },
                None => None,
            },
            None => None,
        },
        None => None,
    }
}

/// The transaction that `bytes` encode, if they encode one and nothing else.
pub open spec fn tx_decoding(bytes: Seq<u8>) -> Option<TxView> {
    match parse_tx(bytes) {
        Some((t, rest)) => if rest.len() == 0 {
            Some(t)
        } else {
            None
        },
        None => None,
    }
}

/// The signed transaction that `bytes` encode, if they encode one and
/// nothing else.
pub open spec fn txu_decoding(bytes: Seq<u8>) -> Option<TxUView> {
    match parse_txu(bytes) {
        Some((u, rest)) => if rest.len() == 0 {
            Some(u)
        } else {
            None
        },
        None => None,
    }
}

/// Appends the pair of an optional byte-string field to `out`.
fn write_optional_pair(out: &mut Vec<u8>, name: &str, value: &Option<Vec<u8>>)
    ensures
        final(out)@ == old(out)@ + optional_pair(name@, optional_bytes(*value)),
        optional_bytes(*value) matches Some(bytes) ==> binary_fits(bytes),
{
    match value {
        Some(bytes) => {
            write_text(out, name);
            write_binary(out, bytes.as_slice());
            proof {
                lemma_length_fits(bytes.len());
                assert(out@ =~= old(out)@ + optional_pair(name@, optional_bytes(*value)));
            }
        },
        None => {
            proof {
                assert(out@ =~= old(out)@ + optional_pair(name@, optional_bytes(*value)));
            }
        },
    }
}

/// Appends the pair of a text field to `out`.
fn write_text_pair(out: &mut Vec<u8>, name: &str, value: &str)
    ensures
        final(out)@ == old(out)@ + (text_term(name@) + text_term(value@)),
        text_fits(value@),
{
    write_text(out, name);
    write_text(out, value);
    proof {
        assert(out@ =~= old(out)@ + (text_term(name@) + text_term(value@)));
    }
}

/// Appends the pair of a byte-string field to `out`.
fn write_binary_pair(out: &mut Vec<u8>, name: &str, value: &[u8])
    ensures
        final(out)@ == old(out)@ + (text_term(name@) + binary_term(value@)),
        binary_fits(value@),
{
    write_text(out, name);
    write_binary(out, value);
    proof {
        lemma_length_fits(value.len());
        assert(out@ =~= old(out)@ + (text_term(name@) + binary_term(value@)));
    }
}

/// Appends the canonical encoding of `action` to `out`.
pub fn write_action(out: &mut Vec<u8>, action: &TxAction)
    ensures
        final(out)@ == old(out)@ + action_encoding(action@),
        action_fits(action@),
{
    let mut count: u8 = 4;
    if action.attached_symbol.is_some() {
        count += 1;
    }
    if action.attached_amount.is_some() {
        count += 1;
    }
    write_record_header(out, count);
    write_text(out, "args");
    write_list(out, action.args.as_slice());
    let ghost x1 = out@;
    write_text_pair(out, "contract", action.contract.as_str());
    write_text_pair(out, "function", action.function.as_str());
    let ghost x3 = out@;
    write_text_pair(out, "op", action.op.as_str());
    let ghost x4 = out@;
    write_optional_pair(out, "attached_symbol", &action.attached_symbol);
    write_optional_pair(out, "attached_amount", &action.attached_amount);
    proof {
        let a = action@;
        assert(x1 =~= old(out)@ + (record_header(action_field_count(a)) + (text_term("args"@)
            + list_term(a.args))));
        assert(x3 =~= old(out)@ + (record_header(action_field_count(a)) + (text_term("args"@)
            + list_term(a.args)) + (text_term("contract"@) + text_term(a.contract)) + (
        text_term("function"@) + text_term(a.function))));
        assert(out@ =~= x4 + attached_encoding(a.attached_symbol, a.attached_amount));
        assert(out@ =~= old(out)@ + action_encoding(a));
        lemma_length_fits(action.args.len());
        assert forall|i: int| 0 <= i < a.args.len() implies binary_fits(#[trigger] a.args[i]) by {
            lemma_length_fits(action.args@[i].len());
        }
    }
}

/// Appends the canonical encoding of `tx` to `out`.
pub fn write_tx(out: &mut Vec<u8>, tx: &Tx)
    ensures
        final(out)@ == old(out)@ + tx_encoding(tx@),
        tx_fits(tx@),
{
    write_record_header(out, 3);
    write_text(out, "action");
    write_action(out, &tx.action);
    let ghost x1 = out@;
    write_text(out, "nonce");
    write_int(out, tx.nonce);
    let ghost x2 = out@;
    write_binary_pair(out, "signer", tx.signer.as_slice());
    proof {
        let t = tx@;
        assert(x1 =~= old(out)@ + (record_header(3) + (text_term("action"@) + action_encoding(
            t.action,
        ))));
        assert(x2 =~= old(out)@ + (record_header(3) + (text_term("action"@) + action_encoding(
            t.action,
        )) + (text_term("nonce"@) + int_term(t.nonce))));
        assert(out@ =~= old(out)@ + tx_encoding(t));
    }
}

/// The canonical encoding of `tx`. Decoding it gives `tx` back.
pub fn encode_tx(tx: &Tx) -> (bytes: Vec<u8>)
    ensures
        bytes@ == tx_encoding(tx@),
        tx_fits(tx@),
        tx_decoding(bytes@) == Some(tx@),
{
    let mut out: Vec<u8> = Vec::new();
    write_tx(&mut out, tx);
    proof {
        assert(out@ =~= tx_encoding(tx@));
        assert(tx_encoding(tx@) + Seq::<u8>::empty() =~= tx_encoding(tx@));
        lemma_parse_tx_of_encoding(tx@, Seq::empty());
    }
    out
}

/// The canonical encoding of `unit`. Decoding it gives `unit` back.
pub fn encode_txu(unit: &TxU) -> (bytes: Vec<u8>)
    ensures
        bytes@ == txu_encoding(unit@),
        txu_fits(unit@),
        txu_decoding(bytes@) == Some(unit@),
{
    let mut out: Vec<u8> = Vec::new();
    write_record_header(&mut out, 3);
    write_binary_pair(&mut out, "hash", unit.hash.as_slice());
    let ghost x1 = out@;
    write_binary_pair(&mut out, "signature", unit.signature.as_slice());
    let ghost x2 = out@;
    write_text(&mut out, "tx");
    write_tx(&mut out, &unit.tx);
    proof {
        let u = unit@;
        assert(x1 =~= record_header(3) + (text_term("hash"@) + binary_term(u.hash)));
        assert(x2 =~= record_header(3) + (text_term("hash"@) + binary_term(u.hash)) + (
        text_term("signature"@) + binary_term(u.signature)));
        assert(out@ =~= txu_encoding(u));
        assert(txu_encoding(u) + Seq::<u8>::empty() =~= txu_encoding(u));
        lemma_parse_txu_of_encoding(u, Seq::empty());
    }
    out
}

/// Reads the field name `name` at `pos`: the position after it, or `None`
/// where another name or no name stands there.
fn read_name(buf: &[u8], pos: usize, name: &str) -> (r: Option<usize>)
    requires
        pos <= buf.len(),
    ensures
        match r {
            Some(next) => {
                &&& pos < next <= buf.len()
                &&& parse_name(buf@.skip(pos as int), name@) == Some(buf@.skip(next as int))
            },
            None => parse_name(buf@.skip(pos as int), name@) is None,
        },
{
    reveal(parse_name);
    match read_binary(buf, pos) {
        Some((bytes, next)) => if same_bytes(bytes.as_slice(), name.as_bytes()) {
            Some(next)
        } else {
            None
        },
        None => None,
    }
}

/// Reads the pair of a text field named `name` at `pos`.
fn read_text_pair(buf: &[u8], pos: usize, name: &str) -> (r: Option<(String, usize)>)
    requires
        pos <= buf.len(),
    ensures
        match r {
            Some((value, next)) => {
                &&& pos < next <= buf.len()
                &&& parse_text_pair(buf@.skip(pos as int), name@) == Some(
                    (value@, buf@.skip(next as int)),
                )
            },
            None => parse_text_pair(buf@.skip(pos as int), name@) is None,
        },
{
    match read_name(buf, pos, name) {
        Some(after) => read_text(buf, after),
        None => None,
    }
}

/// Reads the pair of a byte-string field named `name` at `pos`.
fn read_binary_pair(buf: &[u8], pos: usize, name: &str) -> (r: Option<(Vec<u8>, usize)>)
    requires
        pos <= buf.len(),
    ensures
        match r {
            Some((value, next)) => {
                &&& pos < next <= buf.len()
                &&& parse_binary_pair(buf@.skip(pos as int), name@) == Some(
                    (value@, buf@.skip(next as int)),
                )
            },
            None => parse_binary_pair(buf@.skip(pos as int), name@) is None,
        },
{
    match read_name(buf, pos, name) {
        Some(after) => read_binary(buf, after),
        None => None,
    }
}

/// Reads the attached asset of an action whose record announces `count`
/// fields.
fn read_attached(buf: &[u8], pos: usize, count: u8) -> (r: Option<
    (Option<Vec<u8>>, Option<Vec<u8>>, usize),
>)
    requires
        pos <= buf.len(),
    ensures
        match r {
            Some((symbol, amount, next)) => {
                &&& pos <= next <= buf.len()
                &&& parse_attached(buf@.skip(pos as int), count as nat) == Some(
                    (optional_bytes(symbol), optional_bytes(amount), buf@.skip(next as int)),
                )
            },
            None => parse_attached(buf@.skip(pos as int), count as nat) is None,
        },
{
    if count == 4 {
        Some((None, None, pos))
    } else if count == 5 {
        match read_binary_pair(buf, pos, "attached_symbol") {
            Some((symbol, next)) => Some((Some(symbol), None, next)),
            None => match read_binary_pair(buf, pos, "attached_amount") {
                Some((amount, next)) => Some((None, Some(amount), next)),
                None => None,
            },
        }
    } else if count == 6 {
        match read_binary_pair(buf, pos, "attached_symbol") {
            Some((symbol, after)) => match read_binary_pair(buf, after, "attached_amount") {
                Some((amount, next)) => Some((Some(symbol), Some(amount), next)),
                None => None,
            },
            None => None,
        }
    } else {
        None
    }
}

/// Reads the encoded action that starts at `pos`: the action and the
/// position after it, or `None` where no encoded action starts there.
pub fn read_action(buf: &[u8], pos: usize) -> (r: Option<(TxAction, usize)>)
    ensures
        pos > buf.len() ==> r is None,
        pos <= buf.len() ==> (match r {
                Some((action, next)) => {
                    &&& pos < next <= buf.len()
                    &&& parse_action(buf@.skip(pos as int)) == Some(
                        (action@, buf@.skip(next as int)),
                    )
                },
                None => parse_action(buf@.skip(pos as int)) is None,
            }),
{
    let (count, at0) = match read_record_header(buf, pos) {
        Some(found) => found,
        None => {
            proof {
                if pos <= buf.len() {
                    lemma_no_action_with_many_fields(buf@.skip(pos as int));
                }
            }
            return None;
        },
    };
    let at1 = match read_name(buf, at0, "args") {
        Some(found) => found,
        None => {
            return None;
        },
    };
    let (args, at2) = match read_list(buf, at1) {
        Some(found) => found,
        None => {
            return None;
        },
    };
    let (contract, at3) = match read_text_pair(buf, at2, "contract") {
        Some(found) => found,
        None => {
            return None;
        },
    };
    let (function, at4) = match read_text_pair(buf, at3, "function") {
        Some(found) => found,
        None => {
            return None;
        },
    };
    let (op, at5) = match read_text_pair(buf, at4, "op") {
        Some(found) => found,
        None => {
            return None;
        },
    };
    let (attached_symbol, attached_amount, next) = match read_attached(buf, at5, count) {
        Some(found) => found,
        None => {
            return None;
        },
    };
    Some((TxAction { args, contract, function, op, attached_symbol, attached_amount }, next))
}

/// A record that announces more than 255 fields holds no action.
proof fn lemma_no_action_with_many_fields(s: Seq<u8>)
    requires
        match parse_record_header(s) {
            Some((count, _)) => count > 255,
            None => true,
        },
    ensures
        parse_action(s) is None,
{
}

/// Reads the encoded transaction that starts at `pos`: the transaction and
/// the position after it, or `None` where no encoded transaction starts
/// there.
pub fn read_tx(buf: &[u8], pos: usize) -> (r: Option<(Tx, usize)>)
    ensures
        pos > buf.len() ==> r is None,
        pos <= buf.len() ==> (match r {
                Some((tx, next)) => {
                    &&& pos < next <= buf.len()
                    &&& parse_tx(buf@.skip(pos as int)) == Some((tx@, buf@.skip(next as int)))
                },
                None => parse_tx(buf@.skip(pos as int)) is None,
            }),
{
    let (count, at0) = match read_record_header(buf, pos) {
        Some(found) => found,
        None => {
            return None;
        },
    };
    let at1 = match read_name(buf, at0, "action") {
        Some(found) => found,
        None => {
            return None;
        },
    };
    let (action, at2) = match read_action(buf, at1) {
        Some(found) => found,
        None => {
            return None;
        },
    };
    let at3 = match read_name(buf, at2, "nonce") {
        Some(found) => found,
        None => {
            return None;
        },
    };
    let (nonce, at4) = match read_int(buf, at3) {
        Some(found) => found,
        None => {
            return None;
        },
    };
    let (signer, next) = match read_binary_pair(buf, at4, "signer") {
        Some(found) => found,
        None => {
            return None;
        },
    };
    if count != 3 {
        return None;
    }
    Some((Tx { action, nonce, signer }, next))
}

/// Decodes a transaction. Succeeds exactly on the canonical encoding of a
/// transaction, and then gives that transaction.
pub fn decode_tx(bytes: &[u8]) -> (r: Result<Tx, TxError>)
    ensures
        match r {
            Ok(tx) => tx_decoding(bytes@) == Some(tx@) && bytes@ == tx_encoding(tx@),
            Err(e) => e == TxError::Encoding && tx_decoding(bytes@) is None,
        },
{
    proof {
        assert(bytes@.skip(0) =~= bytes@);
    }
    match read_tx(bytes, 0) {
        Some((tx, next)) => {
            if next == bytes.len() {
                proof {
                    lemma_encoding_of_parse_tx(bytes@);
                    assert(tx_encoding(tx@) + Seq::<u8>::empty() =~= tx_encoding(tx@));
                }
                Ok(tx)
            } else {
                Err(TxError::Encoding)
            }
        },
        None => Err(TxError::Encoding),
    }
}

/// Decodes a signed transaction. Succeeds exactly on the canonical encoding
/// of a signed transaction, and then gives that signed transaction.
pub fn decode_txu(bytes: &[u8]) -> (r: Result<TxU, TxError>)
    ensures
        match r {
            Ok(unit) => txu_decoding(bytes@) == Some(unit@) && bytes@ == txu_encoding(unit@),
            Err(e) => e == TxError::Encoding && txu_decoding(bytes@) is None,
        },
{
    proof {
        assert(bytes@.skip(0) =~= bytes@);
    }
    let (count, at0) = match read_record_header(bytes, 0) {
        Some(found) => found,
        None => {
            return Err(TxError::Encoding);
        },
    };
    let (hash, at1) = match read_binary_pair(bytes, at0, "hash") {
        Some(found) => found,
        None => {
            return Err(TxError::Encoding);
        },
    };
    let (signature, at2) = match read_binary_pair(bytes, at1, "signature") {
        Some(found) => found,
        None => {
            return Err(TxError::Encoding);
        },
    };
    let at3 = match read_name(bytes, at2, "tx") {
        Some(found) => found,
        None => {
            return Err(TxError::Encoding);
        },
    };
    let (tx, next) = match read_tx(bytes, at3) {
        Some(found) => found,
        None => {
            return Err(TxError::Encoding);
        },
    };
    if count != 3 || next != bytes.len() {
        return Err(TxError::Encoding);
    }
    let unit = TxU { hash, signature, tx };
    proof {
        lemma_encoding_of_parse_txu(bytes@);
        assert(txu_encoding(unit@) + Seq::<u8>::empty() =~= txu_encoding(unit@));
    }
    Ok(unit)
}

} // verus!
