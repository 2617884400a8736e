//! What holds of the canonical encoding: reading gives back what was
//! written, whatever reads was written that way, and no two records share an
//! encoding.

use vstd::prelude::*;
use vstd::utf8::{encode_utf8, encode_utf8_decode_utf8};
use crate::codec::{
    action_encoding, action_field_count, action_fits, attached_encoding, parse_action,
    parse_attached, parse_binary_pair, parse_name, parse_text_pair, parse_tx, parse_txu,
    tx_decoding, tx_encoding, tx_fits, txu_decoding, txu_encoding, txu_fits,
};
use crate::names::{lemma_field_names_fit, lemma_optional_names_distinct};
use crate::text::{
    lemma_parse_text_of_term, lemma_term_of_parse_text, text_fits, text_term,
};
use crate::tx::{ActionView, Tx, TxU, TxUView, TxView};
use crate::varint::lemma_i128_fits;
use crate::wire::{
    binary_fits, binary_term, int_term, lemma_length_fits, lemma_parse_binary_of_term,
    lemma_parse_int_of_term, lemma_parse_list_of_term, lemma_parse_record_header_of,
    lemma_record_header_of_parse, lemma_term_of_parse_binary, lemma_term_of_parse_int,
    lemma_term_of_parse_list, list_term, parse_int, parse_list,
    parse_record_header, record_header,
};

verus! {

/// Reading a written name gives what follows it.
pub proof fn lemma_parse_name_of_term(name: Seq<char>, rest: Seq<u8>)
    requires
        text_fits(name),
    ensures
        parse_name(text_term(name) + rest, name) == Some(rest),
{
    reveal(parse_name);
    reveal(text_term);
    lemma_parse_binary_of_term(encode_utf8(name), rest);
}

/// Where one name stands, no other name is read.
pub proof fn lemma_parse_other_name(written: Seq<char>, asked: Seq<char>, rest: Seq<u8>)
    requires
        text_fits(written),
        written != asked,
    ensures
        parse_name(text_term(written) + rest, asked) is None,
{
    reveal(parse_name);
    reveal(text_term);
    lemma_parse_binary_of_term(encode_utf8(written), rest);
    encode_utf8_decode_utf8(written);
    encode_utf8_decode_utf8(asked);
}

/// Whatever reads as a name starts with the term of that name.
pub proof fn lemma_name_of_parse(s: Seq<u8>, name: Seq<char>)
    requires
        parse_name(s, name) is Some,
    ensures
        s == text_term(name) + parse_name(s, name)->Some_0,
{
    reveal(parse_name);
    reveal(text_term);
    lemma_term_of_parse_binary(s);
}

/// The pair of a text field is read as written.
pub proof fn lemma_parse_text_pair_of(name: Seq<char>, value: Seq<char>, rest: Seq<u8>)
    requires
        text_fits(name),
        text_fits(value),
    ensures
        parse_text_pair((text_term(name) + text_term(value)) + rest, name) == Some((value, rest)),
{
    let after = text_term(value) + rest;
    assert((text_term(name) + text_term(value)) + rest =~= text_term(name) + after);
    lemma_parse_name_of_term(name, after);
    lemma_parse_text_of_term(value, rest);
}

/// Whatever reads as the pair of a text field was written as one.
pub proof fn lemma_text_pair_of_parse(s: Seq<u8>, name: Seq<char>)
    requires
        parse_text_pair(s, name) is Some,
    ensures
        ({
            let (value, rest) = parse_text_pair(s, name)->Some_0;
            &&& text_fits(value)
            &&& s == (text_term(name) + text_term(value)) + rest
        }),
{
    let (value, rest) = parse_text_pair(s, name)->Some_0;
    lemma_name_of_parse(s, name);
    let after = parse_name(s, name)->Some_0;
    lemma_term_of_parse_text(after);
    assert(s =~= (text_term(name) + text_term(value)) + rest);
}

/// The pair of a byte-string field is read as written.
pub proof fn lemma_parse_binary_pair_of(name: Seq<char>, value: Seq<u8>, rest: Seq<u8>)
    requires
        text_fits(name),
        binary_fits(value),
    ensures
        parse_binary_pair((text_term(name) + binary_term(value)) + rest, name) == Some(
            (value, rest),
        ),
{
    let after = binary_term(value) + rest;
    assert((text_term(name) + binary_term(value)) + rest =~= text_term(name) + after);
    lemma_parse_name_of_term(name, after);
    lemma_parse_binary_of_term(value, rest);
}

/// Whatever reads as the pair of a byte-string field was written as one.
pub proof fn lemma_binary_pair_of_parse(s: Seq<u8>, name: Seq<char>)
    requires
        parse_binary_pair(s, name) is Some,
    ensures
        ({
            let (value, rest) = parse_binary_pair(s, name)->Some_0;
            &&& binary_fits(value)
            &&& s == (text_term(name) + binary_term(value)) + rest
        }),
{
    let (value, rest) = parse_binary_pair(s, name)->Some_0;
    lemma_name_of_parse(s, name);
    let after = parse_name(s, name)->Some_0;
    lemma_term_of_parse_binary(after);
    assert(s =~= (text_term(name) + binary_term(value)) + rest);
}

/// The attached asset is read as written, whatever follows it.
pub proof fn lemma_parse_attached_of(
    symbol: Option<Seq<u8>>,
    amount: Option<Seq<u8>>,
    rest: Seq<u8>,
)
    requires
        symbol matches Some(bytes) ==> binary_fits(bytes),
        amount matches Some(bytes) ==> binary_fits(bytes),
    ensures
        ({
            let count: nat = 4 + (if symbol is Some { 1nat } else { 0nat }) + (if amount is Some {
                1nat
            } else {
                0nat
            });
            parse_attached(attached_encoding(symbol, amount) + rest, count) == Some(
                (symbol, amount, rest),
            )
        }),
{
    lemma_field_names_fit();
    lemma_optional_names_distinct();
    let s = attached_encoding(symbol, amount) + rest;
    match (symbol, amount) {
        (Some(sym), Some(amt)) => {
            let after = (text_term("attached_amount"@) + binary_term(amt)) + rest;
            assert(s =~= (text_term("attached_symbol"@) + binary_term(sym)) + after);
            lemma_parse_binary_pair_of("attached_symbol"@, sym, after);
            lemma_parse_binary_pair_of("attached_amount"@, amt, rest);
        },
        (Some(sym), None) => {
            assert(s =~= (text_term("attached_symbol"@) + binary_term(sym)) + rest);
            lemma_parse_binary_pair_of("attached_symbol"@, sym, rest);
        },
        (None, Some(amt)) => {
            assert(s =~= (text_term("attached_amount"@) + binary_term(amt)) + rest);
            assert(s =~= text_term("attached_amount"@) + (binary_term(amt) + rest));
            lemma_parse_other_name("attached_amount"@, "attached_symbol"@, binary_term(amt) + rest);
            lemma_parse_binary_pair_of("attached_amount"@, amt, rest);
        },
        (None, None) => {
            assert(s =~= rest);
        },
    }
}

/// Whatever reads as an attached asset was written as one, and the count
/// fits what is there.
pub proof fn lemma_attached_of_parse(s: Seq<u8>, count: nat)
    requires
        parse_attached(s, count) is Some,
    ensures
        ({
            let (symbol, amount, rest) = parse_attached(s, count)->Some_0;
            &&& symbol matches Some(bytes) ==> binary_fits(bytes)
            &&& amount matches Some(bytes) ==> binary_fits(bytes)
            &&& count == 4 + (if symbol is Some { 1nat } else { 0nat }) + (if amount is Some {
                1nat
            } else {
                0nat
            })
            &&& s == attached_encoding(symbol, amount) + rest
        }),
{
    let (symbol, amount, rest) = parse_attached(s, count)->Some_0;
    if count == 4 {
        assert(s =~= attached_encoding(symbol, amount) + rest);
    } else if count == 5 {
        if parse_binary_pair(s, "attached_symbol"@) is Some {
            lemma_binary_pair_of_parse(s, "attached_symbol"@);
        } else {
            lemma_binary_pair_of_parse(s, "attached_amount"@);
        }
        assert(s =~= attached_encoding(symbol, amount) + rest);
    } else {
        lemma_binary_pair_of_parse(s, "attached_symbol"@);
        let after = parse_binary_pair(s, "attached_symbol"@)->Some_0.1;
        lemma_binary_pair_of_parse(after, "attached_amount"@);
        assert(s =~= attached_encoding(symbol, amount) + rest);
    }
}

/// Reading an encoded action gives the action back, and leaves what followed.
pub proof fn lemma_parse_action_of_encoding(a: ActionView, rest: Seq<u8>)
    requires
        action_fits(a),
    ensures
        parse_action(action_encoding(a) + rest) == Some((a, rest)),
{
    lemma_field_names_fit();
    let count = action_field_count(a);
    let s5 = attached_encoding(a.attached_symbol, a.attached_amount) + rest;
    let s4 = (text_term("op"@) + text_term(a.op)) + s5;
    let s3 = (text_term("function"@) + text_term(a.function)) + s4;
    let s2 = (text_term("contract"@) + text_term(a.contract)) + s3;
    let s1 = list_term(a.args) + s2;
    let s0 = text_term("args"@) + s1;
    let s = record_header(count) + s0;
    lemma_action_layout(a, rest);
    assert(parse_record_header(s) == Some((count, s0))) by {
        lemma_length_fits(count as usize);
        lemma_parse_record_header_of(count, s0);
    }
    assert(parse_name(s0, "args"@) == Some(s1)) by {
        lemma_parse_name_of_term("args"@, s1);
    }
    assert(parse_list(s1) == Some((a.args, s2))) by {
        lemma_parse_list_of_term(a.args, s2);
    }
    assert(parse_text_pair(s2, "contract"@) == Some((a.contract, s3))) by {
        lemma_parse_text_pair_of("contract"@, a.contract, s3);
    }
    assert(parse_text_pair(s3, "function"@) == Some((a.function, s4))) by {
        lemma_parse_text_pair_of("function"@, a.function, s4);
    }
    assert(parse_text_pair(s4, "op"@) == Some((a.op, s5))) by {
        lemma_parse_text_pair_of("op"@, a.op, s5);
    }
    assert(parse_attached(s5, count) == Some((a.attached_symbol, a.attached_amount, rest))) by {
        lemma_parse_attached_of(a.attached_symbol, a.attached_amount, rest);
    }
    assert(parse_action(s) == Some((a, rest)));
}

/// The encoding of an action, read from the left: each part is followed by
/// all the later ones.
proof fn lemma_action_layout(a: ActionView, rest: Seq<u8>)
    ensures
        action_encoding(a) + rest == record_header(action_field_count(a)) + (text_term("args"@)
            + (list_term(a.args) + ((text_term("contract"@) + text_term(a.contract)) + ((
        text_term("function"@) + text_term(a.function)) + ((text_term("op"@) + text_term(a.op))
            + (attached_encoding(a.attached_symbol, a.attached_amount) + rest)))))),
{
    let header = record_header(action_field_count(a));
    let args = text_term("args"@) + list_term(a.args);
    let contract = text_term("contract"@) + text_term(a.contract);
    let function = text_term("function"@) + text_term(a.function);
    let op = text_term("op"@) + text_term(a.op);
    let attached = attached_encoding(a.attached_symbol, a.attached_amount);
    let s5 = attached + rest;
    let s4 = op + s5;
    let s3 = function + s4;
    let s2 = contract + s3;
    let s1 = list_term(a.args) + s2;
    let s0 = text_term("args"@) + s1;
    let x1 = header + args;
    let x2 = x1 + contract;
    let x3 = x2 + function;
    let x4 = x3 + op;
    assert((x4 + attached) + rest =~= x4 + s5);
    assert(x4 + s5 =~= x3 + s4);
    assert(x3 + s4 =~= x2 + s3);
    assert(x2 + s3 =~= x1 + s2);
    assert(x1 + s2 =~= header + s0);
}

/// Whatever reads as an action is the encoding of that action, followed by
/// the bytes that the reader left.
pub proof fn lemma_encoding_of_parse_action(s: Seq<u8>)
    requires
        parse_action(s) is Some,
    ensures
        ({
            let (a, rest) = parse_action(s)->Some_0;
            &&& action_fits(a)
            &&& s == action_encoding(a) + rest
        }),
{
    let (a, rest) = parse_action(s)->Some_0;
    let (count, s0) = parse_record_header(s)->Some_0;
    let s1 = parse_name(s0, "args"@)->Some_0;
    let (args, s2) = parse_list(s1)->Some_0;
    let (contract, s3) = parse_text_pair(s2, "contract"@)->Some_0;
    let (function, s4) = parse_text_pair(s3, "function"@)->Some_0;
    let (op, s5) = parse_text_pair(s4, "op"@)->Some_0;
    let (attached_symbol, attached_amount, s6) = parse_attached(s5, count)->Some_0;
    assert(a == (ActionView { args, contract, function, op, attached_symbol, attached_amount }));
    assert(s6 == rest);
    assert(s == record_header(count) + s0) by {
        lemma_record_header_of_parse(s);
    }
    assert(s0 == text_term("args"@) + s1) by {
        lemma_name_of_parse(s0, "args"@);
    }
    assert(s1 == list_term(args) + s2 && crate::wire::list_fits(args)) by {
        lemma_term_of_parse_list(s1);
    }
    assert(s2 == (text_term("contract"@) + text_term(contract)) + s3 && text_fits(contract)) by {
        lemma_text_pair_of_parse(s2, "contract"@);
    }
    assert(s3 == (text_term("function"@) + text_term(function)) + s4 && text_fits(function)) by {
        lemma_text_pair_of_parse(s3, "function"@);
    }
    assert(s4 == (text_term("op"@) + text_term(op)) + s5 && text_fits(op)) by {
        lemma_text_pair_of_parse(s4, "op"@);
    }
    assert(s5 == attached_encoding(attached_symbol, attached_amount) + rest && count
        == action_field_count(a) && (attached_symbol matches Some(bytes) ==> binary_fits(bytes))
        && (attached_amount matches Some(bytes) ==> binary_fits(bytes))) by {
        lemma_attached_of_parse(s5, count);
    }
    lemma_action_layout(a, rest);
}

/// Reading an encoded transaction gives the transaction back, and leaves
/// what followed.
pub proof fn lemma_parse_tx_of_encoding(t: TxView, rest: Seq<u8>)
    requires
        tx_fits(t),
    ensures
        parse_tx(tx_encoding(t) + rest) == Some((t, rest)),
{
    lemma_field_names_fit();
    let header = record_header(3);
    let signer = text_term("signer"@) + binary_term(t.signer);
    let s4 = signer + rest;
    let s3 = int_term(t.nonce) + s4;
    let s2 = text_term("nonce"@) + s3;
    let s1 = action_encoding(t.action) + s2;
    let s0 = text_term("action"@) + s1;
    let s = header + s0;
    assert(tx_encoding(t) + rest =~= s) by {
        let x1 = header + (text_term("action"@) + action_encoding(t.action));
        let x2 = x1 + (text_term("nonce"@) + int_term(t.nonce));
        assert((x2 + signer) + rest =~= x2 + s4);
        assert(x2 + s4 =~= x1 + s2);
        assert(x1 + s2 =~= s);
    }
    lemma_length_fits(3);
    lemma_parse_record_header_of(3, s0);
    lemma_parse_name_of_term("action"@, s1);
    lemma_parse_action_of_encoding(t.action, s2);
    lemma_parse_name_of_term("nonce"@, s3);
    lemma_i128_fits(t.nonce as i128);
    lemma_parse_int_of_term(t.nonce, s4);
    lemma_parse_binary_pair_of("signer"@, t.signer, rest);
}

/// Whatever reads as a transaction is the encoding of that transaction,
/// followed by the bytes that the reader left.
pub proof fn lemma_encoding_of_parse_tx(s: Seq<u8>)
    requires
        parse_tx(s) is Some,
    ensures
        ({
            let (t, rest) = parse_tx(s)->Some_0;
            &&& tx_fits(t)
            &&& s == tx_encoding(t) + rest
        }),
{
    let (t, rest) = parse_tx(s)->Some_0;
    let (count, s0) = parse_record_header(s)->Some_0;
    lemma_record_header_of_parse(s);
    let s1 = parse_name(s0, "action"@)->Some_0;
    lemma_name_of_parse(s0, "action"@);
    let (action, s2) = parse_action(s1)->Some_0;
    lemma_encoding_of_parse_action(s1);
    let s3 = parse_name(s2, "nonce"@)->Some_0;
    lemma_name_of_parse(s2, "nonce"@);
    let (nonce, s4) = parse_int(s3)->Some_0;
    lemma_term_of_parse_int(s3);
    lemma_binary_pair_of_parse(s4, "signer"@);
    let x0 = record_header(3);
    let x1 = x0 + (text_term("action"@) + action_encoding(t.action));
    let x2 = x1 + (text_term("nonce"@) + int_term(t.nonce));
    let x3 = x2 + (text_term("signer"@) + binary_term(t.signer));
    assert(s == x0 + s0);
    assert(s =~= x1 + s2);
    assert(s =~= x2 + s4);
    assert(s =~= x3 + rest);
}

/// Reading an encoded signed transaction gives it back, and leaves what
/// followed.
pub proof fn lemma_parse_txu_of_encoding(u: TxUView, rest: Seq<u8>)
    requires
        txu_fits(u),
    ensures
        parse_txu(txu_encoding(u) + rest) == Some((u, rest)),
{
    lemma_field_names_fit();
    let header = record_header(3);
    let hash = text_term("hash"@) + binary_term(u.hash);
    let signature = text_term("signature"@) + binary_term(u.signature);
    let s3 = tx_encoding(u.tx) + rest;
    let s2 = text_term("tx"@) + s3;
    let s1 = signature + s2;
    let s0 = hash + s1;
    let s = header + s0;
    assert(txu_encoding(u) + rest =~= s) by {
        let x1 = header + hash;
        let x2 = x1 + signature;
        assert((x2 + (text_term("tx"@) + tx_encoding(u.tx))) + rest =~= x2 + s2);
        assert(x2 + s2 =~= x1 + s1);
        assert(x1 + s1 =~= s);
    }
    lemma_length_fits(3);
    lemma_parse_record_header_of(3, s0);
    lemma_parse_binary_pair_of("hash"@, u.hash, s1);
    lemma_parse_binary_pair_of("signature"@, u.signature, s2);
    lemma_parse_name_of_term("tx"@, s3);
    lemma_parse_tx_of_encoding(u.tx, rest);
}

/// Whatever reads as a signed transaction is the encoding of it, followed by
/// the bytes that the reader left.
pub proof fn lemma_encoding_of_parse_txu(s: Seq<u8>)
    requires
        parse_txu(s) is Some,
    ensures
        ({
            let (u, rest) = parse_txu(s)->Some_0;
            &&& txu_fits(u)
            &&& s == txu_encoding(u) + rest
        }),
{
    let (u, rest) = parse_txu(s)->Some_0;
    let (count, s0) = parse_record_header(s)->Some_0;
    lemma_record_header_of_parse(s);
    let (hash, s1) = parse_binary_pair(s0, "hash"@)->Some_0;
    lemma_binary_pair_of_parse(s0, "hash"@);
    let (signature, s2) = parse_binary_pair(s1, "signature"@)->Some_0;
    lemma_binary_pair_of_parse(s1, "signature"@);
    let s3 = parse_name(s2, "tx"@)->Some_0;
    lemma_name_of_parse(s2, "tx"@);
    lemma_encoding_of_parse_tx(s3);
    let x0 = record_header(3);
    let x1 = x0 + (text_term("hash"@) + binary_term(u.hash));
    let x2 = x1 + (text_term("signature"@) + binary_term(u.signature));
    let x3 = x2 + (text_term("tx"@) + tx_encoding(u.tx));
    assert(s == x0 + s0);
    assert(s =~= x1 + s1);
    assert(s =~= x2 + s2);
    assert(s =~= x3 + rest);
}

/// Determinism: the encoding is a function of what a transaction holds.
/// Two transactions that hold the same values have the same encoding, byte
/// for byte.
pub proof fn lemma_encoding_deterministic(a: Tx, b: Tx)
    requires
        a@ == b@,
    ensures
        tx_encoding(a@) == tx_encoding(b@),
{
}

/// Determinism for signed transactions.
pub proof fn lemma_unit_encoding_deterministic(a: TxU, b: TxU)
    requires
        a@ == b@,
    ensures
        txu_encoding(a@) == txu_encoding(b@),
{
}

/// Round trip: decoding the encoding of a transaction gives the transaction.
pub proof fn lemma_tx_round_trip(t: TxView)
    requires
        tx_fits(t),
    ensures
        tx_decoding(tx_encoding(t)) == Some(t),
{
    lemma_parse_tx_of_encoding(t, Seq::empty());
    assert(tx_encoding(t) + Seq::<u8>::empty() =~= tx_encoding(t));
}

/// Round trip: decoding the encoding of a signed transaction gives the
/// signed transaction.
pub proof fn lemma_txu_round_trip(u: TxUView)
    requires
        txu_fits(u),
    ensures
        txu_decoding(txu_encoding(u)) == Some(u),
{
    lemma_parse_txu_of_encoding(u, Seq::empty());
    assert(txu_encoding(u) + Seq::<u8>::empty() =~= txu_encoding(u));
}

/// Canonical form: bytes that decode to a transaction are the encoding of
/// that transaction, so every transaction has one encoding and no more.
pub proof fn lemma_tx_decoding_canonical(bytes: Seq<u8>)
    requires
        tx_decoding(bytes) is Some,
    ensures
        tx_fits(tx_decoding(bytes)->Some_0),
        tx_encoding(tx_decoding(bytes)->Some_0) == bytes,
{
    lemma_encoding_of_parse_tx(bytes);
    let t = tx_decoding(bytes)->Some_0;
    assert(tx_encoding(t) + Seq::<u8>::empty() =~= tx_encoding(t));
}

/// Canonical form for signed transactions.
pub proof fn lemma_txu_decoding_canonical(bytes: Seq<u8>)
    requires
        txu_decoding(bytes) is Some,
    ensures
        txu_fits(txu_decoding(bytes)->Some_0),
        txu_encoding(txu_decoding(bytes)->Some_0) == bytes,
{
    lemma_encoding_of_parse_txu(bytes);
    let u = txu_decoding(bytes)->Some_0;
    assert(txu_encoding(u) + Seq::<u8>::empty() =~= txu_encoding(u));
}

/// Injectivity: two transactions with the same encoding are the same
/// transaction. A change in any field changes the bytes that are hashed and
/// signed.
pub proof fn lemma_tx_encoding_injective(a: TxView, b: TxView)
    requires
        tx_fits(a),
        tx_fits(b),
        tx_encoding(a) == tx_encoding(b),
    ensures
        a == b,
{
    lemma_tx_round_trip(a);
    lemma_tx_round_trip(b);
}

/// Injectivity for signed transactions.
pub proof fn lemma_txu_encoding_injective(a: TxUView, b: TxUView)
    requires
        txu_fits(a),
        txu_fits(b),
        txu_encoding(a) == txu_encoding(b),
    ensures
        a == b,
{
    lemma_txu_round_trip(a);
    lemma_txu_round_trip(b);
}

/// No encoding of a transaction is the start of the encoding of another:
/// `a` is read off the front of its encoding whatever follows.
pub proof fn lemma_tx_encoding_prefix_free(a: TxView, b: TxView, after_a: Seq<u8>, after_b: Seq<u8>)
    requires
        tx_fits(a),
        tx_fits(b),
        tx_encoding(a) + after_a == tx_encoding(b) + after_b,
    ensures
        a == b,
        after_a == after_b,
{
    lemma_parse_tx_of_encoding(a, after_a);
    lemma_parse_tx_of_encoding(b, after_b);
}

} // verus!
