//! The field names of the transaction records, as they stand on the wire.

use vstd::prelude::*;
use vstd::utf8::{encode_utf8, is_ascii_chars, is_ascii_chars_encode_utf8};
use crate::text::text_fits;
use crate::wire::lemma_length_fits;

verus! {

/// A short ASCII name can be written as a text term.
pub proof fn lemma_short_name_fits(name: Seq<char>)
    requires
        is_ascii_chars(name),
        name.len() <= 255,
    ensures
        text_fits(name),
        encode_utf8(name).len() == name.len(),
{
    is_ascii_chars_encode_utf8(name);
    lemma_length_fits(name.len() as usize);
}

/// Every field name can be written as a text term.
pub proof fn lemma_field_names_fit()
    ensures
        text_fits("args"@),
        text_fits("attached_amount"@),
        text_fits("attached_symbol"@),
        text_fits("contract"@),
        text_fits("function"@),
        text_fits("op"@),
        text_fits("action"@),
        text_fits("nonce"@),
        text_fits("signer"@),
        text_fits("hash"@),
        text_fits("signature"@),
        text_fits("tx"@),
{
    reveal_strlit("args");
    reveal_strlit("attached_amount");
    reveal_strlit("attached_symbol");
    reveal_strlit("contract");
    reveal_strlit("function");
    reveal_strlit("op");
    reveal_strlit("action");
    reveal_strlit("nonce");
    reveal_strlit("signer");
    reveal_strlit("hash");
    reveal_strlit("signature");
    reveal_strlit("tx");
    lemma_short_name_fits("args"@);
    lemma_short_name_fits("attached_amount"@);
    lemma_short_name_fits("attached_symbol"@);
    lemma_short_name_fits("contract"@);
    lemma_short_name_fits("function"@);
    lemma_short_name_fits("op"@);
    lemma_short_name_fits("action"@);
    lemma_short_name_fits("nonce"@);
    lemma_short_name_fits("signer"@);
    lemma_short_name_fits("hash"@);
    lemma_short_name_fits("signature"@);
    lemma_short_name_fits("tx"@);
}

/// The two optional fields have different names.
pub proof fn lemma_optional_names_distinct()
    ensures
        "attached_amount"@ != "attached_symbol"@,
{
    reveal_strlit("attached_amount");
    reveal_strlit("attached_symbol");
    assert("attached_amount"@[9] != "attached_symbol"@[9]);
}

} // verus!
