//! Base58, the form in which keys, addresses and packed transactions are
//! handed around by people and in URLs.

use vstd::prelude::*;

verus! {

/// The reason for which the crate bs58 refuses a text.
#[verifier::external_type_specification]
#[verifier::external_body]
pub struct ExBase58Error(bs58::decode::Error);

/// The bytes that `text` stands for in base58 with the Bitcoin alphabet, or
/// `None` where `text` is no base58.
pub uninterp spec fn base58_decoding(text: Seq<char>) -> Option<Seq<u8>>;

/// The base58 text of `bytes`, with the Bitcoin alphabet.
pub uninterp spec fn base58_encoding(bytes: Seq<u8>) -> Seq<char>;

/// `bs58::decode` with `into_vec`: the bytes that the text stands for in the
/// default alphabet, or the reason for which it stands for none. Both depend
/// on the characters of the text alone.
#[verifier::external_body]
pub(crate) fn decode_text(text: &str) -> (r: Result<Vec<u8>, bs58::decode::Error>)
    ensures
        match r {
            Ok(bytes) => base58_decoding(text@) == Some(bytes@),
            Err(_) => base58_decoding(text@) is None,
        },
{
    bs58::decode(text).into_vec()
}

/// `bs58::encode` with `into_string`: the text of the bytes in the default
/// alphabet, which depends on the bytes alone.
#[verifier::external_body]
pub(crate) fn encode_bytes(bytes: &[u8]) -> (text: String)
    ensures
        text@ == base58_encoding(bytes@),
{
    bs58::encode(bytes).into_string()
}

} // verus!
