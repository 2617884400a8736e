//! Text on the wire: a byte-string term that holds the UTF-8 form of the
//! characters.

use vstd::prelude::*;
use vstd::utf8::{
    decode_utf8, decode_utf8_encode_utf8, encode_utf8, encode_utf8_decode_utf8,
    encode_utf8_valid_utf8, valid_utf8,
};
use crate::wire::{
    binary_fits, binary_term, lemma_length_fits, lemma_parse_binary_of_term, lemma_term_of_parse_binary,
    parse_binary, read_binary, write_binary,
};

verus! {

/// The term for the text `chars`.
#[verifier::opaque]
pub open spec fn text_term(chars: Seq<char>) -> Seq<u8> {
    binary_term(encode_utf8(chars))
}

/// Whether the UTF-8 form of `chars` can be written as a byte string.
pub open spec fn text_fits(chars: Seq<char>) -> bool {
    binary_fits(encode_utf8(chars))
}

/// Reads one text term from the front of `s`.
#[verifier::opaque]
pub open spec fn parse_text(s: Seq<u8>) -> Option<(Seq<char>, Seq<u8>)> {
    match parse_binary(s) {
        Some((bytes, rest)) => if valid_utf8(bytes) {
            Some((decode_utf8(bytes), rest))
        } else {
            None
        },
        None => None,
    }
}

/// Reading a written text gives the characters back.
pub proof fn lemma_parse_text_of_term(chars: Seq<char>, rest: Seq<u8>)
    requires
        text_fits(chars),
    ensures
        parse_text(text_term(chars) + rest) == Some((chars, rest)),
{
    reveal(text_term);
    reveal(parse_text);
    lemma_parse_binary_of_term(encode_utf8(chars), rest);
    encode_utf8_valid_utf8(chars);
    encode_utf8_decode_utf8(chars);
}

/// Whatever reads as a text is the term of that text, followed by the bytes
/// that the reader left.
pub proof fn lemma_term_of_parse_text(s: Seq<u8>)
    requires
        parse_text(s) is Some,
    ensures
        ({
            let (chars, rest) = parse_text(s)->Some_0;
            &&& text_fits(chars)
            &&& s == text_term(chars) + rest
        }),
{
    reveal(text_term);
    reveal(parse_text);
    lemma_term_of_parse_binary(s);
    let (bytes, rest) = parse_binary(s)->Some_0;
    decode_utf8_encode_utf8(bytes);
}

/// `String::from_utf8` of std: the text that `bytes` hold in UTF-8, and
/// `None` exactly where they are not well-formed UTF-8.
#[verifier::external_body]
fn text_from_utf8(bytes: Vec<u8>) -> (r: Option<String>)
    ensures
        r is Some <==> valid_utf8(bytes@),
        r matches Some(text) ==> text@ == decode_utf8(bytes@),
{
    match String::from_utf8(bytes) {
        Ok(text) => Some(text),
        Err(_) => None,
    }
}

/// Appends the term for `text` to `out`.
pub fn write_text(out: &mut Vec<u8>, text: &str)
    ensures
        final(out)@ == old(out)@ + text_term(text@),
        text_fits(text@),
{
    reveal(text_term);
    let bytes = text.as_bytes();
    proof {
        lemma_length_fits(bytes.len());
    }
    write_binary(out, bytes);
}

/// Reads the text term that starts at `pos`: the text and the position after
/// the term, or `None` where no text term starts there.
pub fn read_text(buf: &[u8], pos: usize) -> (r: Option<(String, usize)>)
    ensures
        pos > buf.len() ==> r is None,
        pos <= buf.len() ==> (match r {
                Some((text, next)) => {
                    &&& pos < next <= buf.len()
                    &&& parse_text(buf@.skip(pos as int)) == Some((text@, buf@.skip(next as int)))
                },
                None => parse_text(buf@.skip(pos as int)) is None,
            }),
{
    reveal(parse_text);
    match read_binary(buf, pos) {
        Some((bytes, next)) => match text_from_utf8(bytes) {
            Some(text) => Some((text, next)),
            None => None,
        },
        None => None,
    }
}

} // verus!
