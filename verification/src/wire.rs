//! Terms of the canonical wire format. Every term starts with a tag byte:
//! integers carry a variable-length integer, byte strings a length and the
//! raw bytes, lists a count and that many terms, records a count and that
//! many key-value pairs.

use vstd::prelude::*;
use vstd::slice::{slice_subrange, slice_to_vec};
use crate::varint::{
    lemma_encoding_of_parse_varint, lemma_i128_fits, lemma_parse_varint_of_encoding,
    parse_varint, read_varint, varint, varint_fits, write_varint,
};

verus! {

/// Tag of an integer term.
pub const TAG_INT: u8 = 3;

/// Tag of a byte-string term.
pub const TAG_BINARY: u8 = 5;

/// Tag of a list term.
pub const TAG_LIST: u8 = 6;

/// Tag of a record term.
pub const TAG_RECORD: u8 = 7;

/// The integer term for `v`.
pub open spec fn int_term(v: int) -> Seq<u8> {
    seq![TAG_INT] + varint(v)
}

/// The byte-string term for `bytes`: the raw bytes behind their length.
pub open spec fn binary_term(bytes: Seq<u8>) -> Seq<u8> {
    seq![TAG_BINARY] + varint(bytes.len() as int) + bytes
}

/// The terms of `items`, one after the other.
pub open spec fn binary_terms(items: Seq<Seq<u8>>) -> Seq<u8>
    decreases items.len(),
{
    if items.len() == 0 {
        Seq::empty()
    } else {
        binary_term(items[0]) + binary_terms(items.skip(1))
    }
}

/// The list term whose elements are the byte strings `items`, in order.
pub open spec fn list_term(items: Seq<Seq<u8>>) -> Seq<u8> {
    seq![TAG_LIST] + varint(items.len() as int) + binary_terms(items)
}

/// The start of a record term with `count` key-value pairs.
pub open spec fn record_header(count: nat) -> Seq<u8> {
    seq![TAG_RECORD] + varint(count as int)
}

/// Whether the length of `bytes` can be written.
pub open spec fn binary_fits(bytes: Seq<u8>) -> bool {
    varint_fits(bytes.len() as int)
}

/// Whether the count of `items` and the length of each can be written.
pub open spec fn list_fits(items: Seq<Seq<u8>>) -> bool {
    &&& varint_fits(items.len() as int)
    &&& forall|i: int| 0 <= i < items.len() ==> binary_fits(#[trigger] items[i])
}

/// Reads `tag` from the front of `s`.
pub open spec fn parse_tag(s: Seq<u8>, tag: u8) -> Option<Seq<u8>> {
    if s.len() > 0 && s[0] == tag {
        Some(s.skip(1))
    } else {
        None
    }
}

/// Reads one integer term from the front of `s`.
pub open spec fn parse_int(s: Seq<u8>) -> Option<(int, Seq<u8>)> {
    match parse_tag(s, TAG_INT) {
        Some(body) => parse_varint(body),
        None => None,
    }
}

/// Reads one byte-string term from the front of `s`.
pub open spec fn parse_binary(s: Seq<u8>) -> Option<(Seq<u8>, Seq<u8>)> {
    match parse_tag(s, TAG_BINARY) {
        Some(body) => match parse_varint(body) {
            Some((n, r)) => if 0 <= n <= r.len() {
                Some((r.subrange(0, n), r.skip(n)))
            } else {
                None
            },
            None => None,
        },
        None => None,
    }
}

/// Reads `count` byte-string terms from the front of `s`.
pub open spec fn parse_binaries(s: Seq<u8>, count: nat) -> Option<(Seq<Seq<u8>>, Seq<u8>)>
    decreases count,
{
    if count == 0 {
        Some((Seq::empty(), s))
    } else {
        match parse_binary(s) {
            Some((first, r)) => match parse_binaries(r, (count - 1) as nat) {
                Some((others, rest)) => Some((seq![first] + others, rest)),
                None => None,
            },
            None => None,
        }
    }
}

/// Reads one list term of byte strings from the front of `s`.
pub open spec fn parse_list(s: Seq<u8>) -> Option<(Seq<Seq<u8>>, Seq<u8>)> {
    match parse_tag(s, TAG_LIST) {
        Some(body) => match parse_varint(body) {
            Some((n, r)) => if n >= 0 {
                parse_binaries(r, n as nat)
            } else {
                None
            },
            None => None,
        },
        None => None,
    }
}

/// Reads the start of a record term from the front of `s`: the number of
/// pairs that follow.
pub open spec fn parse_record_header(s: Seq<u8>) -> Option<(nat, Seq<u8>)> {
    match parse_tag(s, TAG_RECORD) {
        Some(body) => match parse_varint(body) {
            Some((n, r)) => if n >= 0 {
                Some((n as nat, r))
            } else {
                None
            },
            None => None,
        },
        None => None,
    }
}

/// An integer term is read as written, whatever follows it.
pub proof fn lemma_parse_int_of_term(v: int, rest: Seq<u8>)
    requires
        varint_fits(v),
    ensures
        parse_int(int_term(v) + rest) == Some((v, rest)),
{
    let s = int_term(v) + rest;
    assert(s.skip(1) =~= varint(v) + rest);
    lemma_parse_varint_of_encoding(v, rest);
}

/// Whatever reads as an integer term is the term of that integer, followed
/// by the bytes that the reader left.
pub proof fn lemma_term_of_parse_int(s: Seq<u8>)
    requires
        parse_int(s) is Some,
    ensures
        ({
            let (v, rest) = parse_int(s)->Some_0;
            &&& varint_fits(v)
            &&& s == int_term(v) + rest
        }),
{
    let (v, rest) = parse_int(s)->Some_0;
    lemma_encoding_of_parse_varint(s.skip(1));
    assert(s =~= seq![TAG_INT] + s.skip(1));
    assert(s =~= int_term(v) + rest);
}

/// A byte-string term is read as written, whatever follows it.
pub proof fn lemma_parse_binary_of_term(bytes: Seq<u8>, rest: Seq<u8>)
    requires
        binary_fits(bytes),
    ensures
        parse_binary(binary_term(bytes) + rest) == Some((bytes, rest)),
{
    let s = binary_term(bytes) + rest;
    assert(s.skip(1) =~= varint(bytes.len() as int) + (bytes + rest));
    lemma_parse_varint_of_encoding(bytes.len() as int, bytes + rest);
    assert((bytes + rest).subrange(0, bytes.len() as int) =~= bytes);
    assert((bytes + rest).skip(bytes.len() as int) =~= rest);
}

/// Whatever reads as a byte-string term is the term of those bytes,
/// followed by the bytes that the reader left.
pub proof fn lemma_term_of_parse_binary(s: Seq<u8>)
    requires
        parse_binary(s) is Some,
    ensures
        ({
            let (bytes, rest) = parse_binary(s)->Some_0;
            &&& binary_fits(bytes)
            &&& s == binary_term(bytes) + rest
        }),
{
    let (bytes, rest) = parse_binary(s)->Some_0;
    let body = s.skip(1);
    lemma_encoding_of_parse_varint(body);
    let (n, r) = parse_varint(body)->Some_0;
    assert(r =~= bytes + rest);
    assert(s =~= seq![TAG_BINARY] + body);
    assert(s =~= binary_term(bytes) + rest);
}

/// Byte-string terms in a row are read as written, one for each.
pub proof fn lemma_parse_binaries_of_terms(items: Seq<Seq<u8>>, rest: Seq<u8>)
    requires
        forall|i: int| 0 <= i < items.len() ==> binary_fits(#[trigger] items[i]),
    ensures
        parse_binaries(binary_terms(items) + rest, items.len()) == Some((items, rest)),
    decreases items.len(),
{
    if items.len() == 0 {
        assert(binary_terms(items) + rest =~= rest);
        assert(items =~= Seq::empty());
    } else {
        let tail = items.skip(1);
        assert forall|i: int| 0 <= i < tail.len() implies binary_fits(#[trigger] tail[i]) by {
            assert(tail[i] == items[i + 1]);
        }
        let after = binary_terms(tail) + rest;
        assert(binary_terms(items) + rest =~= binary_term(items[0]) + after);
        lemma_parse_binary_of_term(items[0], after);
        lemma_parse_binaries_of_terms(tail, rest);
        assert(seq![items[0]] + tail =~= items);
    }
}

/// Whatever reads as `count` byte-string terms is the terms of that many
/// byte strings, followed by the bytes that the reader left.
pub proof fn lemma_terms_of_parse_binaries(s: Seq<u8>, count: nat)
    requires
        parse_binaries(s, count) is Some,
    ensures
        ({
            let (items, rest) = parse_binaries(s, count)->Some_0;
            &&& items.len() == count
            &&& forall|i: int| 0 <= i < items.len() ==> binary_fits(#[trigger] items[i])
            &&& s == binary_terms(items) + rest
        }),
    decreases count,
{
    let (items, rest) = parse_binaries(s, count)->Some_0;
    if count == 0 {
        assert(s =~= binary_terms(items) + rest);
    } else {
        let (first, r) = parse_binary(s)->Some_0;
        lemma_term_of_parse_binary(s);
        lemma_terms_of_parse_binaries(r, (count - 1) as nat);
        let (others, rest2) = parse_binaries(r, (count - 1) as nat)->Some_0;
        assert(items == seq![first] + others);
        assert(items.skip(1) =~= others);
        assert(items[0] == first);
        assert forall|i: int| 0 <= i < items.len() implies binary_fits(#[trigger] items[i]) by {
            if i > 0 {
                assert(items[i] == others[i - 1]);
            }
        }
        assert(s =~= binary_terms(items) + rest);
    }
}

/// A list term is read as written, whatever follows it.
pub proof fn lemma_parse_list_of_term(items: Seq<Seq<u8>>, rest: Seq<u8>)
    requires
        list_fits(items),
    ensures
        parse_list(list_term(items) + rest) == Some((items, rest)),
{
    let s = list_term(items) + rest;
    let after = binary_terms(items) + rest;
    assert(s.skip(1) =~= varint(items.len() as int) + after);
    lemma_parse_varint_of_encoding(items.len() as int, after);
    lemma_parse_binaries_of_terms(items, rest);
}

/// Whatever reads as a list term is the term of that list, followed by the
/// bytes that the reader left.
pub proof fn lemma_term_of_parse_list(s: Seq<u8>)
    requires
        parse_list(s) is Some,
    ensures
        ({
            let (items, rest) = parse_list(s)->Some_0;
            &&& list_fits(items)
            &&& s == list_term(items) + rest
        }),
{
    let (items, rest) = parse_list(s)->Some_0;
    let body = s.skip(1);
    lemma_encoding_of_parse_varint(body);
    let (n, r) = parse_varint(body)->Some_0;
    lemma_terms_of_parse_binaries(r, n as nat);
    assert(s =~= seq![TAG_LIST] + body);
    assert(s =~= list_term(items) + rest);
}

/// The start of a record is read as written, whatever follows it.
pub proof fn lemma_parse_record_header_of(count: nat, rest: Seq<u8>)
    requires
        varint_fits(count as int),
    ensures
        parse_record_header(record_header(count) + rest) == Some((count, rest)),
{
    let s = record_header(count) + rest;
    assert(s.skip(1) =~= varint(count as int) + rest);
    lemma_parse_varint_of_encoding(count as int, rest);
}

/// Whatever reads as the start of a record was written as one.
pub proof fn lemma_record_header_of_parse(s: Seq<u8>)
    requires
        parse_record_header(s) is Some,
    ensures
        ({
            let (count, rest) = parse_record_header(s)->Some_0;
            &&& varint_fits(count as int)
            &&& s == record_header(count) + rest
        }),
{
    let (count, rest) = parse_record_header(s)->Some_0;
    lemma_encoding_of_parse_varint(s.skip(1));
    assert(s =~= seq![TAG_RECORD] + s.skip(1));
    assert(s =~= record_header(count) + rest);
}

/// The length of any slice can be written.
pub proof fn lemma_length_fits(len: usize)
    ensures
        varint_fits(len as int),
{
    lemma_i128_fits(len as i128);
}

/// Appends `bytes` to `out`.
pub fn append_bytes(out: &mut Vec<u8>, bytes: &[u8])
    ensures
        final(out)@ == old(out)@ + bytes@,
{
    let mut i: usize = 0;
    while i < bytes.len()
        invariant
            i <= bytes.len(),
            out@ == old(out)@ + bytes@.subrange(0, i as int),
        decreases bytes.len() - i,
    {
        out.push(bytes[i]);
        i += 1;
        proof {
            assert(out@ =~= old(out)@ + bytes@.subrange(0, i as int));
        }
    }
    proof {
        assert(bytes@.subrange(0, bytes.len() as int) =~= bytes@);
    }
}

/// Whether `a` and `b` hold the same bytes.
pub fn same_bytes(a: &[u8], b: &[u8]) -> (r: bool)
    ensures
        r == (a@ == b@),
{
    if a.len() != b.len() {
        return false;
    }
    let mut i: usize = 0;
    while i < a.len()
        invariant
            a.len() == b.len(),
            i <= a.len(),
            a@.subrange(0, i as int) == b@.subrange(0, i as int),
        decreases a.len() - i,
    {
        if a[i] != b[i] {
            return false;
        }
        i += 1;
        proof {
            assert(a@.subrange(0, i as int) =~= a@.subrange(0, i - 1).push(a[i - 1]));
            assert(b@.subrange(0, i as int) =~= b@.subrange(0, i - 1).push(b[i - 1]));
        }
    }
    proof {
        assert(a@ =~= a@.subrange(0, a.len() as int));
        assert(b@ =~= b@.subrange(0, b.len() as int));
    }
    true
}

/// Appends the integer term for `v` to `out`.
pub fn write_int(out: &mut Vec<u8>, v: i128)
    ensures
        final(out)@ == old(out)@ + int_term(v as int),
{
    out.push(TAG_INT);
    write_varint(out, v);
    proof {
        assert(out@ =~= old(out)@ + int_term(v as int));
    }
}

/// Appends the byte-string term for `bytes` to `out`.
pub fn write_binary(out: &mut Vec<u8>, bytes: &[u8])
    ensures
        final(out)@ == old(out)@ + binary_term(bytes@),
{
    out.push(TAG_BINARY);
    write_varint(out, bytes.len() as i128);
    append_bytes(out, bytes);
    proof {
        assert(out@ =~= old(out)@ + binary_term(bytes@));
    }
}

/// The byte strings held by `items`.
pub open spec fn contents(items: Seq<Vec<u8>>) -> Seq<Seq<u8>> {
    Seq::new(items.len(), |i: int| items[i]@)
}

/// Appends the list term for `items` to `out`.
pub fn write_list(out: &mut Vec<u8>, items: &[Vec<u8>])
    ensures
        final(out)@ == old(out)@ + list_term(contents(items@)),
{
    let ghost all = contents(items@);
    out.push(TAG_LIST);
    write_varint(out, items.len() as i128);
    let ghost head = out@;
    assert(head =~= old(out)@ + seq![TAG_LIST] + varint(items.len() as int));
    assert(all.skip(0) =~= all);
    let mut i: usize = 0;
    while i < items.len()
        invariant
            i <= items.len(),
            all == contents(items@),
            out@ + binary_terms(all.skip(i as int)) == head + binary_terms(all),
        decreases items.len() - i,
    {
        let ghost before = out@;
        let ghost remaining = all.skip(i as int);
        write_binary(out, items[i].as_slice());
        proof {
            assert(remaining[0] == items[i as int]@);
            assert(remaining.skip(1) =~= all.skip(i + 1));
            assert(out@ + binary_terms(all.skip(i + 1)) =~= before + binary_terms(remaining));
        }
        i += 1;
    }
    proof {
        assert(all.skip(items.len() as int) =~= Seq::<Seq<u8>>::empty());
        assert(out@ =~= head + binary_terms(all));
        assert(out@ =~= old(out)@ + list_term(all));
    }
}

/// Appends the start of a record term with `count` pairs to `out`.
pub fn write_record_header(out: &mut Vec<u8>, count: u8)
    ensures
        final(out)@ == old(out)@ + record_header(count as nat),
{
    out.push(TAG_RECORD);
    write_varint(out, count as i128);
    proof {
        assert(out@ =~= old(out)@ + record_header(count as nat));
    }
}

/// Reads the integer term that starts at `pos`: the integer and the position
/// after the term, or `None` where no 128-bit integer term starts there.
pub fn read_int(buf: &[u8], pos: usize) -> (r: Option<(i128, usize)>)
    ensures
        pos > buf.len() ==> r is None,
        pos <= buf.len() ==> (match r {
                Some((v, next)) => {
                    &&& pos < next <= buf.len()
                    &&& parse_int(buf@.skip(pos as int)) == Some((v as int, buf@.skip(next as int)))
                },
                None => match parse_int(buf@.skip(pos as int)) {
                    Some((v, _)) => v < i128::MIN || v > i128::MAX,
                    None => true,
                },
            }),
{
    if pos >= buf.len() || buf[pos] != TAG_INT {
        return None;
    }
    proof {
        assert(buf@.skip(pos as int).skip(1) =~= buf@.skip(pos + 1));
    }
    read_varint(buf, pos + 1)
}

/// Reads the byte-string term that starts at `pos`: the bytes and the
/// position after the term, or `None` where no byte-string term starts there.
pub fn read_binary(buf: &[u8], pos: usize) -> (r: Option<(Vec<u8>, usize)>)
    ensures
        pos > buf.len() ==> r is None,
        pos <= buf.len() ==> (match r {
                Some((bytes, next)) => {
                    &&& pos < next <= buf.len()
                    &&& parse_binary(buf@.skip(pos as int)) == Some(
                        (bytes@, buf@.skip(next as int)),
                    )
                },
                None => parse_binary(buf@.skip(pos as int)) is None,
            }),
{
    if pos >= buf.len() || buf[pos] != TAG_BINARY {
        return None;
    }
    proof {
        assert(buf@.skip(pos as int).skip(1) =~= buf@.skip(pos + 1));
    }
    match read_varint(buf, pos + 1) {
        Some((n, start)) => {
            if n < 0 || n > (buf.len() - start) as i128 {
                return None;
            }
            let end = start + n as usize;
            let bytes = slice_to_vec(slice_subrange(buf, start, end));
            proof {
                let r = buf@.skip(start as int);
                assert(r.subrange(0, n as int) =~= bytes@);
                assert(r.skip(n as int) =~= buf@.skip(end as int));
            }
            Some((bytes, end))
        },
        None => {
            proof {
                let body = buf@.skip(pos + 1);
                if parse_varint(body) is Some {
                    lemma_encoding_of_parse_varint(body);
                }
            }
            None
        },
    }
}

/// Reads the list term of byte strings that starts at `pos`: the elements in
/// order and the position after the term, or `None` where no such term
/// starts there.
pub fn read_list(buf: &[u8], pos: usize) -> (r: Option<(Vec<Vec<u8>>, usize)>)
    ensures
        pos > buf.len() ==> r is None,
        pos <= buf.len() ==> (match r {
                Some((items, next)) => {
                    &&& pos < next <= buf.len()
                    &&& parse_list(buf@.skip(pos as int)) == Some(
                        (contents(items@), buf@.skip(next as int)),
                    )
                },
                None => parse_list(buf@.skip(pos as int)) is None,
            }),
{
    if pos >= buf.len() || buf[pos] != TAG_LIST {
        return None;
    }
    proof {
        assert(buf@.skip(pos as int).skip(1) =~= buf@.skip(pos + 1));
    }
    let (n, start) = match read_varint(buf, pos + 1) {
        Some(found) => found,
        None => {
            proof {
                lemma_count_beyond_input(buf@.skip(pos + 1));
            }
            return None;
        },
    };
    if n < 0 {
        return None;
    }
    if n > (buf.len() - start) as i128 {
        proof {
            lemma_too_few_bytes(buf@.skip(start as int), n as nat);
        }
        return None;
    }
    let count = n as usize;
    let ghost body = buf@.skip(start as int);
    let mut items: Vec<Vec<u8>> = Vec::new();
    let mut cursor = start;
    let mut i: usize = 0;
    assert(contents(items@) =~= Seq::<Seq<u8>>::empty());
    while i < count
        invariant
            i <= count,
            pos < start <= cursor <= buf.len(),
            i == items.len(),
            body == buf@.skip(start as int),
            parse_list(buf@.skip(pos as int)) == parse_binaries(body, count as nat),
            parse_binaries(body, count as nat) == match parse_binaries(
                buf@.skip(cursor as int),
                (count - i) as nat,
            ) {
                Some((others, rest)) => Some((contents(items@) + others, rest)),
                None => None,
            },
        decreases count - i,
    {
        let ghost here = buf@.skip(cursor as int);
        let ghost so_far = contents(items@);
        match read_binary(buf, cursor) {
            Some((bytes, next)) => {
                items.push(bytes);
                proof {
                    assert(contents(items@) =~= so_far + seq![bytes@]);
                    match parse_binaries(buf@.skip(next as int), (count - i - 1) as nat) {
                        Some((others, rest)) => {
                            assert(so_far + (seq![bytes@] + others) =~= contents(items@)
                                + others);
                        },
                        None => {},
                    }
                }
                cursor = next;
            },
            None => {
                return None;
            },
        }
        i += 1;
    }
    proof {
        assert(contents(items@) + Seq::<Seq<u8>>::empty() =~= contents(items@));
    }
    Some((items, cursor))
}

/// Reads the start of the record term at `pos`: the number of pairs and the
/// position of the first pair, or `None` where no record term starts there or
/// it announces more than 255 pairs.
pub fn read_record_header(buf: &[u8], pos: usize) -> (r: Option<(u8, usize)>)
    ensures
        pos > buf.len() ==> r is None,
        pos <= buf.len() ==> (match r {
                Some((count, next)) => {
                    &&& pos < next <= buf.len()
                    &&& parse_record_header(buf@.skip(pos as int)) == Some(
                        (count as nat, buf@.skip(next as int)),
                    )
                },
                None => match parse_record_header(buf@.skip(pos as int)) {
                    Some((count, _)) => count > 255,
                    None => true,
                },
            }),
{
    if pos >= buf.len() || buf[pos] != TAG_RECORD {
        return None;
    }
    proof {
        assert(buf@.skip(pos as int).skip(1) =~= buf@.skip(pos + 1));
    }
    match read_varint(buf, pos + 1) {
        Some((n, next)) => {
            if n < 0 || n > 255 {
                None
            } else {
                Some((n as u8, next))
            }
        },
        None => None,
    }
}

/// Each byte-string term takes at least two bytes, so `count` of them do not
/// fit in fewer than `count` bytes.
pub proof fn lemma_too_few_bytes(s: Seq<u8>, count: nat)
    requires
        s.len() < count,
    ensures
        parse_binaries(s, count) is None,
    decreases count,
{
    match parse_binary(s) {
        Some((first, r)) => {
            lemma_term_of_parse_binary(s);
            assert(r.len() < s.len());
            lemma_too_few_bytes(r, (count - 1) as nat);
        },
        None => {},
    }
}

/// A count that no 128-bit integer holds announces more terms than a
/// sequence of machine length can contain.
pub proof fn lemma_count_beyond_input(s: Seq<u8>)
    requires
        s.len() <= usize::MAX,
        match parse_varint(s) {
            Some((v, _)) => v < i128::MIN || v > i128::MAX,
            None => true,
        },
    ensures
        match parse_varint(s) {
            Some((n, r)) => n >= 0 ==> parse_binaries(r, n as nat) is None,
            None => true,
        },
{
    match parse_varint(s) {
        Some((n, r)) => {
            if n >= 0 {
                lemma_encoding_of_parse_varint(s);
                assert(r.len() <= s.len());
                lemma_too_few_bytes(r, n as nat);
            }
        },
        None => {},
    }
}

} // verus!
