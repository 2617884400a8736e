//! Variable-length integers: a header byte that carries the sign and the
//! number of magnitude digits, followed by the shortest big-endian numeral of
//! the magnitude. Zero is the single byte `0`.

use vstd::prelude::*;
use crate::numeral::{
    be_digits, be_value, is_minimal, lemma_digits_len, lemma_digits_value,
    lemma_minimal_lower_bound, lemma_pow256_16, lemma_pow256_monotonic, lemma_value_bound,
    lemma_value_digits,
};

verus! {

/// The absolute value of `v`.
pub open spec fn magnitude_of(v: int) -> nat {
    if v < 0 {
        (-v) as nat
    } else {
        v as nat
    }
}

/// The largest number of magnitude digits that a header byte can announce.
pub open spec fn max_digits() -> nat {
    127
}

/// Whether `v` can be written as a variable-length integer.
pub open spec fn varint_fits(v: int) -> bool {
    be_digits(magnitude_of(v)).len() <= max_digits()
}

/// The encoding of `v`.
#[verifier::opaque]
pub open spec fn varint(v: int) -> Seq<u8> {
    if v == 0 {
        seq![0u8]
    } else {
        let digits = be_digits(magnitude_of(v));
        let sign: int = if v < 0 { 128 } else { 0 };
        seq![(sign + digits.len()) as u8] + digits
    }
}

/// Reads one variable-length integer from the front of `s`: the integer and
/// the bytes that follow it, or `None` where `s` does not start with the
/// encoding of any integer.
#[verifier::opaque]
pub open spec fn parse_varint(s: Seq<u8>) -> Option<(int, Seq<u8>)> {
    if s.len() == 0 {
        None
    } else if s[0] == 0 {
        Some((0int, s.skip(1)))
    } else {
        let negative = s[0] >= 128;
        let count: int = if negative { s[0] - 128 } else { s[0] as int };
        if count == 0 || s.len() < 1 + count || s[1] == 0 {
            None
        } else {
            let m = be_value(s.subrange(1, 1 + count));
            Some((if negative { -(m as int) } else { m as int }, s.skip(1 + count)))
        }
    }
}

/// Reading what was written gives the integer back, and leaves what followed.
pub proof fn lemma_parse_varint_of_encoding(v: int, rest: Seq<u8>)
    requires
        varint_fits(v),
    ensures
        parse_varint(varint(v) + rest) == Some((v, rest)),
{
    reveal(varint);
    reveal(parse_varint);
    let s = varint(v) + rest;
    if v == 0 {
        assert(s.skip(1) =~= rest);
    } else {
        let digits = be_digits(magnitude_of(v));
        lemma_digits_value(magnitude_of(v));
        let count = digits.len() as int;
        assert(0 < count <= 127);
        assert(s[0] == varint(v)[0]);
        assert(s[1] == digits[0]);
        assert(s.subrange(1, 1 + count) =~= digits);
        assert(s.skip(1 + count) =~= rest);
    }
}

/// Whatever reads as an integer is the encoding of that integer, followed by
/// the bytes that the reader left.
pub proof fn lemma_encoding_of_parse_varint(s: Seq<u8>)
    requires
        parse_varint(s) is Some,
    ensures
        ({
            let (v, rest) = parse_varint(s)->Some_0;
            &&& varint_fits(v)
            &&& s == varint(v) + rest
        }),
{
    reveal(varint);
    reveal(parse_varint);
    let (v, rest) = parse_varint(s)->Some_0;
    if s[0] == 0 {
        assert(s =~= varint(0) + s.skip(1));
        assert(be_digits(0).len() == 0);
    } else {
        let negative = s[0] >= 128;
        let count: int = if negative { s[0] - 128 } else { s[0] as int };
        let digits = s.subrange(1, 1 + count);
        assert(digits[0] == s[1]);
        lemma_value_digits(digits);
        assert(magnitude_of(v) == be_value(digits));
        assert(s =~= varint(v) + s.skip(1 + count));
    }
}

/// Every 128-bit integer can be written: its magnitude has at most 16 digits.
pub proof fn lemma_i128_fits(v: i128)
    ensures
        varint_fits(v as int),
        be_digits(magnitude_of(v as int)).len() <= 16,
{
    lemma_pow256_16();
    lemma_digits_len(magnitude_of(v as int), 16);
}

/// The magnitude of `v`.
fn magnitude(v: i128) -> (m: u128)
    ensures
        m as nat == magnitude_of(v as int),
{
    if v >= 0 {
        v as u128
    } else if v == i128::MIN {
        0x8000_0000_0000_0000_0000_0000_0000_0000u128
    } else {
        (-v) as u128
    }
}

/// The number of digits in the shortest numeral of `n`.
fn digit_count(n: u128) -> (k: u8)
    ensures
        k as nat == be_digits(n as nat).len(),
        k <= 16,
    decreases n,
{
    proof {
        lemma_pow256_16();
        lemma_digits_len(n as nat, 16);
    }
    if n == 0 {
        0
    } else {
        1 + digit_count(n / 256)
    }
}

/// Appends the shortest big-endian numeral of `n` to `out`.
fn push_digits(out: &mut Vec<u8>, n: u128)
    ensures
        final(out)@ == old(out)@ + be_digits(n as nat),
    decreases n,
{
    if n != 0 {
        push_digits(out, n / 256);
        out.push((n % 256) as u8);
        proof {
            assert(out@ =~= old(out)@ + be_digits(n as nat));
        }
    } else {
        proof {
            assert(out@ =~= old(out)@ + be_digits(n as nat));
        }
    }
}

/// Appends the encoding of `v` to `out`.
pub fn write_varint(out: &mut Vec<u8>, v: i128)
    ensures
        final(out)@ == old(out)@ + varint(v as int),
{
    reveal(varint);
    if v == 0 {
        out.push(0);
        proof {
            assert(out@ =~= old(out)@ + varint(0));
        }
    } else {
        let m = magnitude(v);
        let k = digit_count(m);
        let header: u8 = if v < 0 { 128 + k } else { k };
        out.push(header);
        push_digits(out, m);
        proof {
            assert(out@ =~= old(out)@ + varint(v as int));
        }
    }
}

/// Reads the variable-length integer that starts at `pos`. Returns the
/// integer and the position after it, or `None` where no 128-bit integer is
/// encoded there.
pub fn read_varint(buf: &[u8], pos: usize) -> (r: Option<(i128, usize)>)
    ensures
        pos > buf.len() ==> r is None,
        pos <= buf.len() ==> (match r {
                Some((v, next)) => {
                    &&& pos < next <= buf.len()
                    &&& parse_varint(buf@.skip(pos as int)) == Some(
                        (v as int, buf@.skip(next as int)),
                    )
                },
                None => match parse_varint(buf@.skip(pos as int)) {
                    Some((v, _)) => v < i128::MIN || v > i128::MAX,
                    None => true,
                },
            }),
{
    reveal(parse_varint);
    let ghost s = buf@.skip(pos as int);
    if pos >= buf.len() {
        return None;
    }
    let header = buf[pos];
    assert(s[0] == header);
    if header == 0 {
        assert(s.skip(1) =~= buf@.skip(pos + 1));
        return Some((0, pos + 1));
    }
    let negative = header >= 128;
    let count: usize = if negative { (header - 128) as usize } else { header as usize };
    if count == 0 || count > buf.len() - pos - 1 {
        return None;
    }
    let first = pos + 1;
    assert(s[1] == buf[first as int]);
    if buf[first] == 0 {
        return None;
    }
    let ghost digits = s.subrange(1, 1 + count);
    assert(digits =~= buf@.subrange(first as int, first + count));
    assert(is_minimal(digits));
    proof {
        lemma_pow256_16();
        lemma_minimal_lower_bound(digits);
    }
    if count > 16 {
        proof {
            lemma_pow256_monotonic(16, (count - 1) as nat);
        }
        return None;
    }
    let mut m: u128 = 0;
    let mut i: usize = 0;
    while i < count
        invariant
            i <= count <= 16,
            first + count <= buf.len(),
            digits == buf@.subrange(first as int, first + count),
            m as nat == be_value(digits.subrange(0, i as int)),
        decreases count - i,
    {
        let ghost before = digits.subrange(0, i as int);
        let ghost after = digits.subrange(0, i + 1);
        proof {
            lemma_value_bound(before);
            lemma_pow256_monotonic(i as nat, 15);
            lemma_pow256_16();
            assert(after.drop_last() =~= before);
            assert(after.last() == buf[first + i]);
        }
        m = m * 256 + buf[first + i] as u128;
        i += 1;
    }
    assert(digits.subrange(0, count as int) =~= digits);
    let next = first + count;
    assert(s.skip(1 + count) =~= buf@.skip(next as int));
    if negative {
        if m > 0x8000_0000_0000_0000_0000_0000_0000_0000u128 {
            None
        } else if m == 0x8000_0000_0000_0000_0000_0000_0000_0000u128 {
            Some((i128::MIN, next))
        } else {
            Some((-(m as i128), next))
        }
    } else {
        if m > 0x7fff_ffff_ffff_ffff_ffff_ffff_ffff_ffffu128 {
            None
        } else {
            Some((m as i128, next))
        }
    }
}

} // verus!
