//! Base-256 numerals: the positional byte strings that carry integers in the
//! wire format and in key material.

use vstd::prelude::*;

verus! {

/// The number written by `digits` in base 256, most significant digit first.
pub open spec fn be_value(digits: Seq<u8>) -> nat
    decreases digits.len(),
{
    if digits.len() == 0 {
        0
    } else {
        be_value(digits.drop_last()) * 256 + digits.last() as nat
    }
}

/// The number written by `digits` in base 256, least significant digit first.
pub open spec fn le_value(digits: Seq<u8>) -> nat {
    be_value(digits.reverse())
}

/// The shortest big-endian numeral of `n`; zero is the empty numeral.
pub open spec fn be_digits(n: nat) -> Seq<u8>
    decreases n,
{
    if n == 0 {
        Seq::empty()
    } else {
        be_digits(n / 256).push((n % 256) as u8)
    }
}

/// A numeral is minimal when it has no leading zero digit.
pub open spec fn is_minimal(digits: Seq<u8>) -> bool {
    digits.len() == 0 || digits[0] != 0
}

/// 256 to the power `k`.
pub open spec fn pow256(k: nat) -> nat
    decreases k,
{
    if k == 0 {
        1
    } else {
        256 * pow256((k - 1) as nat)
    }
}

/// The shortest numeral of a number is minimal and writes that number.
pub proof fn lemma_digits_value(n: nat)
    ensures
        be_value(be_digits(n)) == n,
        is_minimal(be_digits(n)),
        n > 0 ==> be_digits(n).len() > 0,
    decreases n,
{
    if n > 0 {
        let high = n / 256;
        lemma_digits_value(high);
        let d = be_digits(n);
        assert(d.drop_last() =~= be_digits(high));
        if high == 0 {
            assert(d[0] == (n % 256) as u8);
        } else {
            assert(d[0] == be_digits(high)[0]);
        }
    }
}

/// A minimal numeral is the shortest numeral of the number it writes.
pub proof fn lemma_value_digits(digits: Seq<u8>)
    requires
        is_minimal(digits),
    ensures
        be_digits(be_value(digits)) == digits,
        digits.len() > 0 ==> be_value(digits) > 0,
    decreases digits.len(),
{
    if digits.len() > 0 {
        let high = digits.drop_last();
        let n = be_value(digits);
        if high.len() > 0 {
            assert(high[0] == digits[0]);
            lemma_value_digits(high);
        } else {
            assert(be_value(high) == 0);
            assert(digits.last() == digits[0]);
        }
        assert(n > 0);
        assert(n / 256 == be_value(high));
        assert(n % 256 == digits.last() as nat);
        assert(be_digits(be_value(high)) =~= high);
        assert(be_digits(n) == be_digits(n / 256).push((n % 256) as u8));
        assert(high.push(digits.last()) =~= digits);
    }
}

/// A numeral of `k` digits writes a number below `256^k`.
pub proof fn lemma_value_bound(digits: Seq<u8>)
    ensures
        be_value(digits) < pow256(digits.len()),
    decreases digits.len(),
{
    if digits.len() > 0 {
        lemma_value_bound(digits.drop_last());
    }
}

/// A number below `256^k` has a shortest numeral of at most `k` digits.
pub proof fn lemma_digits_len(n: nat, k: nat)
    requires
        n < pow256(k),
    ensures
        be_digits(n).len() <= k,
    decreases n,
{
    if n > 0 {
        assert(k > 0);
        lemma_digits_len(n / 256, (k - 1) as nat);
    }
}

/// A minimal numeral of `k > 0` digits writes a number of at least `256^(k-1)`.
pub proof fn lemma_minimal_lower_bound(digits: Seq<u8>)
    requires
        is_minimal(digits),
        digits.len() > 0,
    ensures
        be_value(digits) >= pow256((digits.len() - 1) as nat),
    decreases digits.len(),
{
    let high = digits.drop_last();
    if high.len() > 0 {
        assert(high[0] == digits[0]);
        lemma_minimal_lower_bound(high);
    } else {
        assert(digits.last() == digits[0]);
    }
}

/// Powers of 256 grow with the exponent.
pub proof fn lemma_pow256_monotonic(a: nat, b: nat)
    requires
        a <= b,
    ensures
        pow256(a) <= pow256(b),
        pow256(a) > 0,
    decreases b,
{
    if a < b {
        lemma_pow256_monotonic(a, (b - 1) as nat);
    } else if a > 0 {
        lemma_pow256_monotonic((a - 1) as nat, (a - 1) as nat);
    }
}

/// `256^16` is `2^128`, one more than the largest `u128`.
pub proof fn lemma_pow256_16()
    ensures
        pow256(16) == 0x1_0000_0000_0000_0000_0000_0000_0000_0000nat,
        pow256(15) == 0x1_0000_0000_0000_0000_0000_0000_0000_00nat,
{
    reveal_with_fuel(pow256, 17);
}

} // verus!
