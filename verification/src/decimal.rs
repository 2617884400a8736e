//! Amounts travel as decimal digits: ASCII, no leading zero, a minus sign in
//! front of a negative amount.

use vstd::prelude::*;

verus! {

/// The ASCII digit for `d`.
pub open spec fn digit(d: nat) -> u8 {
    (48 + d) as u8
}

/// The decimal digits of `n`, most significant first; `"0"` for zero.
pub open spec fn decimal_digits(n: nat) -> Seq<u8>
    decreases n,
{
    if n < 10 {
        seq![digit(n)]
    } else {
        decimal_digits(n / 10).push(digit(n % 10))
    }
}

/// The decimal form of `v`.
pub open spec fn decimal(v: int) -> Seq<u8> {
    if v < 0 {
        seq![45u8] + decimal_digits((-v) as nat)
    } else {
        decimal_digits(v as nat)
    }
}

/// The number that a sequence of ASCII digits writes.
pub open spec fn digits_value(digits: Seq<u8>) -> int
    decreases digits.len(),
{
    if digits.len() == 0 {
        0
    } else {
        digits_value(digits.drop_last()) * 10 + (digits.last() - 48)
    }
}

/// The number that a decimal form writes.
pub open spec fn decimal_value(text: Seq<u8>) -> int {
    if text.len() > 0 && text[0] == 45 {
        -digits_value(text.skip(1))
    } else {
        digits_value(text)
    }
}

/// The digits of a number write that number, and start with no minus sign.
pub proof fn lemma_digits_value(n: nat)
    ensures
        digits_value(decimal_digits(n)) == n,
        decimal_digits(n).len() > 0,
        48 <= decimal_digits(n)[0] <= 57,
    decreases n,
{
    if n < 10 {
        assert(decimal_digits(n).drop_last() =~= Seq::<u8>::empty());
        assert(digits_value(Seq::<u8>::empty()) == 0);
    } else {
        lemma_digits_value(n / 10);
        assert(decimal_digits(n).drop_last() =~= decimal_digits(n / 10));
        assert(decimal_digits(n)[0] == decimal_digits(n / 10)[0]);
    }
}

/// The decimal form of an amount writes that amount.
pub proof fn lemma_decimal_value(v: int)
    ensures
        decimal_value(decimal(v)) == v,
{
    if v < 0 {
        lemma_digits_value((-v) as nat);
        assert(decimal(v).skip(1) =~= decimal_digits((-v) as nat));
    } else {
        lemma_digits_value(v as nat);
    }
}

/// Two different amounts have different decimal forms.
pub proof fn lemma_decimal_injective(a: int, b: int)
    requires
        decimal(a) == decimal(b),
    ensures
        a == b,
{
    lemma_decimal_value(a);
    lemma_decimal_value(b);
}

/// Appends the decimal digits of `n` to `out`.
fn push_decimal_digits(out: &mut Vec<u8>, n: u128)
    ensures
        final(out)@ == old(out)@ + decimal_digits(n as nat),
    decreases n,
{
    if n < 10 {
        out.push(48 + n as u8);
    } else {
        push_decimal_digits(out, n / 10);
        out.push(48 + (n % 10) as u8);
    }
    proof {
        assert(out@ =~= old(out)@ + decimal_digits(n as nat));
    }
}

/// The decimal form of `amount`, in ASCII.
pub fn decimal_bytes(amount: i128) -> (out: Vec<u8>)
    ensures
        out@ == decimal(amount as int),
{
    let mut out: Vec<u8> = Vec::new();
    if amount < 0 {
        out.push(45);
        let magnitude: u128 = if amount == i128::MIN {
            0x8000_0000_0000_0000_0000_0000_0000_0000u128
        } else {
            (-amount) as u128
        };
        push_decimal_digits(&mut out, magnitude);
    } else {
        push_decimal_digits(&mut out, amount as u128);
    }
    proof {
        assert(out@ =~= decimal(amount as int));
    }
    out
}

/// The characters of ASCII bytes.
pub open spec fn as_text(bytes: Seq<u8>) -> Seq<char> {
    Seq::new(bytes.len(), |i: int| bytes[i] as char)
}

/// The one-character text of the digit `d`.
fn digit_str(d: u8) -> (s: &'static str)
    requires
        d < 10,
    ensures
        s@ == as_text(seq![digit(d as nat)]),
{
    proof {
        reveal_strlit("0");
        reveal_strlit("1");
        reveal_strlit("2");
        reveal_strlit("3");
        reveal_strlit("4");
        reveal_strlit("5");
        reveal_strlit("6");
        reveal_strlit("7");
        reveal_strlit("8");
        reveal_strlit("9");
    }
    let s = if d == 0 {
        "0"
    } else if d == 1 {
        "1"
    } else if d == 2 {
        "2"
    } else if d == 3 {
        "3"
    } else if d == 4 {
        "4"
    } else if d == 5 {
        "5"
    } else if d == 6 {
        "6"
    } else if d == 7 {
        "7"
    } else if d == 8 {
        "8"
    } else {
        "9"
    };
    proof {
        assert(s@ =~= as_text(seq![digit(d as nat)]));
    }
    s
}

/// The decimal digits of `n`, as text.
pub fn decimal_text(n: u64) -> (text: String)
    ensures
        text@ == as_text(decimal_digits(n as nat)),
    decreases n,
{
    if n < 10 {
        digit_str(n as u8).to_owned()
    } else {
        let text = decimal_text(n / 10).concat(digit_str((n % 10) as u8));
        proof {
            assert(text@ =~= as_text(decimal_digits(n as nat)));
        }
        text
    }
}

} // verus!
