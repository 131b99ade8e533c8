//! Positional field designators: decimal numbers that fit 32 bits.

use crate::grammar::{decimal_value, digit_value, index_value, is_digit};
use vstd::prelude::*;
use vstd::string::StrSliceExecFns;
use vstd::string::StringExecFns;

verus! {

/// The character for a digit below ten.
pub open spec fn digit_char(d: nat) -> char {
    if d == 0 {
        '0'
    } else if d == 1 {
        '1'
    } else if d == 2 {
        '2'
    } else if d == 3 {
        '3'
    } else if d == 4 {
        '4'
    } else if d == 5 {
        '5'
    } else if d == 6 {
        '6'
    } else if d == 7 {
        '7'
    } else if d == 8 {
        '8'
    } else {
        '9'
    }
}

/// The decimal digits of `n`, without leading zeros.
pub open spec fn decimal_digits(n: nat) -> Seq<char>
    decreases n,
{
    if n < 10 {
        seq![digit_char(n)]
    } else {
        decimal_digits(n / 10).push(digit_char(n % 10))
    }
}

/// A run that holds anything but digits denotes no number.
pub proof fn lemma_non_digit(w: Seq<char>, i: int)
    requires
        0 <= i < w.len(),
        !is_digit(w[i]),
    ensures
        decimal_value(w) is None,
    decreases w.len(),
{
    if i < w.len() - 1 {
        lemma_non_digit(w.drop_last(), i);
    }
}

/// A run of digits denotes at least what any of its prefixes denotes.
pub proof fn lemma_prefix_value(w: Seq<char>, k: int)
    requires
        1 <= k <= w.len(),
        decimal_value(w.take(k)) is Some,
    ensures
        decimal_value(w) matches Some(v) ==> v >= decimal_value(w.take(k))->0,
    decreases w.len(),
{
    if k == w.len() {
        assert(w.take(k) =~= w);
    } else {
        assert(w.drop_last().take(k) =~= w.take(k));
        lemma_prefix_value(w.drop_last(), k);
    }
}

/// Reading back the digits of a number gives the number.
pub proof fn lemma_decimal_round_trip(n: nat)
    ensures
        decimal_value(decimal_digits(n)) == Some(n),
    decreases n,
{
    if n < 10 {
    } else {
        lemma_decimal_round_trip(n / 10);
        let w = decimal_digits(n);
        assert(w.drop_last() =~= decimal_digits(n / 10));
        assert(w.last() == digit_char(n % 10));
        assert(w.len() > 1);
    }
}

/// The field index that the text of a literal denotes, if it is a decimal
/// number no greater than `u32::MAX`.
///
/// Takes time in proportion to the length of the text.
pub fn parse_index(w: &str) -> (r: Option<u32>)
    ensures
        r == index_value(w@),
{
    if !w.is_ascii() {
        proof {
            let i = choose|i: int| 0 <= i < w@.len() && !('\0' <= #[trigger] w@[i] <= '\u{7f}');
            lemma_non_digit(w@, i);
        }
        return None;
    }
    let n: usize = w.unicode_len();
    if n == 0 {
        return None;
    }
    let mut acc: u64 = 0;
    let mut i: usize = 0;
    while i < n
        invariant
            0 <= i <= n,
            n == w@.len(),
            w.is_ascii(),
            acc <= u32::MAX,
            i == 0 ==> acc == 0,
            i > 0 ==> decimal_value(w@.take(i as int)) == Some(acc as nat),
        decreases n - i,
    {
        let b: u8 = w.get_ascii(i);
        let ghost c = w@[i as int];
        assert('\0' <= c <= '\u{7f}');
        assert(c as u8 == b);
        if !(b >= 48 && b <= 57) {
            proof {
                lemma_non_digit(w@, i as int);
            }
            return None;
        }
        let d: u64 = (b - 48) as u64;
        proof {
            let p = w@.take(i + 1);
            assert(p.last() == c);
            assert(p.drop_last() =~= w@.take(i as int));
            assert(digit_value(c) == d);
        }
        acc = acc * 10 + d;
        if acc > u32::MAX as u64 {
            proof {
                lemma_prefix_value(w@, i + 1);
            }
            return None;
        }
        i = i + 1;
    }
    proof {
        assert(w@.take(n as int) =~= w@);
    }
    Some(acc as u32)
}

fn digit_text(d: u32) -> (r: &'static str)
    requires
        d < 10,
    ensures
        r@ == seq![digit_char(d as nat)],
{
    proof {
        reveal_strlit("0");
        reveal_strlit("1");
        reveal_strlit("2");
        reveal_strlit("3");
        reveal_strlit("4");
        reveal_strlit("5");
        reveal_strlit("6");
        reveal_strlit("7");
        reveal_strlit("8");
        reveal_strlit("9");
    }
    let r = if d == 0 {
        "0"
    } else if d == 1 {
        "1"
    } else if d == 2 {
        "2"
    } else if d == 3 {
        "3"
    } else if d == 4 {
        "4"
    } else if d == 5 {
        "5"
    } else if d == 6 {
        "6"
    } else if d == 7 {
        "7"
    } else if d == 8 {
        "8"
    } else {
        "9"
    };
    assert(r@ =~= seq![digit_char(d as nat)]);
    r
}

/// Appends the decimal digits of `n` to `out`.
pub fn push_index(n: u32, out: &mut String)
    ensures
        final(out)@ == old(out)@ + decimal_digits(n as nat),
    decreases n,
{
    if n >= 10 {
        push_index(n / 10, out);
    }
    out.append(digit_text(n % 10));
    assert(out@ =~= old(out)@ + decimal_digits(n as nat));
}

/// The decimal digits of `n` as text.
pub fn index_text(n: u32) -> (r: String)
    ensures
        r@ == decimal_digits(n as nat),
{
    let mut out = String::new();
    push_index(n, &mut out);
    assert(out@ =~= decimal_digits(n as nat));
    out
}

} // verus!
