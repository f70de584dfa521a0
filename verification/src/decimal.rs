//! Decimal rendering of integers, verified against a sequence-of-digits model.
//!
//! Durations, identifiers and timestamps are all shown as decimal numbers
//! somewhere in the output, so the rendering is specified once here: the
//! spec functions say which characters a number turns into, and the
//! executable functions are proved to produce exactly those characters.

use vstd::prelude::*;
use vstd::string::StringExecFns;

verus! {

/// The character for a single decimal digit.
pub open spec fn digit_char(d: nat) -> char {
    if d == 0 {
        '0'
    } else if d == 1 {
        '1'
    } else if d == 2 {
        '2'
    } else if d == 3 {
        '3'
    } else if d == 4 {
        '4'
    } else if d == 5 {
        '5'
    } else if d == 6 {
        '6'
    } else if d == 7 {
        '7'
    } else if d == 8 {
        '8'
    } else {
        '9'
    }
}

/// The decimal digits of `n`, most significant first, with no leading
/// zeros (except for `n == 0`, which is the single digit `0`).
pub open spec fn dec_digits(n: nat) -> Seq<char>
    decreases n,
{
    if n < 10 {
        seq![digit_char(n)]
    } else {
        dec_digits(n / 10).push(digit_char(n % 10))
    }
}

/// The decimal rendering of a possibly negative integer: a minus sign
/// followed by the digits of the absolute value.
pub open spec fn int_digits(n: int) -> Seq<char> {
    if n >= 0 {
        dec_digits(n as nat)
    } else {
        seq!['-'] + dec_digits((-n) as nat)
    }
}

/// The digits of `n`, zero-padded on the left to at least two characters.
/// Meaningful for `n < 100`.
pub open spec fn dec_digits_pad2(n: nat) -> Seq<char> {
    if n < 10 {
        seq!['0'] + dec_digits(n)
    } else {
        dec_digits(n)
    }
}

/// The digits of `n`, zero-padded on the left to at least three characters.
/// Meaningful for `n < 1000`.
pub open spec fn dec_digits_pad3(n: nat) -> Seq<char> {
    if n < 10 {
        seq!['0', '0'] + dec_digits(n)
    } else if n < 100 {
        seq!['0'] + dec_digits(n)
    } else {
        dec_digits(n)
    }
}

/// A one-character string for the decimal digit `d`.
fn digit_str(d: u64) -> (r: &'static str)
    requires
        d < 10,
    ensures
        r@ == seq![digit_char(d as nat)],
{
    proof {
        reveal_strlit("0");
        reveal_strlit("1");
        reveal_strlit("2");
        reveal_strlit("3");
        reveal_strlit("4");
        reveal_strlit("5");
        reveal_strlit("6");
        reveal_strlit("7");
        reveal_strlit("8");
        reveal_strlit("9");
    }
    let r = if d == 0 {
        "0"
    } else if d == 1 {
        "1"
    } else if d == 2 {
        "2"
    } else if d == 3 {
        "3"
    } else if d == 4 {
        "4"
    } else if d == 5 {
        "5"
    } else if d == 6 {
        "6"
    } else if d == 7 {
        "7"
    } else if d == 8 {
        "8"
    } else {
        "9"
    };
    proof {
        assert(r@ =~= seq![digit_char(d as nat)]);
    }
    r
}

/// Renders `n` in decimal.
pub fn fmt_u64(n: u64) -> (s: String)
    ensures
        s@ == dec_digits(n as nat),
    decreases n,
{
    let d = n % 10;
    if n < 10 {
        digit_str(d).to_owned()
    } else {
        let mut s = fmt_u64(n / 10);
        s.append(digit_str(d));
        s
    }
}

/// Renders `n` in decimal, with a minus sign when it is negative.
pub fn fmt_i32(n: i32) -> (s: String)
    ensures
        s@ == int_digits(n as int),
{
    if n >= 0 {
        fmt_u64(n as u64)
    } else {
        let m = -(n as i64);
        let mut s = "-".to_owned();
        let digits = fmt_u64(m as u64);
        s.append(digits.as_str());
        proof {
            reveal_strlit("-");
            assert(s@ =~= int_digits(n as int));
        }
        s
    }
}

/// Renders `n` in decimal, zero-padded to at least two characters.
pub fn fmt_u64_pad2(n: u64) -> (s: String)
    ensures
        s@ == dec_digits_pad2(n as nat),
{
    if n < 10 {
        let mut s = "0".to_owned();
        let digits = fmt_u64(n);
        s.append(digits.as_str());
        proof {
            reveal_strlit("0");
            assert(s@ =~= dec_digits_pad2(n as nat));
        }
        s
    } else {
        fmt_u64(n)
    }
}

/// Renders `n` in decimal, zero-padded to at least three characters.
pub fn fmt_u64_pad3(n: u64) -> (s: String)
    ensures
        s@ == dec_digits_pad3(n as nat),
{
    if n < 10 {
        let mut s = "00".to_owned();
        let digits = fmt_u64(n);
        s.append(digits.as_str());
        proof {
            reveal_strlit("00");
            assert("00"@ =~= seq!['0', '0']);
            assert(s@ =~= dec_digits_pad3(n as nat));
        }
        s
    } else if n < 100 {
        let mut s = "0".to_owned();
        let digits = fmt_u64(n);
        s.append(digits.as_str());
        proof {
            reveal_strlit("0");
            assert(s@ =~= dec_digits_pad3(n as nat));
        }
        s
    } else {
        fmt_u64(n)
    }
}

} // verus!
