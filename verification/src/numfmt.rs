//! Decimal rendering of identifiers and counters, including the
//! underscore-separated form the summary and distance lines use.

use vstd::prelude::*;

verus! {

/// The decimal digit character for a value below ten.
pub open spec fn dec_digit(d: int) -> char {
    if d == 0 {
        '0'
    } else if d == 1 {
        '1'
    } else if d == 2 {
        '2'
    } else if d == 3 {
        '3'
    } else if d == 4 {
        '4'
    } else if d == 5 {
        '5'
    } else if d == 6 {
        '6'
    } else if d == 7 {
        '7'
    } else if d == 8 {
        '8'
    } else {
        '9'
    }
}

/// The usual decimal notation of a natural number, most significant digit
/// first, no leading zeros except for zero itself.
pub open spec fn dec_str(n: nat) -> Seq<char>
    decreases n,
{
    if n < 10 {
        seq![dec_digit(n as int)]
    } else {
        dec_str(n / 10) + seq![dec_digit((n % 10) as int)]
    }
}

/// Decimal notation of a signed number: a minus sign before the magnitude.
pub open spec fn dec_str_signed(n: int) -> Seq<char> {
    if n >= 0 {
        dec_str(n as nat)
    } else {
        seq!['-'] + dec_str((-n) as nat)
    }
}

fn digit_str(d: u64) -> (r: &'static str)
    requires
        d < 10,
    ensures
        r@ =~= seq![dec_digit(d as int)],
{
    proof {
        reveal_strlit("0");
        reveal_strlit("1");
        reveal_strlit("2");
        reveal_strlit("3");
        reveal_strlit("4");
        reveal_strlit("5");
        reveal_strlit("6");
        reveal_strlit("7");
        reveal_strlit("8");
        reveal_strlit("9");
    }
    if d == 0 {
        "0"
    } else if d == 1 {
        "1"
    } else if d == 2 {
        "2"
    } else if d == 3 {
        "3"
    } else if d == 4 {
        "4"
    } else if d == 5 {
        "5"
    } else if d == 6 {
        "6"
    } else if d == 7 {
        "7"
    } else if d == 8 {
        "8"
    } else {
        "9"
    }
}

/// Renders an unsigned counter or identifier in decimal.
pub fn u64_to_dec(n: u64) -> (r: String)
    ensures
        r@ == dec_str(n as nat),
    decreases n,
{
    if n < 10 {
        digit_str(n).to_owned()
    } else {
        let mut head = u64_to_dec(n / 10);
        head.append(digit_str(n % 10));
        head
    }
}

/// Renders a signed identifier in decimal.
pub fn i64_to_dec(n: i64) -> (r: String)
    ensures
        r@ == dec_str_signed(n as int),
{
    if n >= 0 {
        u64_to_dec(n as u64)
    } else {
        let mag: u64 = ((-(n + 1)) as u64) + 1;
        proof {
            assert(mag == -(n as int));
            reveal_strlit("-");
        }
        let mut out = String::from_str("-");
        let tail = u64_to_dec(mag);
        out.append(tail.as_str());
        proof {
            assert("-"@ =~= seq!['-']);
        }
        out
    }
}

/// Digit grouping: an underscore before every group of three digits,
/// counted from the right.
pub open spec fn underscore_sep(digits: Seq<char>) -> Seq<char>
    decreases digits.len(),
{
    if digits.len() <= 3 {
        digits
    } else {
        underscore_sep(digits.take(digits.len() - 3)) + seq!['_'] + digits.skip(
            digits.len() - 3,
        )
    }
}

fn underscore_str(s: &str) -> (r: String)
    ensures
        r@ == underscore_sep(s@),
    decreases s@.len(),
{
    let len = s.unicode_len();
    if len <= 3 {
        s.to_owned()
    } else {
        let head = s.substring_char(0, len - 3);
        let tail = s.substring_char(len - 3, len);
        let mut out = underscore_str(head);
        proof {
            reveal_strlit("_");
            assert("_"@ =~= seq!['_']);
        }
        out.append("_");
        out.append(tail);
        out
    }
}

/// Renders a count the way the summary line shows it: decimal digits in
/// groups of three, separated by underscores.
pub fn underscored(n: u64) -> (r: String)
    ensures
        r@ == underscore_sep(dec_str(n as nat)),
{
    let digits = u64_to_dec(n);
    underscore_str(digits.as_str())
}

} // verus!
