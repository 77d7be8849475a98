//! Recognizing the decimal floating-point literals a proximity query is
//! written in: an optional sign, then `inf`, `infinity` or `nan` in any
//! letter case, or digits with an optional fraction and an optional
//! exponent. This is the shape of string the standard library's
//! float parser accepts, so a field that passes here is parseable.

use vstd::prelude::*;

verus! {

/// An ASCII decimal digit.
pub open spec fn is_digit(c: char) -> bool {
    ('0' as u32) <= (c as u32) && (c as u32) <= ('9' as u32)
}

/// The tail of `s` after its leading run of digits.
pub open spec fn skip_digits(s: Seq<char>) -> Seq<char>
    decreases s.len(),
{
    if s.len() > 0 && is_digit(s[0]) {
        skip_digits(s.drop_first())
    } else {
        s
    }
}

/// An exponent part: nothing at all, or an exponent letter followed by an
/// optional sign and at least one digit.
pub open spec fn exponent_ok(s: Seq<char>) -> bool {
    if s.len() == 0 {
        true
    } else if s[0] == 'e' || s[0] == 'E' {
        let t = s.drop_first();
        let u = if t.len() > 0 && (t[0] == '+' || t[0] == '-') {
            t.drop_first()
        } else {
            t
        };
        u.len() > 0 && skip_digits(u).len() == 0
    } else {
        false
    }
}

/// An unsigned number: digits, optionally a point with further digits, with
/// at least one digit overall before any exponent part.
pub open spec fn number_ok(s: Seq<char>) -> bool {
    let t = skip_digits(s);
    let int_digits = s.len() - t.len();
    if t.len() > 0 && t[0] == '.' {
        let u = skip_digits(t.drop_first());
        let frac_digits = t.len() - 1 - u.len();
        (int_digits > 0 || frac_digits > 0) && exponent_ok(u)
    } else {
        int_digits > 0 && exponent_ok(t)
    }
}

/// Whether `a` is `b` up to ASCII letter case, where `b` is lower case.
pub open spec fn char_ci_eq(a: char, b: char) -> bool {
    a == b || ((a as u32) + 32 == (b as u32) && ('A' as u32) <= (a as u32) && (a as u32) <= (
    'Z' as u32))
}

/// Case-insensitive equality with a lower-case word.
pub open spec fn word_ci_eq(s: Seq<char>, lower: Seq<char>) -> bool {
    s.len() == lower.len() && forall|i: int| 0 <= i < s.len() ==> char_ci_eq(s[i], lower[i])
}

/// One of the special float spellings, in any letter case.
pub open spec fn special_ok(s: Seq<char>) -> bool {
    ||| word_ci_eq(s, seq!['i', 'n', 'f'])
    ||| word_ci_eq(s, seq!['i', 'n', 'f', 'i', 'n', 'i', 't', 'y'])
    ||| word_ci_eq(s, seq!['n', 'a', 'n'])
}

/// A complete floating-point literal: an optional sign, then a special
/// spelling or a number.
pub open spec fn is_float_literal(s: Seq<char>) -> bool {
    let body = if s.len() > 0 && (s[0] == '+' || s[0] == '-') {
        s.drop_first()
    } else {
        s
    };
    special_ok(body) || number_ok(body)
}

fn digit_exec(c: char) -> (r: bool)
    ensures
        r == is_digit(c),
{
    ('0' as u32) <= (c as u32) && (c as u32) <= ('9' as u32)
}

/// Index just past the run of digits that starts at `from`.
fn scan_digits(s: &str, from: usize) -> (r: usize)
    requires
        from <= s@.len(),
    ensures
        from <= r <= s@.len(),
        skip_digits(s@.skip(from as int)) == s@.skip(r as int),
{
    let len = s.unicode_len();
    let mut r = from;
    while r < len && digit_exec(s.get_char(r))
        invariant
            from <= r <= len,
            len == s@.len(),
            skip_digits(s@.skip(from as int)) == skip_digits(s@.skip(r as int)),
        decreases len - r,
    {
        proof {
            assert(s@.skip(r as int).drop_first() =~= s@.skip(r + 1));
        }
        r = r + 1;
    }
    r
}

fn char_ci_eq_exec(a: char, b: char) -> (r: bool)
    ensures
        r == char_ci_eq(a, b),
{
    a == b || ((a as u32) + 32 == (b as u32) && ('A' as u32) <= (a as u32) && (a as u32) <= (
    'Z' as u32))
}

/// Case-insensitive comparison of the tail of `s` from `from` with a
/// lower-case word.
fn word_ci_eq_exec(s: &str, from: usize, lower: &str) -> (r: bool)
    requires
        from <= s@.len(),
    ensures
        r == word_ci_eq(s@.skip(from as int), lower@),
{
    let s_len = s.unicode_len();
    let w_len = lower.unicode_len();
    if s_len - from != w_len {
        return false;
    }
    let mut i: usize = 0;
    while i < w_len
        invariant
            i <= w_len,
            from <= s@.len(),
            s_len == s@.len(),
            w_len == lower@.len(),
            s_len - from == w_len,
            forall|j: int| 0 <= j < i ==> char_ci_eq(s@.skip(from as int)[j], lower@[j]),
        decreases w_len - i,
    {
        if !char_ci_eq_exec(s.get_char(from + i), lower.get_char(i)) {
            return false;
        }
        i = i + 1;
    }
    true
}

/// The exponent part check, on the tail of `s` from `from`.
fn exponent_ok_exec(s: &str, from: usize) -> (r: bool)
    requires
        from <= s@.len(),
    ensures
        r == exponent_ok(s@.skip(from as int)),
{
    let len = s.unicode_len();
    if from == len {
        return true;
    }
    let c = s.get_char(from);
    if c != 'e' && c != 'E' {
        return false;
    }
    proof {
        assert(s@.skip(from as int).drop_first() =~= s@.skip(from + 1));
    }
    let mut u = from + 1;
    if u < len {
        let cs = s.get_char(u);
        if cs == '+' || cs == '-' {
            proof {
                assert(s@.skip(from + 1).drop_first() =~= s@.skip(from + 2));
            }
            u = u + 1;
        }
    }
    if u == len {
        return false;
    }
    let p = scan_digits(s, u);
    p == len
}

/// Whether a configuration field is a well-formed floating-point literal.
pub fn is_float_literal_str(s: &str) -> (r: bool)
    ensures
        r == is_float_literal(s@),
{
    let len = s.unicode_len();
    let mut start: usize = 0;
    if len > 0 {
        let c0 = s.get_char(0);
        if c0 == '+' || c0 == '-' {
            start = 1;
            proof {
                assert(s@.drop_first() =~= s@.skip(1));
            }
        }
    }
    proof {
        assert(s@.skip(0) =~= s@);
        reveal_strlit("inf");
        reveal_strlit("infinity");
        reveal_strlit("nan");
        assert("inf"@ =~= seq!['i', 'n', 'f']);
        assert("infinity"@ =~= seq!['i', 'n', 'f', 'i', 'n', 'i', 't', 'y']);
        assert("nan"@ =~= seq!['n', 'a', 'n']);
    }
    if word_ci_eq_exec(s, start, "inf") || word_ci_eq_exec(s, start, "infinity")
        || word_ci_eq_exec(s, start, "nan") {
        return true;
    }
    let p1 = scan_digits(s, start);
    let int_digits = p1 - start;
    if p1 < len && s.get_char(p1) == '.' {
        proof {
            assert(s@.skip(p1 as int).drop_first() =~= s@.skip(p1 + 1));
        }
        let p2 = scan_digits(s, p1 + 1);
        let frac_digits = p2 - (p1 + 1);
        let mant_ok = int_digits > 0 || frac_digits > 0;
        let exp_ok = exponent_ok_exec(s, p2);
        mant_ok && exp_ok
    } else {
        let exp_ok = exponent_ok_exec(s, p1);
        int_digits > 0 && exp_ok
    }
}

} // verus!
