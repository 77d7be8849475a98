//! Character-level string utilities: the lexicographic key order that record
//! attributes are kept in, equality tests, and separator-based splitting.

use vstd::prelude::*;

verus! {

/// Strict lexicographic order on character sequences, by code point.
/// Attribute keys of a record are kept strictly ascending in this order.
pub open spec fn lex_lt(a: Seq<char>, b: Seq<char>) -> bool
    decreases a.len(),
{
    if b.len() == 0 {
        false
    } else if a.len() == 0 {
        true
    } else if a[0] == b[0] {
        lex_lt(a.drop_first(), b.drop_first())
    } else {
        (a[0] as u32) < (b[0] as u32)
    }
}

/// The order is transitive, so checking adjacent keys suffices to check a
/// whole attribute list.
pub proof fn lemma_lex_lt_transitive(a: Seq<char>, b: Seq<char>, c: Seq<char>)
    requires
        lex_lt(a, b),
        lex_lt(b, c),
    ensures
        lex_lt(a, c),
    decreases a.len() + b.len() + c.len(),
{
    if c.len() == 0 {
        // lex_lt(b, c) is false; contradiction.
    } else if a.len() == 0 {
        // a is empty and c is not.
    } else if b.len() == 0 {
        // lex_lt(a, b) is false; contradiction.
    } else {
        if a[0] == b[0] && b[0] == c[0] {
            lemma_lex_lt_transitive(a.drop_first(), b.drop_first(), c.drop_first());
        }
    }
}

/// The order is strict: no key comes before itself.
pub proof fn lemma_lex_lt_irreflexive(a: Seq<char>)
    ensures
        !lex_lt(a, a),
    decreases a.len(),
{
    if a.len() > 0 {
        lemma_lex_lt_irreflexive(a.drop_first());
    }
}

/// Character-by-character equality of two string slices.
pub fn str_eq(a: &str, b: &str) -> (r: bool)
    ensures
        r == (a@ == b@),
{
    let a_len = a.unicode_len();
    let b_len = b.unicode_len();
    if a_len != b_len {
        return false;
    }
    let mut i: usize = 0;
    while i < a_len
        invariant
            i <= a_len,
            a_len == a@.len(),
            b_len == b@.len(),
            a_len == b_len,
            forall|j: int| 0 <= j < i ==> a@[j] == b@[j],
        decreases a_len - i,
    {
        if a.get_char(i) != b.get_char(i) {
            return false;
        }
        i = i + 1;
    }
    proof {
        assert(a@ =~= b@);
    }
    true
}

/// Character-by-character comparison of two string slices in the order
/// `lex_lt` describes.
pub fn str_lt(a: &str, b: &str) -> (r: bool)
    ensures
        r == lex_lt(a@, b@),
{
    let a_len = a.unicode_len();
    let b_len = b.unicode_len();
    let mut i: usize = 0;
    proof {
        assert(a@.skip(0) =~= a@);
        assert(b@.skip(0) =~= b@);
    }
    loop
        invariant
            i <= a_len,
            i <= b_len,
            a_len == a@.len(),
            b_len == b@.len(),
            lex_lt(a@, b@) == lex_lt(a@.skip(i as int), b@.skip(i as int)),
        decreases a_len - i,
    {
        proof {
            reveal_with_fuel(lex_lt, 2);
        }
        if i == b_len {
            return false;
        }
        if i == a_len {
            return true;
        }
        let ca = a.get_char(i);
        let cb = b.get_char(i);
        if ca != cb {
            return (ca as u32) < (cb as u32);
        }
        proof {
            assert(a@.skip(i as int).drop_first() =~= a@.skip(i + 1));
            assert(b@.skip(i as int).drop_first() =~= b@.skip(i + 1));
        }
        i = i + 1;
    }
}

/// Splitting a string at the first occurrence of a separator character:
/// `None` when the separator does not occur, otherwise the text before and
/// after its first occurrence.
pub open spec fn split_first(s: Seq<char>, sep: char) -> Option<(Seq<char>, Seq<char>)>
    decreases s.len(),
{
    if s.len() == 0 {
        None
    } else if s[0] == sep {
        Some((Seq::<char>::empty(), s.drop_first()))
    } else {
        match split_first(s.drop_first(), sep) {
            None => None,
            Some((k, v)) => Some((seq![s[0]] + k, v)),
        }
    }
}

proof fn lemma_split_first_at(s: Seq<char>, sep: char, i: int)
    requires
        0 <= i < s.len(),
        s[i] == sep,
        forall|j: int| 0 <= j < i ==> s[j] != sep,
    ensures
        split_first(s, sep) == Some((s.take(i), s.skip(i + 1))),
    decreases i,
{
    if i == 0 {
        assert(s.take(0) =~= Seq::<char>::empty());
        assert(s.skip(1) =~= s.drop_first());
    } else {
        lemma_split_first_at(s.drop_first(), sep, i - 1);
        assert(seq![s[0]] + s.drop_first().take(i - 1) =~= s.take(i));
        assert(s.drop_first().skip(i) =~= s.skip(i + 1));
    }
}

proof fn lemma_split_first_none(s: Seq<char>, sep: char)
    requires
        forall|j: int| 0 <= j < s.len() ==> s[j] != sep,
    ensures
        split_first(s, sep) is None,
    decreases s.len(),
{
    if s.len() > 0 {
        lemma_split_first_none(s.drop_first(), sep);
    }
}

/// Finds the first occurrence of `sep` and returns the text on either side.
pub fn split_once_at(s: &str, sep: char) -> (r: Option<(String, String)>)
    ensures
        match r {
            Some((k, v)) => split_first(s@, sep) == Some((k@, v@)),
            None => split_first(s@, sep) is None,
        },
{
    let len = s.unicode_len();
    let mut i: usize = 0;
    while i < len
        invariant
            i <= len,
            len == s@.len(),
            forall|j: int| 0 <= j < i ==> s@[j] != sep,
        decreases len - i,
    {
        if s.get_char(i) == sep {
            let k = s.substring_char(0, i).to_owned();
            let v = s.substring_char(i + 1, len).to_owned();
            proof {
                lemma_split_first_at(s@, sep, i as int);
                assert(s@.subrange(0, i as int) =~= s@.take(i as int));
                assert(s@.subrange(i + 1, s@.len() as int) =~= s@.skip(i + 1));
            }
            return Some((k, v));
        }
        i = i + 1;
    }
    proof {
        lemma_split_first_none(s@, sep);
    }
    None
}

/// Splitting a string on every occurrence of a separator, as the fields of a
/// comma-separated triple are read. The empty string yields one empty field.
pub open spec fn split_all(s: Seq<char>, sep: char) -> Seq<Seq<char>>
    decreases s.len(),
{
    if s.len() == 0 {
        seq![Seq::<char>::empty()]
    } else if s[0] == sep {
        seq![Seq::<char>::empty()] + split_all(s.drop_first(), sep)
    } else {
        let rest = split_all(s.drop_first(), sep);
        seq![seq![s[0]] + rest[0]] + rest.drop_first()
    }
}

pub proof fn lemma_split_all_len(s: Seq<char>, sep: char)
    ensures
        split_all(s, sep).len() >= 1,
    decreases s.len(),
{
    if s.len() > 0 {
        lemma_split_all_len(s.drop_first(), sep);
    }
}

/// `split_all` agrees with peeling fields off with `split_first`.
proof fn lemma_split_all_step(s: Seq<char>, sep: char)
    ensures
        split_first(s, sep) is None ==> split_all(s, sep) == seq![s],
        forall|k: Seq<char>, v: Seq<char>|
            split_first(s, sep) == Some((k, v)) ==> split_all(s, sep) == seq![k] + split_all(
                v,
                sep,
            ),
    decreases s.len(),
{
    if s.len() == 0 {
        assert(split_all(s, sep) =~~= seq![s]);
    } else if s[0] == sep {
        assert(seq![Seq::<char>::empty()] + split_all(s.drop_first(), sep) == seq![
            Seq::<char>::empty(),
        ] + split_all(s.drop_first(), sep));
    } else {
        lemma_split_all_step(s.drop_first(), sep);
        lemma_split_all_len(s.drop_first(), sep);
        if split_first(s.drop_first(), sep) is None {
            assert(split_all(s.drop_first(), sep) == seq![s.drop_first()]);
            assert(seq![s.drop_first()].drop_first() =~~= Seq::<Seq<char>>::empty());
            assert(seq![s[0]] + s.drop_first() =~= s);
            assert(split_all(s, sep) =~~= seq![s]);
        } else {
            let (k, v) = split_first(s.drop_first(), sep)->Some_0;
            assert(split_all(s.drop_first(), sep) == seq![k] + split_all(v, sep));
            lemma_split_all_len(v, sep);
            assert((seq![k] + split_all(v, sep))[0] == k);
            assert((seq![k] + split_all(v, sep)).drop_first() =~= split_all(v, sep));
            assert(split_all(s, sep) =~= seq![seq![s[0]] + k] + split_all(v, sep));
        }
    }
}

/// Splits a string into all of its separator-delimited fields.
pub fn split_all_at(s: &str, sep: char) -> (r: Vec<String>)
    ensures
        r.deep_view() == split_all(s@, sep),
    decreases s@.len(),
{
    proof {
        lemma_split_all_step(s@, sep);
    }
    match split_once_at(s, sep) {
        None => {
            let mut out: Vec<String> = Vec::new();
            out.push(s.to_owned());
            proof {
                assert(out.deep_view() =~= seq![s@]);
            }
            out
        },
        Some((head, tail)) => {
            proof {
                lemma_split_first_shrinks(s@, sep);
            }
            let mut out: Vec<String> = Vec::new();
            out.push(head);
            let mut rest = split_all_at(tail.as_str(), sep);
            let mut j: usize = 0;
            let rest_len = rest.len();
            proof {
                assert(rest.deep_view().len() == rest@.len());
            }
            while j < rest_len
                invariant
                    j <= rest_len,
                    rest_len == rest.len(),
                    rest.deep_view() == split_all(tail@, sep),
                    out.deep_view() =~= seq![head@] + rest.deep_view().take(j as int),
                decreases rest_len - j,
            {
                let ghost prev = out.deep_view();
                let item = rest[j].clone();
                out.push(item);
                proof {
                    assert(out.deep_view() =~~= prev.push(rest.deep_view()[j as int]));
                    assert(rest.deep_view().take(j + 1) =~~= rest.deep_view().take(
                        j as int,
                    ).push(rest.deep_view()[j as int]));
                    assert(out.deep_view() =~~= seq![head@] + rest.deep_view().take(j + 1));
                }
                j = j + 1;
            }
            proof {
                assert(rest.deep_view().take(rest_len as int) =~= rest.deep_view());
                assert(out.deep_view() =~= seq![head@] + split_all(tail@, sep));
            }
            out
        },
    }
}

/// A field handed back by `split_first` is shorter than its input.
proof fn lemma_split_first_shrinks(s: Seq<char>, sep: char)
    ensures
        forall|k: Seq<char>, v: Seq<char>|
            split_first(s, sep) == Some((k, v)) ==> v.len() < s.len() && k.len() < s.len(),
    decreases s.len(),
{
    if s.len() > 0 && s[0] != sep {
        lemma_split_first_shrinks(s.drop_first(), sep);
    }
}

} // verus!
