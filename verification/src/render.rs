//! The rendered shape of a matching record: the external link for its
//! identifier, and the attribute block — every attribute whose name the
//! hidden pattern does not match, written as `key: value` chunks and
//! wrapped so lines stay near the display width.

use vstd::prelude::*;

use crate::element::OwnedElement;
use crate::engines::regex_is_match;
use crate::engines::regex_match;
use crate::engines::regex_pattern;
use crate::numfmt::dec_str_signed;
use crate::numfmt::i64_to_dec;

verus! {

/// The display width the attribute block is wrapped at: a line already
/// holding something is flushed before a chunk that would carry it to or
/// past this width.
pub const WRAP_WIDTH: usize = 100;

/// The text of one attribute in the block: `key: value` and two trailing
/// blanks separating it from the next chunk.
pub open spec fn chunk_of(k: Seq<char>, v: Seq<char>) -> Seq<char> {
    k + ": "@ + v + "  "@
}

/// The chunk texts of an attribute list, in order.
pub open spec fn chunk_seq(tags: Seq<(Seq<char>, Seq<char>)>) -> Seq<Seq<char>> {
    tags.map_values(|kv: (Seq<char>, Seq<char>)| chunk_of(kv.0, kv.1))
}

/// The attributes whose keys the hidden pattern does not match: the only
/// ones any rendered line is built from.
pub open spec fn visible_tags(
    tags: Seq<(Seq<char>, Seq<char>)>,
    hidden: Seq<char>,
) -> Seq<(Seq<char>, Seq<char>)>
    decreases tags.len(),
{
    if tags.len() == 0 {
        Seq::<(Seq<char>, Seq<char>)>::empty()
    } else {
        let rest = visible_tags(tags.drop_last(), hidden);
        if !regex_match(hidden, tags.last().0) {
            rest.push(tags.last())
        } else {
            rest
        }
    }
}

/// Every attribute the block keeps has a key the hidden pattern does not
/// match.
pub proof fn lemma_visible_keys(tags: Seq<(Seq<char>, Seq<char>)>, hidden: Seq<char>)
    ensures
        forall|i: int| 0 <= i < visible_tags(tags, hidden).len() ==> !regex_match(
            hidden,
            (#[trigger] visible_tags(tags, hidden)[i]).0,
        ),
    decreases tags.len(),
{
    if tags.len() > 0 {
        lemma_visible_keys(tags.drop_last(), hidden);
        let rest = visible_tags(tags.drop_last(), hidden);
        assert forall|i: int| 0 <= i < visible_tags(tags, hidden).len() implies !regex_match(
            hidden,
            (#[trigger] visible_tags(tags, hidden)[i]).0,
        ) by {
            if !regex_match(hidden, tags.last().0) {
                assert(visible_tags(tags, hidden) == rest.push(tags.last()));
                if i < rest.len() {
                    assert(visible_tags(tags, hidden)[i] == rest[i]);
                }
            } else {
                assert(visible_tags(tags, hidden) == rest);
            }
        }
    }
}

/// The wrapping pass over the chunks: `lines` is what is already flushed
/// and `cur` the line being filled; a chunk that would carry `cur` to the
/// display width flushes it first, and a non-empty `cur` becomes the last
/// line.
pub open spec fn wrap_rec(
    chunks: Seq<Seq<char>>,
    lines: Seq<Seq<char>>,
    cur: Seq<char>,
) -> Seq<Seq<char>>
    decreases chunks.len(),
{
    if chunks.len() == 0 {
        if cur.len() > 0 {
            lines.push(cur)
        } else {
            lines
        }
    } else {
        let c = chunks[0];
        if cur.len() + c.len() >= WRAP_WIDTH {
            let flushed = if cur.len() > 0 {
                lines.push(cur)
            } else {
                lines
            };
            wrap_rec(chunks.drop_first(), flushed, c)
        } else {
            wrap_rec(chunks.drop_first(), lines, cur + c)
        }
    }
}

/// The lines the attribute block shows for a sequence of chunks.
pub open spec fn wrap_spec(chunks: Seq<Seq<char>>) -> Seq<Seq<char>> {
    wrap_rec(chunks, Seq::<Seq<char>>::empty(), Seq::<char>::empty())
}

/// Wrapping rearranges the chunks into lines but neither loses, invents
/// nor reorders text.
pub proof fn lemma_wrap_content(chunks: Seq<Seq<char>>, lines: Seq<Seq<char>>, cur: Seq<char>)
    ensures
        wrap_rec(chunks, lines, cur).flatten() == lines.flatten() + cur + chunks.flatten(),
    decreases chunks.len(),
{
    broadcast use vstd::prelude::Seq::lemma_flatten_push;

    if chunks.len() == 0 {
        if cur.len() > 0 {
            assert(lines.push(cur).flatten() == lines.flatten() + cur);
            assert(lines.flatten() + cur + chunks.flatten() =~= lines.flatten() + cur);
        } else {
            assert(lines.flatten() + cur + chunks.flatten() =~= lines.flatten());
        }
    } else {
        let c = chunks[0];
        assert(chunks.flatten() == c + chunks.drop_first().flatten());
        if cur.len() + c.len() >= WRAP_WIDTH {
            let flushed = if cur.len() > 0 {
                lines.push(cur)
            } else {
                lines
            };
            lemma_wrap_content(chunks.drop_first(), flushed, c);
            if cur.len() > 0 {
                assert(lines.push(cur).flatten() == lines.flatten() + cur);
            }
            assert(flushed.flatten() + c + chunks.drop_first().flatten() =~= lines.flatten() + cur
                + chunks.flatten());
        } else {
            lemma_wrap_content(chunks.drop_first(), lines, cur + c);
            assert(lines.flatten() + (cur + c) + chunks.drop_first().flatten() =~= lines.flatten()
                + cur + chunks.flatten());
        }
    }
}

/// No hidden attribute reaches the rendered block: every visible key fails
/// the hidden pattern, and the block's text is exactly the visible chunks'
/// text.
pub proof fn lemma_hidden_tags_absent(tags: Seq<(Seq<char>, Seq<char>)>, hidden: Seq<char>)
    ensures
        forall|i: int| 0 <= i < visible_tags(tags, hidden).len() ==> !regex_match(
            hidden,
            (#[trigger] visible_tags(tags, hidden)[i]).0,
        ),
        wrap_spec(chunk_seq(visible_tags(tags, hidden))).flatten() == chunk_seq(
            visible_tags(tags, hidden),
        ).flatten(),
{
    lemma_visible_keys(tags, hidden);
    lemma_wrap_content(
        chunk_seq(visible_tags(tags, hidden)),
        Seq::<Seq<char>>::empty(),
        Seq::<char>::empty(),
    );
    assert(Seq::<Seq<char>>::empty().flatten() + Seq::<char>::empty() + chunk_seq(
        visible_tags(tags, hidden),
    ).flatten() =~= chunk_seq(visible_tags(tags, hidden)).flatten());
}

/// Builds the attribute block of one record: the visible attributes as
/// `key: value` chunks, wrapped into display lines.
#[verifier::loop_isolation(false)]
pub fn tag_lines(element: &OwnedElement, hidden: &regex::Regex) -> (r: Vec<String>)
    ensures
        r.deep_view() == wrap_spec(
            chunk_seq(visible_tags(element@.tags, regex_pattern(*hidden))),
        ),
{
    let ghost hidden_pat = regex_pattern(*hidden);
    let tags = element.tags();
    let n = tags.len();
    let mut chunks: Vec<String> = Vec::new();
    let mut i: usize = 0;
    while i < n
        invariant
            i <= n,
            chunks.deep_view() == chunk_seq(
                visible_tags(element@.tags.take(i as int), hidden_pat),
            ),
        decreases n - i,
    {
        proof {
            assert(element@.tags[i as int].0 == tags@[i as int].0@);
            assert(element@.tags[i as int].1 == tags@[i as int].1@);
            assert(element@.tags.take(i + 1).drop_last() =~= element@.tags.take(i as int));
            assert(element@.tags.take(i + 1).last() == element@.tags[i as int]);
        }
        let pair = &tags[i];
        if !regex_is_match(hidden, pair.0.as_str()) {
            let ghost prev = chunks.deep_view();
            let mut chunk = pair.0.clone();
            chunk.append(": ");
            chunk.append(pair.1.as_str());
            chunk.append("  ");
            chunks.push(chunk);
            proof {
                assert(chunks.deep_view() =~= prev.push(chunk_of(
                    element@.tags[i as int].0,
                    element@.tags[i as int].1,
                )));
                assert(visible_tags(element@.tags.take(i + 1), hidden_pat) == visible_tags(
                    element@.tags.take(i as int),
                    hidden_pat,
                ).push(element@.tags[i as int])) by {
                    assert(element@.tags.take(i + 1).len() == i + 1);
                };
                assert(chunks.deep_view() =~= chunk_seq(
                    visible_tags(element@.tags.take(i + 1), hidden_pat),
                ));
            }
        } else {
            proof {
                assert(visible_tags(element@.tags.take(i + 1), hidden_pat) == visible_tags(
                    element@.tags.take(i as int),
                    hidden_pat,
                )) by {
                    assert(element@.tags.take(i + 1).len() == i + 1);
                };
            }
        }
        i = i + 1;
    }
    proof {
        assert(element@.tags.take(n as int) =~= element@.tags);
    }
    // The wrapping pass.
    let m = chunks.len();
    let mut lines: Vec<String> = Vec::new();
    let mut cur = String::new();
    let mut j: usize = 0;
    proof {
        assert(chunks.deep_view().skip(0) =~= chunks.deep_view());
        assert(lines.deep_view() =~= Seq::<Seq<char>>::empty());
    }
    while j < m
        invariant
            j <= m,
            m == chunks.len(),
            wrap_rec(chunks.deep_view().skip(j as int), lines.deep_view(), cur@) == wrap_spec(
                chunk_seq(visible_tags(element@.tags, hidden_pat)),
            ),
        decreases m - j,
    {
        proof {
            assert(chunks.deep_view().skip(j as int)[0] == chunks.deep_view()[j as int]);
            assert(chunks.deep_view()[j as int] == chunks@[j as int]@);
            assert(chunks.deep_view().skip(j as int).drop_first() =~= chunks.deep_view().skip(
                j + 1,
            ));
        }
        let clen = chunks[j].as_str().unicode_len();
        let cur_len = cur.as_str().unicode_len();
        if cur_len >= WRAP_WIDTH || WRAP_WIDTH - cur_len <= clen {
            let ghost prev_lines = lines.deep_view();
            if cur_len > 0 {
                lines.push(cur);
                proof {
                    assert(lines.deep_view() =~= prev_lines.push(cur@));
                }
            }
            cur = chunks[j].clone();
        } else {
            cur.append(chunks[j].as_str());
        }
        j = j + 1;
    }
    if !cur.as_str().is_empty() {
        let ghost prev_lines = lines.deep_view();
        lines.push(cur);
        proof {
            assert(lines.deep_view() =~= prev_lines.push(cur@));
        }
    }
    lines
}

/// The canonical external link for a record identifier.
pub fn node_link(id: i64) -> (r: String)
    ensures
        r@ == "http://openstreetmap.org/node/"@ + dec_str_signed(id as int),
{
    let mut out = String::from_str("http://openstreetmap.org/node/");
    let num = i64_to_dec(id);
    out.append(num.as_str());
    out
}

} // verus!
