//! Counting and the consumer's cap: the per-record tally a scan keeps, the
//! order-independent merge of per-worker tallies, and the decisions the
//! bounded display makes.

use vstd::prelude::*;

use crate::element::ElementView;
use crate::element::OwnedElement;
use crate::matcher::Matcher;
use crate::matcher::MatcherView;
use crate::matcher::matches_spec;

verus! {

/// Merging two (matched, visited) tallies is plain addition in both parts.
pub open spec fn merge_spec(a: (int, int), b: (int, int)) -> (int, int) {
    (a.0 + b.0, a.1 + b.1)
}

/// The tally over a sequence of visited records, each with the outcome of
/// its distance measurement: how many match, and how many were visited.
pub open spec fn count_spec(m: MatcherView, items: Seq<(ElementView, Option<bool>)>) -> (
    int,
    int,
)
    decreases items.len(),
{
    if items.len() == 0 {
        (0, 0)
    } else {
        let prev = count_spec(m, items.drop_last());
        let last = items.last();
        (
            prev.0 + if matches_spec(m, last.0, last.1) {
                1int
            } else {
                0int
            },
            prev.1 + 1,
        )
    }
}

/// Scans a sequence of records in order, tallying matches and visits.
#[verifier::loop_isolation(false)]
pub fn scan_records(matcher: &Matcher, items: &Vec<(OwnedElement, Option<bool>)>) -> (c: (
    u64,
    u64,
))
    ensures
        (c.0 as int, c.1 as int) == count_spec(matcher@, items.deep_view()),
{
    let n = items.len();
    let mut matched: u64 = 0;
    let mut total: u64 = 0;
    let mut i: usize = 0;
    while i < n
        invariant
            i <= n,
            total == i,
            matched <= i,
            (matched as int, total as int) == count_spec(
                matcher@,
                items.deep_view().take(i as int),
            ),
        decreases n - i,
    {
        let item = &items[i];
        let is_match = matcher.matches(&item.0, item.1);
        proof {
            assert(items.deep_view().take(i + 1).drop_last() =~= items.deep_view().take(i as int));
            assert(items.deep_view().take(i + 1).last() == items.deep_view()[i as int]);
            assert(items.deep_view()[i as int] == (items@[i as int].0.deep_view(), items@[
                i as int].1));
        }
        if is_match {
            matched = matched + 1;
        }
        total = total + 1;
        i = i + 1;
    }
    proof {
        assert(items.deep_view().take(n as int) =~= items.deep_view());
    }
    (matched, total)
}

/// Adds two per-worker tallies.
pub fn merge_counts(a: (u64, u64), b: (u64, u64)) -> (c: (u64, u64))
    requires
        a.0 + b.0 <= u64::MAX,
        a.1 + b.1 <= u64::MAX,
    ensures
        (c.0 as int, c.1 as int) == merge_spec((a.0 as int, a.1 as int), (b.0 as int, b.1 as int)),
{
    (a.0 + b.0, a.1 + b.1)
}

/// The merge is commutative, so the order workers finish in cannot change
/// the reported pair.
pub proof fn lemma_merge_commutative(a: (int, int), b: (int, int))
    ensures
        merge_spec(a, b) == merge_spec(b, a),
{
}

/// The merge is associative, so the grouping of merges cannot change the
/// reported pair.
pub proof fn lemma_merge_associative(a: (int, int), b: (int, int), c: (int, int))
    ensures
        merge_spec(merge_spec(a, b), c) == merge_spec(a, merge_spec(b, c)),
{
}

/// The tally over two stretches of the collection scanned separately and
/// merged is the tally over the whole stretch.
pub proof fn lemma_count_concat(
    m: MatcherView,
    s1: Seq<(ElementView, Option<bool>)>,
    s2: Seq<(ElementView, Option<bool>)>,
)
    ensures
        count_spec(m, s1 + s2) == merge_spec(count_spec(m, s1), count_spec(m, s2)),
    decreases s2.len(),
{
    if s2.len() == 0 {
        assert(s1 + s2 =~= s1);
    } else {
        lemma_count_concat(m, s1, s2.drop_last());
        assert((s1 + s2).drop_last() =~= s1 + s2.drop_last());
        assert((s1 + s2).last() == s2.last());
    }
}

/// However a collection is cut into partitions for parallel workers, the
/// merged per-partition tallies equal the tally over the whole collection.
pub proof fn lemma_count_partition_independent(
    m: MatcherView,
    parts: Seq<Seq<(ElementView, Option<bool>)>>,
)
    ensures
        parts.map_values(|p: Seq<(ElementView, Option<bool>)>| count_spec(m, p)).fold_left(
            (0int, 0int),
            |acc: (int, int), c: (int, int)| merge_spec(acc, c),
        ) == count_spec(m, parts.flatten()),
    decreases parts.len(),
{
    let counts = |p: Seq<(ElementView, Option<bool>)>| count_spec(m, p);
    let merge = |acc: (int, int), c: (int, int)| merge_spec(acc, c);
    if parts.len() == 0 {
        assert(parts.flatten() =~= Seq::<(ElementView, Option<bool>)>::empty());
    } else {
        lemma_count_partition_independent(m, parts.drop_last());
        assert(parts.map_values(counts).drop_last() =~= parts.drop_last().map_values(counts));
        parts.drop_last().lemma_flatten_push(parts.last());
        assert(parts.drop_last().push(parts.last()) =~= parts);
        lemma_count_concat(m, parts.drop_last().flatten(), parts.last());
    }
}

/// A scan never counts more matches than visits, and visits exactly every
/// record once.
pub proof fn lemma_matched_at_most_total(
    m: MatcherView,
    items: Seq<(ElementView, Option<bool>)>,
)
    ensures
        0 <= count_spec(m, items).0 <= count_spec(m, items).1 == items.len(),
    decreases items.len(),
{
    if items.len() > 0 {
        lemma_matched_at_most_total(m, items.drop_last());
    }
}

/// How many matches the consumer actually shows: the smaller of the number
/// of matches and the display cap.
pub fn displayed_count(matched: u64, cap: u64) -> (r: u64)
    ensures
        r == if matched < cap {
            matched as int
        } else {
            cap as int
        },
{
    if matched < cap {
        matched
    } else {
        cap
    }
}

/// The consumer's decision for the record about to get this 1-based
/// display index: it is rendered exactly when the index is within the cap.
pub fn should_render(index: u64, cap: u64) -> (r: bool)
    ensures
        r == (index <= cap),
{
    index <= cap
}

/// The end state of the drain: how many of the received matches get
/// rendered, and whether the truncation notice appears.
pub fn drain_tally(received: u64, cap: u64) -> (r: (u64, bool))
    ensures
        r.0 == if received < cap {
            received as int
        } else {
            cap as int
        },
        r.1 == (received > cap),
{
    (displayed_count(received, cap), received > cap)
}

} // verus!
