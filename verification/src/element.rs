//! One owned record: identifier, attribute list in canonical key order, and
//! an optional coordinate, carried as the bit patterns of its latitude and
//! longitude, which only the unverified rim interprets.

use ellipse::Ellipse;
use vstd::prelude::*;

use crate::text::lex_lt;
use crate::text::str_eq;
use crate::text::str_lt;

verus! {

/// How many characters of a record's name the header line shows before
/// cutting it off.
pub const NAME_DISPLAY_LEN: usize = 50;

/// The mathematical content of a record: its identifier, its attributes as
/// key/value character sequences in canonical order, and its coordinate
/// bit patterns, if any.
pub struct ElementView {
    pub id: int,
    pub tags: Seq<(Seq<char>, Seq<char>)>,
    pub lat_lon: Option<(u64, u64)>,
}

/// Attribute keys strictly ascending in the canonical order, which also
/// makes them unique.
pub open spec fn tags_sorted(tags: Seq<(Seq<char>, Seq<char>)>) -> bool {
    forall|i: int, j: int| 0 <= i < j < tags.len() ==> lex_lt(tags[i].0, tags[j].0)
}

/// An owned copy of one decoded record.
#[derive(Debug)]
pub struct OwnedElement {
    id: i64,
    tags: Vec<(String, String)>,
    lat_lon: Option<(u64, u64)>,
}

impl View for OwnedElement {
    type V = ElementView;

    closed spec fn view(&self) -> ElementView {
        ElementView { id: self.id as int, tags: self.tags.deep_view(), lat_lon: self.lat_lon }
    }
}

impl DeepView for OwnedElement {
    type V = ElementView;

    open spec fn deep_view(&self) -> ElementView {
        self.view()
    }
}

proof fn lemma_chain_sorted(tags: Seq<(Seq<char>, Seq<char>)>, i: int, j: int)
    requires
        forall|k: int| 0 <= k < tags.len() - 1 ==> lex_lt(#[trigger] tags[k].0, tags[k + 1].0),
        0 <= i < j < tags.len(),
    ensures
        lex_lt(tags[i].0, tags[j].0),
    decreases j - i,
{
    if i + 1 < j {
        lemma_chain_sorted(tags, i, j - 1);
        crate::text::lemma_lex_lt_transitive(tags[i].0, tags[j - 1].0, tags[j].0);
    }
}

impl OwnedElement {
    #[verifier::type_invariant]
    spec fn wf(self) -> bool {
        tags_sorted(self.tags.deep_view())
    }

    /// Builds a record from plain parts. The attribute list must already be
    /// in canonical key order — as a decoded attribute mapping hands it
    /// out — otherwise nothing is built.
    pub fn new(id: i64, tags: Vec<(String, String)>, lat_lon: Option<(u64, u64)>) -> (r: Option<
        OwnedElement,
    >)
        ensures
            r is Some <==> tags_sorted(tags.deep_view()),
            r matches Some(e) ==> e@ == (ElementView {
                id: id as int,
                tags: tags.deep_view(),
                lat_lon,
            }),
    {
        let n = tags.len();
        let mut i: usize = 0;
        while n > 0 && i < n - 1
            invariant
                i <= n,
                n == tags.len(),
                forall|k: int| 0 <= k < i ==> lex_lt(
                    #[trigger] tags.deep_view()[k].0,
                    tags.deep_view()[k + 1].0,
                ),
            decreases n - i,
        {
            if !str_lt(tags[i].0.as_str(), tags[i + 1].0.as_str()) {
                proof {
                    assert(tags.deep_view()[i as int].0 == tags@[i as int].0@);
                    assert(tags.deep_view()[i + 1].0 == tags@[i + 1].0@);
                    assert(!tags_sorted(tags.deep_view()));
                }
                return None;
            }
            proof {
                assert(tags.deep_view()[i as int].0 == tags@[i as int].0@);
                assert(tags.deep_view()[i + 1].0 == tags@[i + 1].0@);
            }
            i = i + 1;
        }
        proof {
            assert forall|a: int, b: int| 0 <= a < b < tags.deep_view().len() implies lex_lt(
                tags.deep_view()[a].0,
                tags.deep_view()[b].0,
            ) by {
                lemma_chain_sorted(tags.deep_view(), a, b);
            }
        }
        Some(OwnedElement { id, tags, lat_lon })
    }

    /// The record's identifier.
    pub fn id(&self) -> (r: i64)
        ensures
            r as int == self@.id,
    {
        self.id
    }

    /// The coordinate bit patterns, if the record has a coordinate.
    pub fn lat_lon(&self) -> (r: Option<(u64, u64)>)
        ensures
            r == self@.lat_lon,
    {
        self.lat_lon
    }

    /// The attribute list, in canonical key order.
    pub fn tags(&self) -> (r: &Vec<(String, String)>)
        ensures
            r.deep_view() == self@.tags,
            tags_sorted(self@.tags),
    {
        proof {
            use_type_invariant(self);
        }
        &self.tags
    }

    /// The value of the attribute named `name`, cut down to display length,
    /// if the record has one.
    pub fn get_name(&self) -> (r: Option<String>)
        ensures
            match r {
                Some(s) => name_value(self@.tags) matches Some(v) && s@ == ellipsized(
                    v,
                    NAME_DISPLAY_LEN as int,
                ),
                None => name_value(self@.tags) is None,
            },
    {
        let n = self.tags.len();
        let mut i: usize = 0;
        proof {
            assert(self@.tags.skip(0) =~= self@.tags);
        }
        while i < n
            invariant
                i <= n,
                n == self.tags.len(),
                self@.tags == self.tags.deep_view(),
                name_value(self@.tags) == name_value(self@.tags.skip(i as int)),
            decreases n - i,
        {
            proof {
                reveal_strlit("name");
                assert("name"@ =~= seq!['n', 'a', 'm', 'e']);
                assert(self@.tags.skip(i as int)[0] == self@.tags[i as int]);
                assert(self@.tags[i as int].0 == self.tags@[i as int].0@);
                assert(self@.tags[i as int].1 == self.tags@[i as int].1@);
            }
            if str_eq(self.tags[i].0.as_str(), "name") {
                return Some(truncate_display(self.tags[i].1.as_str(), NAME_DISPLAY_LEN));
            }
            proof {
                assert(self@.tags.skip(i as int).drop_first() =~= self@.tags.skip(i + 1));
            }
            i = i + 1;
        }
        None
    }
}

/// The value of the first attribute named `name`, in canonical order.
pub open spec fn name_value(tags: Seq<(Seq<char>, Seq<char>)>) -> Option<Seq<char>>
    decreases tags.len(),
{
    if tags.len() == 0 {
        None
    } else if tags[0].0 == seq!['n', 'a', 'm', 'e'] {
        Some(tags[0].1)
    } else {
        name_value(tags.drop_first())
    }
}

/// What a text looks like after being cut to a display length: the name the
/// header line shows.
pub uninterp spec fn ellipsized(s: Seq<char>, len: int) -> Seq<char>;

/// Relies on ellipse's truncate_ellipse: it keeps the first `len` extended
/// grapheme clusters and appends "..." when something was cut, depending on
/// the text and the length alone. A text of at most `len` characters spans
/// at most `len` clusters, so it stays as it is.
#[verifier::external_body]
fn truncate_display(s: &str, len: usize) -> (r: String)
    ensures
        r@ == ellipsized(s@, len as int),
        s@.len() <= len ==> r@ == s@,
{
    s.truncate_ellipse(len).to_string()
}

} // verus!
