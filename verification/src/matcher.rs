//! The compiled criterion set and its evaluation: one single-pass scan
//! over a record's attributes per criterion, short-circuiting as soon as
//! a criterion is decided, and all criteria combined by logical AND.

use vstd::prelude::*;

use crate::cli::Cli;
use crate::element::ElementView;
use crate::element::OwnedElement;
use crate::engines::fancy_compiles;
use crate::engines::fancy_is_match;
use crate::engines::fancy_match;
use crate::engines::fancy_new;
use crate::engines::fancy_pattern;
use crate::engines::regex_compiles;
use crate::engines::regex_is_match;
use crate::engines::regex_match;
use crate::engines::regex_new;
use crate::engines::regex_pattern;
use crate::floatlit::is_float_literal;
use crate::floatlit::is_float_literal_str;
use crate::text::split_all;
use crate::text::split_all_at;
use crate::text::split_first;
use crate::text::split_once_at;
use crate::text::str_eq;

verus! {

/// What a configuration error was: a criterion that is not a `key=value`
/// pair, a pattern either engine refuses, or a proximity query that is not
/// three parseable numbers.
#[derive(Clone, Copy, Debug, PartialEq, Eq, Structural)]
pub enum ConfigError {
    MalformedPair,
    InvalidPattern,
    MalformedTriple,
}

impl ConfigError {
    /// The descriptive message a run reports for this fault.
    pub fn message(&self) -> (r: &'static str)
        ensures
            r@ == match *self {
                ConfigError::MalformedPair => "Must be key=value pair"@,
                ConfigError::InvalidPattern => "Regex parsing failed"@,
                ConfigError::MalformedTriple => "Need three comma-separated numbers"@,
            },
    {
        match self {
            ConfigError::MalformedPair => "Must be key=value pair",
            ConfigError::InvalidPattern => "Regex parsing failed",
            ConfigError::MalformedTriple => "Need three comma-separated numbers",
        }
    }
}

/// How one attribute relates to one criterion: it settles the criterion
/// positively, settles it negatively, or does not bear on it.
pub enum TagMatch {
    FoundMatching,
    FoundMismatching,
    NotFound,
}

/// One criterion, borrowed from the criterion set for a scan.
pub enum Criterion<'a> {
    /// The attribute named `name` must satisfy the pattern.
    Name(&'a regex::Regex),
    /// The named attribute must have exactly the given value.
    TagValue(&'a String, &'a String),
    /// An attribute whose key satisfies the first pattern must have a value
    /// satisfying the second, on the linear engine.
    TagRegex(&'a regex::Regex, &'a regex::Regex),
    /// The same, on the backtracking engine.
    TagFancyRegex(&'a fancy_regex::Regex, &'a fancy_regex::Regex),
}

/// The mathematical content of one criterion: the pattern or literal text
/// it was compiled from.
pub enum CriterionView {
    Name(Seq<char>),
    TagValue(Seq<char>, Seq<char>),
    TagRegex(Seq<char>, Seq<char>),
    TagFancyRegex(Seq<char>, Seq<char>),
}

impl<'a> View for Criterion<'a> {
    type V = CriterionView;

    open spec fn view(&self) -> CriterionView {
        match self {
            Criterion::Name(re) => CriterionView::Name(regex_pattern(**re)),
            Criterion::TagValue(k, v) => CriterionView::TagValue((*k)@, (*v)@),
            Criterion::TagRegex(k, v) => CriterionView::TagRegex(
                regex_pattern(**k),
                regex_pattern(**v),
            ),
            Criterion::TagFancyRegex(k, v) => CriterionView::TagFancyRegex(
                fancy_pattern(**k),
                fancy_pattern(**v),
            ),
        }
    }
}

/// Whether an attribute key is the one a criterion looks at.
pub open spec fn key_applies(c: CriterionView, k: Seq<char>) -> bool {
    match c {
        CriterionView::Name(_) => k == seq!['n', 'a', 'm', 'e'],
        CriterionView::TagValue(ek, _) => k == ek,
        CriterionView::TagRegex(kp, _) => regex_match(kp, k),
        CriterionView::TagFancyRegex(kp, _) => fancy_match(kp, k),
    }
}

/// Whether an attribute value satisfies a criterion's value test.
pub open spec fn value_accepts(c: CriterionView, v: Seq<char>) -> bool {
    match c {
        CriterionView::Name(p) => regex_match(p, v),
        CriterionView::TagValue(_, ev) => v == ev,
        CriterionView::TagRegex(_, vp) => regex_match(vp, v),
        CriterionView::TagFancyRegex(_, vp) => fancy_match(vp, v),
    }
}

/// How one attribute is classified against one criterion.
pub open spec fn classify_spec(c: CriterionView, k: Seq<char>, v: Seq<char>) -> TagMatch {
    if key_applies(c, k) {
        if value_accepts(c, v) {
            TagMatch::FoundMatching
        } else {
            TagMatch::FoundMismatching
        }
    } else {
        TagMatch::NotFound
    }
}

/// The single-pass scan: attributes are visited in canonical order, the
/// first one whose key the criterion looks at decides it, and a criterion
/// no attribute decides has failed.
pub open spec fn scan_pass(tags: Seq<(Seq<char>, Seq<char>)>, c: CriterionView) -> bool
    decreases tags.len(),
{
    if tags.len() == 0 {
        false
    } else {
        match classify_spec(c, tags[0].0, tags[0].1) {
            TagMatch::FoundMatching => true,
            TagMatch::FoundMismatching => false,
            TagMatch::NotFound => scan_pass(tags.drop_first(), c),
        }
    }
}

/// Classifies one attribute against one criterion.
pub fn classify(c: &Criterion, k: &str, v: &str) -> (r: TagMatch)
    ensures
        r == classify_spec(c@, k@, v@),
{
    proof {
        reveal_strlit("name");
        assert("name"@ =~= seq!['n', 'a', 'm', 'e']);
    }
    match c {
        Criterion::Name(re) => {
            if str_eq(k, "name") {
                if regex_is_match(re, v) {
                    TagMatch::FoundMatching
                } else {
                    TagMatch::FoundMismatching
                }
            } else {
                TagMatch::NotFound
            }
        },
        Criterion::TagValue(ek, ev) => {
            if str_eq(k, ek.as_str()) {
                if str_eq(v, ev.as_str()) {
                    TagMatch::FoundMatching
                } else {
                    TagMatch::FoundMismatching
                }
            } else {
                TagMatch::NotFound
            }
        },
        Criterion::TagRegex(kp, vp) => {
            if regex_is_match(kp, k) {
                if regex_is_match(vp, v) {
                    TagMatch::FoundMatching
                } else {
                    TagMatch::FoundMismatching
                }
            } else {
                TagMatch::NotFound
            }
        },
        Criterion::TagFancyRegex(kp, vp) => {
            if fancy_is_match(kp, k) {
                if fancy_is_match(vp, v) {
                    TagMatch::FoundMatching
                } else {
                    TagMatch::FoundMismatching
                }
            } else {
                TagMatch::NotFound
            }
        },
    }
}

/// Runs the single-pass scan of one criterion over a record's attributes.
pub fn find_tag_match(element: &OwnedElement, criterion: &Criterion) -> (r: bool)
    ensures
        r == scan_pass(element@.tags, criterion@),
{
    let tags = element.tags();
    let n = tags.len();
    let mut i: usize = 0;
    proof {
        assert(element@.tags.skip(0) =~= element@.tags);
    }
    while i < n
        invariant
            i <= n,
            n == tags.len(),
            tags.deep_view() == element@.tags,
            scan_pass(element@.tags, criterion@) == scan_pass(
                element@.tags.skip(i as int),
                criterion@,
            ),
        decreases n - i,
    {
        proof {
            assert(element@.tags.skip(i as int)[0] == element@.tags[i as int]);
            assert(element@.tags[i as int].0 == tags@[i as int].0@);
            assert(element@.tags[i as int].1 == tags@[i as int].1@);
        }
        let pair = &tags[i];
        match classify(criterion, pair.0.as_str(), pair.1.as_str()) {
            TagMatch::FoundMatching => {
                return true;
            },
            TagMatch::FoundMismatching => {
                return false;
            },
            TagMatch::NotFound => {},
        }
        proof {
            assert(element@.tags.skip(i as int).drop_first() =~= element@.tags.skip(i + 1));
        }
        i = i + 1;
    }
    false
}

/// The mathematical content of a criterion set: each criterion's source
/// text or pattern, with the proximity query's three fields.
pub struct MatcherView {
    pub name: Option<Seq<char>>,
    pub tag_value: Seq<(Seq<char>, Seq<char>)>,
    pub tag_regex: Seq<(Seq<char>, Seq<char>)>,
    pub tag_fancy_regex: Seq<(Seq<char>, Seq<char>)>,
    pub lat_lon_distance: Option<(Seq<char>, Seq<char>, Seq<char>)>,
}

/// The compiled, immutable criterion set.
#[derive(Debug)]
pub struct Matcher {
    /// Pattern the `name` attribute must satisfy, if configured.
    pub name: Option<regex::Regex>,
    /// Literal key/value criteria, in configuration order.
    pub tag_value: Vec<(String, String)>,
    /// Compiled pattern pairs for the linear engine.
    pub tag_regex: Vec<(regex::Regex, regex::Regex)>,
    /// Compiled pattern pairs for the backtracking engine.
    pub tag_fancy_regex: Vec<(fancy_regex::Regex, fancy_regex::Regex)>,
    /// The proximity query's three fields, each a well-formed
    /// floating-point literal, if configured.
    pub lat_lon_distance: Option<(String, String, String)>,
}

impl View for Matcher {
    type V = MatcherView;

    open spec fn view(&self) -> MatcherView {
        MatcherView {
            name: match self.name {
                Some(re) => Some(regex_pattern(re)),
                None => None,
            },
            tag_value: self.tag_value.deep_view(),
            tag_regex: Seq::new(
                self.tag_regex@.len(),
                |i: int|
                    (regex_pattern(self.tag_regex@[i].0), regex_pattern(self.tag_regex@[i].1)),
            ),
            tag_fancy_regex: Seq::new(
                self.tag_fancy_regex@.len(),
                |i: int|
                    (
                        fancy_pattern(self.tag_fancy_regex@[i].0),
                        fancy_pattern(self.tag_fancy_regex@[i].1),
                    ),
            ),
            lat_lon_distance: match self.lat_lon_distance {
                Some(t) => Some((t.0@, t.1@, t.2@)),
                None => None,
            },
        }
    }
}

/// The criterion views of the literal key/value pairs.
pub open spec fn value_criteria(ps: Seq<(Seq<char>, Seq<char>)>) -> Seq<CriterionView> {
    ps.map_values(|p: (Seq<char>, Seq<char>)| CriterionView::TagValue(p.0, p.1))
}

/// The criterion views of the linear-engine pattern pairs.
pub open spec fn regex_criteria(ps: Seq<(Seq<char>, Seq<char>)>) -> Seq<CriterionView> {
    ps.map_values(|p: (Seq<char>, Seq<char>)| CriterionView::TagRegex(p.0, p.1))
}

/// The criterion views of the backtracking-engine pattern pairs.
pub open spec fn fancy_criteria(ps: Seq<(Seq<char>, Seq<char>)>) -> Seq<CriterionView> {
    ps.map_values(|p: (Seq<char>, Seq<char>)| CriterionView::TagFancyRegex(p.0, p.1))
}

/// Every criterion of a list passes its scan.
pub open spec fn all_pass(tags: Seq<(Seq<char>, Seq<char>)>, cs: Seq<CriterionView>) -> bool {
    forall|i: int| 0 <= i < cs.len() ==> scan_pass(tags, #[trigger] cs[i])
}

/// The proximity criterion: when one is configured, the record must have a
/// coordinate and the measured distance must be within the configured
/// bound — `within` reports that measurement's outcome.
pub open spec fn distance_pass(m: MatcherView, e: ElementView, within: Option<bool>) -> bool {
    match m.lat_lon_distance {
        None => true,
        Some(_) => e.lat_lon is Some && within == Some(true),
    }
}

/// Whether a record satisfies the whole criterion set: the proximity
/// criterion and every attribute criterion of every kind.
pub open spec fn matches_spec(m: MatcherView, e: ElementView, within: Option<bool>) -> bool {
    &&& distance_pass(m, e, within)
    &&& match m.name {
        Some(p) => scan_pass(e.tags, CriterionView::Name(p)),
        None => true,
    }
    &&& all_pass(e.tags, value_criteria(m.tag_value))
    &&& all_pass(e.tags, regex_criteria(m.tag_regex))
    &&& all_pass(e.tags, fancy_criteria(m.tag_fancy_regex))
}

/// A literal criterion's source splits into a key and a value at its
/// first `=`.
pub open spec fn tag_value_ok(s: Seq<char>) -> bool {
    split_first(s, '=') is Some
}

/// A linear-engine pattern pair: both sides of the first `=` compile.
pub open spec fn tag_regex_ok(s: Seq<char>) -> bool {
    match split_first(s, '=') {
        Some((k, v)) => regex_compiles(k) && regex_compiles(v),
        None => false,
    }
}

/// A backtracking-engine pattern pair: both sides of the first `=` compile.
pub open spec fn tag_fancy_ok(s: Seq<char>) -> bool {
    match split_first(s, '=') {
        Some((k, v)) => fancy_compiles(k) && fancy_compiles(v),
        None => false,
    }
}

/// A proximity query: exactly three comma-separated fields, each a
/// well-formed floating-point literal.
pub open spec fn triple_ok(s: Seq<char>) -> bool {
    let ps = split_all(s, ',');
    ps.len() == 3 && is_float_literal(ps[0]) && is_float_literal(ps[1]) && is_float_literal(ps[2])
}

/// The configured name pattern, if any, compiles.
pub open spec fn name_ok(n: Option<Seq<char>>) -> bool {
    match n {
        Some(p) => regex_compiles(p),
        None => true,
    }
}

/// The configured name pattern as text.
pub open spec fn cli_name(c: &Cli) -> Option<Seq<char>> {
    match c.name {
        Some(s) => Some(s@),
        None => None,
    }
}

/// The first configuration fault, checked in the order the builder works
/// through the configuration, or `None` when the whole configuration is
/// well-formed.
pub open spec fn build_error(c: &Cli) -> Option<ConfigError> {
    if !name_ok(cli_name(c)) {
        Some(ConfigError::InvalidPattern)
    } else if exists|i: int|
        0 <= i < c.tag_value.deep_view().len() && !tag_value_ok(#[trigger] c.tag_value.deep_view()[i]) {
        Some(ConfigError::MalformedPair)
    } else if exists|i: int|
        0 <= i < c.tag_regex.deep_view().len() && !tag_regex_ok(#[trigger] c.tag_regex.deep_view()[i]) {
        Some(ConfigError::InvalidPattern)
    } else if exists|i: int|
        0 <= i < c.tag_fancy_regex.deep_view().len() && !tag_fancy_ok(
            #[trigger] c.tag_fancy_regex.deep_view()[i],
        ) {
        Some(ConfigError::InvalidPattern)
    } else if (match c.lat_lon_distance {
        Some(s) => !triple_ok(s@),
        None => false,
    }) {
        Some(ConfigError::MalformedTriple)
    } else {
        None
    }
}

/// The key and value around the first `=` of a well-formed pair.
pub open spec fn split_pair(s: Seq<char>) -> (Seq<char>, Seq<char>)
    recommends
        split_first(s, '=') is Some,
{
    split_first(s, '=')->Some_0
}

/// The three fields of a well-formed proximity query.
pub open spec fn triple_fields(s: Seq<char>) -> (Seq<char>, Seq<char>, Seq<char>) {
    let ps = split_all(s, ',');
    (ps[0], ps[1], ps[2])
}

/// What a well-formed configuration compiles to.
pub open spec fn built_view(c: &Cli) -> MatcherView {
    MatcherView {
        name: cli_name(c),
        tag_value: c.tag_value.deep_view().map_values(|s: Seq<char>| split_pair(s)),
        tag_regex: c.tag_regex.deep_view().map_values(|s: Seq<char>| split_pair(s)),
        tag_fancy_regex: c.tag_fancy_regex.deep_view().map_values(|s: Seq<char>| split_pair(s)),
        lat_lon_distance: match c.lat_lon_distance {
            Some(s) => Some(triple_fields(s@)),
            None => None,
        },
    }
}

/// Compiles the hidden-attribute pattern on the linear engine.
pub fn compile_hidden(pattern: &str) -> (r: Result<regex::Regex, ConfigError>)
    ensures
        r is Ok <==> regex_compiles(pattern@),
        r matches Ok(re) ==> regex_pattern(re) == pattern@,
        r matches Err(e) ==> e == ConfigError::InvalidPattern,
{
    match regex_new(pattern) {
        Some(re) => Ok(re),
        None => Err(ConfigError::InvalidPattern),
    }
}

impl Matcher {
    /// Compiles the whole configuration into a criterion set, validating
    /// every criterion eagerly: each literal pair must have its separator,
    /// each pattern must compile on its engine, and a proximity query must
    /// be three parseable numbers. The first fault, in the order the
    /// configuration is worked through, is the error.
    #[verifier::loop_isolation(false)]
    pub fn from_cli(args: &Cli) -> (r: Result<Matcher, ConfigError>)
        ensures
            r is Ok <==> build_error(args) is None,
            r matches Ok(m) ==> m@ == built_view(args),
            r matches Err(e) ==> build_error(args) == Some(e),
    {
        // Name pattern.
        let name = match &args.name {
            Some(p) => match regex_new(p.as_str()) {
                Some(re) => Some(re),
                None => {
                    return Err(ConfigError::InvalidPattern);
                },
            },
            None => None,
        };
        // Literal key=value criteria.
        let n1 = args.tag_value.len();
        let mut tag_value: Vec<(String, String)> = Vec::new();
        let mut i: usize = 0;
        while i < n1
            invariant
                i <= n1,
                tag_value.deep_view() == args.tag_value.deep_view().take(i as int).map_values(
                    |s: Seq<char>| split_pair(s),
                ),
                forall|j: int| 0 <= j < i ==> tag_value_ok(
                    #[trigger] args.tag_value.deep_view()[j],
                ),
            decreases n1 - i,
        {
            proof {
                assert(args.tag_value.deep_view()[i as int] == args.tag_value@[i as int]@);
            }
            match split_once_at(args.tag_value[i].as_str(), '=') {
                Some((k, v)) => {
                    let ghost prev = tag_value.deep_view();
                    tag_value.push((k, v));
                    proof {
                        assert(tag_value.deep_view() =~= prev.push((k@, v@)));
                        assert(tag_value.deep_view() =~= args.tag_value.deep_view().take(
                            i + 1,
                        ).map_values(|s: Seq<char>| split_pair(s)));
                    }
                },
                None => {
                    return Err(ConfigError::MalformedPair);
                },
            }
            i = i + 1;
        }
        proof {
            assert(args.tag_value.deep_view().take(n1 as int) =~= args.tag_value.deep_view());
        }
        // Pattern pairs on the linear engine.
        let n2 = args.tag_regex.len();
        let mut tag_regex: Vec<(regex::Regex, regex::Regex)> = Vec::new();
        let mut i: usize = 0;
        while i < n2
            invariant
                i <= n2,
                tag_regex@.len() == i,
                forall|j: int| 0 <= j < i ==> tag_regex_ok(#[trigger] args.tag_regex.deep_view()[j]),
                forall|j: int| 0 <= j < i ==> (
                    regex_pattern(#[trigger] tag_regex@[j].0),
                    regex_pattern(tag_regex@[j].1),
                ) == split_pair(args.tag_regex.deep_view()[j]),
            decreases n2 - i,
        {
            proof {
                assert(args.tag_regex.deep_view()[i as int] == args.tag_regex@[i as int]@);
            }
            match split_once_at(args.tag_regex[i].as_str(), '=') {
                Some((k, v)) => {
                    let rk = match regex_new(k.as_str()) {
                        Some(re) => re,
                        None => {
                            return Err(ConfigError::InvalidPattern);
                        },
                    };
                    let rv = match regex_new(v.as_str()) {
                        Some(re) => re,
                        None => {
                            return Err(ConfigError::InvalidPattern);
                        },
                    };
                    tag_regex.push((rk, rv));
                },
                None => {
                    return Err(ConfigError::InvalidPattern);
                },
            }
            i = i + 1;
        }
        // Pattern pairs on the backtracking engine.
        let n3 = args.tag_fancy_regex.len();
        let mut tag_fancy_regex: Vec<(fancy_regex::Regex, fancy_regex::Regex)> = Vec::new();
        let mut i: usize = 0;
        while i < n3
            invariant
                i <= n3,
                tag_fancy_regex@.len() == i,
                forall|j: int| 0 <= j < i ==> tag_fancy_ok(
                    #[trigger] args.tag_fancy_regex.deep_view()[j],
                ),
                forall|j: int| 0 <= j < i ==> (
                    fancy_pattern(#[trigger] tag_fancy_regex@[j].0),
                    fancy_pattern(tag_fancy_regex@[j].1),
                ) == split_pair(args.tag_fancy_regex.deep_view()[j]),
            decreases n3 - i,
        {
            proof {
                assert(args.tag_fancy_regex.deep_view()[i as int]
                    == args.tag_fancy_regex@[i as int]@);
            }
            match split_once_at(args.tag_fancy_regex[i].as_str(), '=') {
                Some((k, v)) => {
                    let rk = match fancy_new(k.as_str()) {
                        Some(re) => re,
                        None => {
                            return Err(ConfigError::InvalidPattern);
                        },
                    };
                    let rv = match fancy_new(v.as_str()) {
                        Some(re) => re,
                        None => {
                            return Err(ConfigError::InvalidPattern);
                        },
                    };
                    tag_fancy_regex.push((rk, rv));
                },
                None => {
                    return Err(ConfigError::InvalidPattern);
                },
            }
            i = i + 1;
        }
        // Proximity query.
        let lat_lon_distance = match &args.lat_lon_distance {
            Some(s) => {
                let parts = split_all_at(s.as_str(), ',');
                if parts.len() != 3 {
                    return Err(ConfigError::MalformedTriple);
                }
                proof {
                    assert(parts.deep_view()[0] == parts@[0]@);
                    assert(parts.deep_view()[1] == parts@[1]@);
                    assert(parts.deep_view()[2] == parts@[2]@);
                }
                let ok0 = is_float_literal_str(parts[0].as_str());
                let ok1 = is_float_literal_str(parts[1].as_str());
                let ok2 = is_float_literal_str(parts[2].as_str());
                if !(ok0 && ok1 && ok2) {
                    return Err(ConfigError::MalformedTriple);
                }
                Some((parts[0].clone(), parts[1].clone(), parts[2].clone()))
            },
            None => None,
        };
        let m = Matcher { name, tag_value, tag_regex, tag_fancy_regex, lat_lon_distance };
        proof {
            assert(m@.tag_regex =~= built_view(args).tag_regex);
            assert(m@.tag_fancy_regex =~= built_view(args).tag_fancy_regex);
            assert(m@ == built_view(args));
        }
        Ok(m)
    }

    /// Evaluates the criterion set against one record, in the fixed order
    /// distance, name, literal pairs, linear pattern pairs, backtracking
    /// pattern pairs, stopping at the first criterion that fails.
    ///
    /// `within_max_distance` is the outcome of the caller's distance
    /// measurement against the configured bound, when it made one; it is
    /// only looked at when a proximity criterion is configured.
    #[verifier::loop_isolation(false)]
    pub fn matches(&self, element: &OwnedElement, within_max_distance: Option<bool>) -> (r: bool)
        ensures
            r == matches_spec(self@, element@, within_max_distance),
    {
        // Distance.
        if self.lat_lon_distance.is_some() {
            let coord_ok = element.lat_lon().is_some();
            let within_ok = match within_max_distance {
                Some(true) => true,
                _ => false,
            };
            if !(coord_ok && within_ok) {
                return false;
            }
        }
        // Name pattern.
        if let Some(re) = &self.name {
            if !find_tag_match(element, &Criterion::Name(re)) {
                return false;
            }
        }
        // Literal key=value criteria.
        let n1 = self.tag_value.len();
        let mut i: usize = 0;
        while i < n1
            invariant
                i <= n1,
                forall|j: int| 0 <= j < i ==> scan_pass(
                    element@.tags,
                    #[trigger] value_criteria(self@.tag_value)[j],
                ),
            decreases n1 - i,
        {
            let pair = &self.tag_value[i];
            let crit = Criterion::TagValue(&pair.0, &pair.1);
            proof {
                assert(self@.tag_value[i as int] == (pair.0@, pair.1@));
                assert(value_criteria(self@.tag_value)[i as int] == crit@);
            }
            if !find_tag_match(element, &crit) {
                return false;
            }
            i = i + 1;
        }
        // Pattern pairs on the linear engine.
        let n2 = self.tag_regex.len();
        let mut i: usize = 0;
        while i < n2
            invariant
                i <= n2,
                forall|j: int| 0 <= j < i ==> scan_pass(
                    element@.tags,
                    #[trigger] regex_criteria(self@.tag_regex)[j],
                ),
            decreases n2 - i,
        {
            let pair = &self.tag_regex[i];
            let crit = Criterion::TagRegex(&pair.0, &pair.1);
            proof {
                assert(regex_criteria(self@.tag_regex)[i as int] == crit@);
            }
            if !find_tag_match(element, &crit) {
                return false;
            }
            i = i + 1;
        }
        // Pattern pairs on the backtracking engine.
        let n3 = self.tag_fancy_regex.len();
        let mut i: usize = 0;
        while i < n3
            invariant
                i <= n3,
                forall|j: int| 0 <= j < i ==> scan_pass(
                    element@.tags,
                    #[trigger] fancy_criteria(self@.tag_fancy_regex)[j],
                ),
            decreases n3 - i,
        {
            let pair = &self.tag_fancy_regex[i];
            let crit = Criterion::TagFancyRegex(&pair.0, &pair.1);
            proof {
                assert(fancy_criteria(self@.tag_fancy_regex)[i as int] == crit@);
            }
            if !find_tag_match(element, &crit) {
                return false;
            }
            i = i + 1;
        }
        true
    }
}


/// Attribute keys all different from one another.
pub open spec fn keys_unique(tags: Seq<(Seq<char>, Seq<char>)>) -> bool {
    forall|i: int, j: int| 0 <= i < j < tags.len() ==> (#[trigger] tags[i]).0 != (#[trigger] tags[j]).0
}

/// Canonically ordered attribute keys are unique.
pub proof fn lemma_sorted_keys_unique(tags: Seq<(Seq<char>, Seq<char>)>)
    requires
        crate::element::tags_sorted(tags),
    ensures
        keys_unique(tags),
{
    assert forall|i: int, j: int| 0 <= i < j < tags.len() implies (#[trigger] tags[i]).0 != (
    #[trigger] tags[j]).0 by {
        if tags[i].0 == tags[j].0 {
            crate::text::lemma_lex_lt_irreflexive(tags[i].0);
        }
    }
}

/// A literal criterion accepts exactly the records whose attribute list
/// holds the pair, key and value both: with unique keys, the single-pass
/// scan can neither miss the pair nor be fooled by another value under the
/// same key.
pub proof fn lemma_literal_criterion_exact(
    tags: Seq<(Seq<char>, Seq<char>)>,
    k: Seq<char>,
    v: Seq<char>,
)
    requires
        keys_unique(tags),
    ensures
        scan_pass(tags, CriterionView::TagValue(k, v)) <==> tags.contains((k, v)),
    decreases tags.len(),
{
    if tags.len() > 0 {
        if tags[0].0 == k {
            if tags[0].1 == v {
                assert(tags[0] == (k, v));
                assert(tags.contains((k, v)));
            } else {
                assert(!tags.contains((k, v))) by {
                    if tags.contains((k, v)) {
                        let j = choose|j: int| 0 <= j < tags.len() && tags[j] == (k, v);
                        assert(j > 0);
                        assert(tags[0].0 == tags[j].0);
                        assert(false);
                    }
                }
            }
        } else {
            assert(keys_unique(tags.drop_first())) by {
                assert forall|a: int, b: int|
                    0 <= a < b < tags.drop_first().len() implies (#[trigger] tags.drop_first()[a]).0
                    != (#[trigger] tags.drop_first()[b]).0 by {
                    assert(tags.drop_first()[a] == tags[a + 1]);
                    assert(tags.drop_first()[b] == tags[b + 1]);
                }
            }
            lemma_literal_criterion_exact(tags.drop_first(), k, v);
            assert(tags.contains((k, v)) <==> tags.drop_first().contains((k, v))) by {
                if tags.contains((k, v)) {
                    let j = choose|j: int| 0 <= j < tags.len() && tags[j] == (k, v);
                    assert(j > 0);
                    assert(tags.drop_first()[j - 1] == tags[j]);
                    assert(tags.drop_first().contains((k, v)));
                }
                if tags.drop_first().contains((k, v)) {
                    let j = choose|j: int|
                        0 <= j < tags.drop_first().len() && tags.drop_first()[j] == (k, v);
                    assert(tags[j + 1] == (k, v));
                    assert(tags.contains((k, v)));
                }
            }
        }
    }
}

/// A pattern-pair criterion whose value pattern accepts every text passes
/// exactly when some attribute key satisfies the key pattern.
pub proof fn lemma_pattern_pair_total_value(
    tags: Seq<(Seq<char>, Seq<char>)>,
    kp: Seq<char>,
    vp: Seq<char>,
)
    requires
        forall|t: Seq<char>| regex_match(vp, t),
    ensures
        scan_pass(tags, CriterionView::TagRegex(kp, vp)) <==> exists|i: int|
            0 <= i < tags.len() && #[trigger] regex_match(kp, tags[i].0),
    decreases tags.len(),
{
    if tags.len() > 0 {
        if regex_match(kp, tags[0].0) {
            assert(scan_pass(tags, CriterionView::TagRegex(kp, vp)));
        } else {
            lemma_pattern_pair_total_value(tags.drop_first(), kp, vp);
            assert((exists|i: int| 0 <= i < tags.len() && #[trigger] regex_match(kp, tags[i].0))
                <==> (exists|i: int|
                0 <= i < tags.drop_first().len() && #[trigger] regex_match(
                    kp,
                    tags.drop_first()[i].0,
                ))) by {
                if exists|i: int| 0 <= i < tags.len() && #[trigger] regex_match(kp, tags[i].0) {
                    let i = choose|i: int|
                        0 <= i < tags.len() && #[trigger] regex_match(kp, tags[i].0);
                    assert(i > 0);
                    assert(tags.drop_first()[i - 1] == tags[i]);
                    assert(regex_match(kp, tags.drop_first()[i - 1].0));
                }
                if exists|i: int|
                    0 <= i < tags.drop_first().len() && #[trigger] regex_match(
                        kp,
                        tags.drop_first()[i].0,
                    ) {
                    let i = choose|i: int|
                        0 <= i < tags.drop_first().len() && #[trigger] regex_match(
                            kp,
                            tags.drop_first()[i].0,
                        );
                    assert(tags[i + 1] == tags.drop_first()[i]);
                    assert(regex_match(kp, tags[i + 1].0));
                }
            }
        }
    }
}

/// Scanning passes for every criterion of a list exactly when it does for
/// every criterion of any rearrangement of that list.
proof fn lemma_mapped_all_pass_permuted(
    tags: Seq<(Seq<char>, Seq<char>)>,
    ps1: Seq<(Seq<char>, Seq<char>)>,
    ps2: Seq<(Seq<char>, Seq<char>)>,
    f: spec_fn((Seq<char>, Seq<char>)) -> CriterionView,
)
    requires
        ps1.to_multiset() == ps2.to_multiset(),
    ensures
        all_pass(tags, ps1.map_values(f)) == all_pass(tags, ps2.map_values(f)),
{
    if all_pass(tags, ps1.map_values(f)) {
        assert forall|i: int| 0 <= i < ps2.map_values(f).len() implies scan_pass(
            tags,
            #[trigger] ps2.map_values(f)[i],
        ) by {
            assert(ps2[i] == ps2[i]);
            assert(ps2.contains(ps2[i]));
            vstd::seq_lib::to_multiset_contains(ps2, ps2[i]);
            vstd::seq_lib::to_multiset_contains(ps1, ps2[i]);
            let j = choose|j: int| 0 <= j < ps1.len() && ps1[j] == ps2[i];
            assert(ps1.map_values(f)[j] == f(ps1[j]));
            assert(scan_pass(tags, ps1.map_values(f)[j]));
        }
    }
    if all_pass(tags, ps2.map_values(f)) {
        assert forall|i: int| 0 <= i < ps1.map_values(f).len() implies scan_pass(
            tags,
            #[trigger] ps1.map_values(f)[i],
        ) by {
            assert(ps1.contains(ps1[i]));
            vstd::seq_lib::to_multiset_contains(ps1, ps1[i]);
            vstd::seq_lib::to_multiset_contains(ps2, ps1[i]);
            let j = choose|j: int| 0 <= j < ps2.len() && ps2[j] == ps1[i];
            assert(ps2.map_values(f)[j] == f(ps2[j]));
            assert(scan_pass(tags, ps2.map_values(f)[j]));
        }
    }
}

/// Reordering the independent criteria of a configuration cannot change
/// the accept/reject outcome for any record: the criteria are combined by
/// logical AND, which has no regard for order.
pub proof fn lemma_matches_order_independent(
    m1: MatcherView,
    m2: MatcherView,
    e: ElementView,
    within: Option<bool>,
)
    requires
        m1.name == m2.name,
        m1.lat_lon_distance == m2.lat_lon_distance,
        m1.tag_value.to_multiset() == m2.tag_value.to_multiset(),
        m1.tag_regex.to_multiset() == m2.tag_regex.to_multiset(),
        m1.tag_fancy_regex.to_multiset() == m2.tag_fancy_regex.to_multiset(),
    ensures
        matches_spec(m1, e, within) == matches_spec(m2, e, within),
{
    let fv = |p: (Seq<char>, Seq<char>)| CriterionView::TagValue(p.0, p.1);
    let fr = |p: (Seq<char>, Seq<char>)| CriterionView::TagRegex(p.0, p.1);
    let ff = |p: (Seq<char>, Seq<char>)| CriterionView::TagFancyRegex(p.0, p.1);
    assert(value_criteria(m1.tag_value) =~= m1.tag_value.map_values(fv));
    assert(value_criteria(m2.tag_value) =~= m2.tag_value.map_values(fv));
    assert(regex_criteria(m1.tag_regex) =~= m1.tag_regex.map_values(fr));
    assert(regex_criteria(m2.tag_regex) =~= m2.tag_regex.map_values(fr));
    assert(fancy_criteria(m1.tag_fancy_regex) =~= m1.tag_fancy_regex.map_values(ff));
    assert(fancy_criteria(m2.tag_fancy_regex) =~= m2.tag_fancy_regex.map_values(ff));
    lemma_mapped_all_pass_permuted(e.tags, m1.tag_value, m2.tag_value, fv);
    lemma_mapped_all_pass_permuted(e.tags, m1.tag_regex, m2.tag_regex, fr);
    lemma_mapped_all_pass_permuted(e.tags, m1.tag_fancy_regex, m2.tag_fancy_regex, ff);
}

} // verus!
