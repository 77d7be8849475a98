//! The configuration surface: everything a run is told on the command
//! line, as plain values. The unverified rim fills this in from the
//! actual argument parser.

use vstd::prelude::*;

verus! {

/// The display cap used when none is configured.
pub const DEFAULT_MAX_RESULTS: u64 = 100;

/// One run's configuration.
#[derive(Debug)]
pub struct Cli {
    /// Path to the record collection to scan.
    pub map_file: String,
    /// Echo the parsed configuration before running.
    pub debug: bool,
    /// Display cap: how many matches the consumer renders.
    pub max_results: u64,
    /// Pattern the `name` attribute must satisfy, if given.
    pub name: Option<String>,
    /// Literal `key=value` attribute criteria.
    pub tag_value: Vec<String>,
    /// `pattern=pattern` criteria for the linear engine.
    pub tag_regex: Vec<String>,
    /// `pattern=pattern` criteria for the backtracking engine.
    pub tag_fancy_regex: Vec<String>,
    /// `lat,lon,meters` proximity criterion, if given.
    pub lat_lon_distance: Option<String>,
    /// Pattern selecting attribute names left out of rendered output.
    pub hidden_tags: String,
}

impl Cli {
    /// A configuration with only the collection path set: no criteria, the
    /// default display cap, and the default hidden-attribute pattern.
    pub fn new(map_file: String) -> (c: Cli)
        ensures
            c.map_file == map_file,
            c.debug == false,
            c.max_results == DEFAULT_MAX_RESULTS,
            c.name is None,
            c.tag_value@.len() == 0,
            c.tag_regex@.len() == 0,
            c.tag_fancy_regex@.len() == 0,
            c.lat_lon_distance is None,
            c.hidden_tags@ == default_hidden_tags(),
    {
        Cli {
            map_file,
            debug: false,
            max_results: DEFAULT_MAX_RESULTS,
            name: None,
            tag_value: Vec::new(),
            tag_regex: Vec::new(),
            tag_fancy_regex: Vec::new(),
            lat_lon_distance: None,
            hidden_tags: String::from_str(
                "^(name:.*|alt_name.*|old_name:.*|is_in:.*|wikidata|wikipedia|wikimedia.*|admin_level)$",
            ),
        }
    }
}

/// The default pattern for attribute names that rendered output omits:
/// locale-suffixed name variants, external links and administrative
/// metadata.
pub open spec fn default_hidden_tags() -> Seq<char> {
    "^(name:.*|alt_name.*|old_name:.*|is_in:.*|wikidata|wikipedia|wikimedia.*|admin_level)$"@
}

} // verus!
