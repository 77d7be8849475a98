use geoutils::Location;
use mapfilter::cli::Cli;
use mapfilter::element::OwnedElement;
use mapfilter::matcher::ConfigError;
use mapfilter::matcher::Matcher;

fn element(id: i64, tags: &[(&str, &str)], lat_lon: Option<(f64, f64)>) -> OwnedElement {
    let tags: Vec<(String, String)> = tags
        .iter()
        .map(|(k, v)| (k.to_string(), v.to_string()))
        .collect();
    let bits = lat_lon.map(|(lat, lon)| (lat.to_bits(), lon.to_bits()));
    OwnedElement::new(id, tags, bits).expect("tags must be given in canonical order")
}

fn cli() -> Cli {
    Cli::new("unused.osm.pbf".to_string())
}

#[test]
fn empty_criterion_set_accepts_everything() {
    let m = Matcher::from_cli(&cli()).unwrap();
    assert!(m.matches(&element(1, &[], None), None));
    assert!(m.matches(&element(2, &[("highway", "primary")], None), None));
    // Without a proximity criterion the measurement outcome is not looked at.
    assert!(m.matches(&element(3, &[], None), Some(false)));
}

#[test]
fn literal_criterion_exact_pairs() {
    let mut c = cli();
    c.tag_value = vec!["highway=primary".to_string()];
    let m = Matcher::from_cli(&c).unwrap();
    assert!(m.matches(&element(1, &[("highway", "primary")], None), None));
    assert!(m.matches(
        &element(2, &[("highway", "primary"), ("name", "A1")], None),
        None
    ));
    // Same key, different value: rejected.
    assert!(!m.matches(&element(3, &[("highway", "secondary")], None), None));
    // Key absent: rejected.
    assert!(!m.matches(&element(4, &[("name", "primary")], None), None));
    assert!(!m.matches(&element(5, &[], None), None));
}

#[test]
fn literal_criterion_splits_at_first_separator() {
    let mut c = cli();
    c.tag_value = vec!["note=a=b".to_string()];
    let m = Matcher::from_cli(&c).unwrap();
    assert!(m.matches(&element(1, &[("note", "a=b")], None), None));
    assert!(!m.matches(&element(2, &[("note", "a")], None), None));
}

#[test]
fn pattern_pair_with_total_value_pattern() {
    let mut c = cli();
    c.tag_regex = vec!["^name.*=.*".to_string()];
    let m = Matcher::from_cli(&c).unwrap();
    assert!(m.matches(&element(1, &[("name", "Berlin")], None), None));
    assert!(m.matches(&element(2, &[("name:en", "")], None), None));
    assert!(m.matches(
        &element(3, &[("amenity", "cafe"), ("name:de", "x")], None),
        None
    ));
    assert!(!m.matches(&element(4, &[("amenity", "cafe")], None), None));
    assert!(!m.matches(&element(5, &[], None), None));
}

#[test]
fn pattern_pair_first_key_match_decides() {
    // Only the first attribute whose key satisfies the key pattern is
    // evaluated; a later attribute that would have matched cannot help.
    let mut c = cli();
    c.tag_regex = vec!["^name.*=^X.*".to_string()];
    let m = Matcher::from_cli(&c).unwrap();
    // Canonical order puts name:a before name:b; name:a mismatches.
    assert!(!m.matches(
        &element(1, &[("name:a", "Q"), ("name:b", "X")], None),
        None
    ));
    assert!(m.matches(
        &element(2, &[("name:a", "X"), ("name:b", "Q")], None),
        None
    ));
}

#[test]
fn name_criterion() {
    let mut c = cli();
    c.name = Some("^Ber.*".to_string());
    let m = Matcher::from_cli(&c).unwrap();
    assert!(m.matches(&element(1, &[("name", "Berlin")], None), None));
    assert!(!m.matches(&element(2, &[("name", "Paris")], None), None));
    assert!(!m.matches(&element(3, &[("amenity", "cafe")], None), None));
    // A mismatching name settles the criterion even among other attributes.
    assert!(!m.matches(
        &element(4, &[("amenity", "cafe"), ("name", "Paris")], None),
        None
    ));
}

#[test]
fn default_configuration() {
    let c = cli();
    assert_eq!(c.max_results, 100);
    assert!(!c.debug);
    assert!(c.name.is_none());
    assert!(c.lat_lon_distance.is_none());
    assert_eq!(
        c.hidden_tags,
        "^(name:.*|alt_name.*|old_name:.*|is_in:.*|wikidata|wikipedia|wikimedia.*|admin_level)$"
    );
}

#[test]
fn backtracking_engine_supports_lookahead() {
    let mut c = cli();
    c.tag_fancy_regex = vec!["highway=(?=prim).*".to_string()];
    let m = Matcher::from_cli(&c).unwrap();
    assert!(m.matches(&element(1, &[("highway", "primary")], None), None));
    assert!(!m.matches(&element(2, &[("highway", "secondary")], None), None));
    // The linear engine refuses the same construct at build time.
    let mut c2 = cli();
    c2.tag_regex = vec!["highway=(?=prim).*".to_string()];
    assert_eq!(
        Matcher::from_cli(&c2).unwrap_err(),
        ConfigError::InvalidPattern
    );
}

#[test]
fn criteria_order_does_not_change_outcomes() {
    let mut c1 = cli();
    c1.tag_value = vec!["amenity=cafe".to_string(), "cuisine=coffee".to_string()];
    c1.tag_regex = vec!["^name.*=.*".to_string(), "^addr.*=^B.*".to_string()];
    let mut c2 = cli();
    c2.tag_value = vec!["cuisine=coffee".to_string(), "amenity=cafe".to_string()];
    c2.tag_regex = vec!["^addr.*=^B.*".to_string(), "^name.*=.*".to_string()];
    let m1 = Matcher::from_cli(&c1).unwrap();
    let m2 = Matcher::from_cli(&c2).unwrap();
    let samples = [
        element(
            1,
            &[
                ("addr:city", "Berlin"),
                ("amenity", "cafe"),
                ("cuisine", "coffee"),
                ("name", "X"),
            ],
            None,
        ),
        element(
            2,
            &[
                ("addr:city", "Paris"),
                ("amenity", "cafe"),
                ("cuisine", "coffee"),
                ("name", "X"),
            ],
            None,
        ),
        element(3, &[("amenity", "cafe")], None),
        element(4, &[], None),
    ];
    for e in &samples {
        assert_eq!(m1.matches(e, None), m2.matches(e, None));
    }
}

#[test]
fn config_errors() {
    let mut c = cli();
    c.tag_value = vec!["nokey".to_string()];
    assert_eq!(
        Matcher::from_cli(&c).unwrap_err(),
        ConfigError::MalformedPair
    );

    let mut c = cli();
    c.tag_regex = vec!["nopair".to_string()];
    assert_eq!(
        Matcher::from_cli(&c).unwrap_err(),
        ConfigError::InvalidPattern
    );

    let mut c = cli();
    c.tag_regex = vec!["(=x".to_string()];
    assert_eq!(
        Matcher::from_cli(&c).unwrap_err(),
        ConfigError::InvalidPattern
    );

    let mut c = cli();
    c.tag_fancy_regex = vec!["a=(".to_string()];
    assert_eq!(
        Matcher::from_cli(&c).unwrap_err(),
        ConfigError::InvalidPattern
    );

    let mut c = cli();
    c.name = Some("(".to_string());
    assert_eq!(
        Matcher::from_cli(&c).unwrap_err(),
        ConfigError::InvalidPattern
    );

    let mut c = cli();
    c.lat_lon_distance = Some("1,2".to_string());
    assert_eq!(
        Matcher::from_cli(&c).unwrap_err(),
        ConfigError::MalformedTriple
    );

    let mut c = cli();
    c.lat_lon_distance = Some("1,2,3,4".to_string());
    assert_eq!(
        Matcher::from_cli(&c).unwrap_err(),
        ConfigError::MalformedTriple
    );

    let mut c = cli();
    c.lat_lon_distance = Some("1,2,abc".to_string());
    assert_eq!(
        Matcher::from_cli(&c).unwrap_err(),
        ConfigError::MalformedTriple
    );

    let mut c = cli();
    c.lat_lon_distance = Some("52.52,13.405,1000".to_string());
    let m = Matcher::from_cli(&c).unwrap();
    assert_eq!(
        m.lat_lon_distance,
        Some(("52.52".to_string(), "13.405".to_string(), "1000".to_string()))
    );
}

#[test]
fn config_error_precedence_follows_build_order() {
    let mut c = cli();
    c.name = Some("(".to_string());
    c.tag_value = vec!["nokey".to_string()];
    // The name pattern is compiled first, so its fault wins.
    assert_eq!(
        Matcher::from_cli(&c).unwrap_err(),
        ConfigError::InvalidPattern
    );
}

fn within(query: Option<(f64, f64, f64)>, e: &OwnedElement) -> Option<bool> {
    // The same measurement the unverified rim makes per record.
    match (query, e.lat_lon()) {
        (Some((qlat, qlon, max_m)), Some((lat_bits, lon_bits))) => {
            let here = Location::new(f64::from_bits(lat_bits), f64::from_bits(lon_bits));
            let there = Location::new(qlat, qlon);
            Some(here.haversine_distance_to(&there).meters() <= max_m)
        }
        _ => None,
    }
}

#[test]
fn distance_boundary() {
    let berlin = (52.52, 13.405);
    let nearby = (52.529, 13.405);
    let e = element(1, &[], Some(nearby));
    let d = Location::new(nearby.0, nearby.1)
        .haversine_distance_to(&Location::new(berlin.0, berlin.1))
        .meters();
    assert!(d > 900.0 && d < 1100.0);

    // A bound exactly at the measured distance: accepted.
    let mut c = cli();
    c.lat_lon_distance = Some(format!("{:?},{:?},{:?}", berlin.0, berlin.1, d));
    let m = Matcher::from_cli(&c).unwrap();
    let q = Some((berlin.0, berlin.1, d));
    assert_eq!(within(q, &e), Some(true));
    assert!(m.matches(&e, within(q, &e)));

    // A bound just below the measured distance: rejected.
    let d_less = f64::from_bits(d.to_bits() - 1);
    let q2 = Some((berlin.0, berlin.1, d_less));
    assert_eq!(within(q2, &e), Some(false));
    assert!(!m.matches(&e, within(q2, &e)));

    // A record coincident with the query point, bound zero: accepted.
    let at_origin = element(2, &[], Some(berlin));
    let q0 = Some((berlin.0, berlin.1, 0.0));
    assert_eq!(within(q0, &at_origin), Some(true));
    assert!(m.matches(&at_origin, within(q0, &at_origin)));

    // A record without a coordinate never satisfies a proximity criterion.
    let no_coord = element(3, &[], None);
    assert_eq!(within(q, &no_coord), None);
    assert!(!m.matches(&no_coord, within(q, &no_coord)));
}

#[test]
fn element_construction_requires_canonical_order() {
    let unsorted = vec![
        ("name".to_string(), "x".to_string()),
        ("amenity".to_string(), "cafe".to_string()),
    ];
    assert!(OwnedElement::new(1, unsorted, None).is_none());
    let duplicate = vec![
        ("amenity".to_string(), "cafe".to_string()),
        ("amenity".to_string(), "bar".to_string()),
    ];
    assert!(OwnedElement::new(2, duplicate, None).is_none());
    let sorted = vec![
        ("amenity".to_string(), "cafe".to_string()),
        ("name".to_string(), "x".to_string()),
    ];
    assert!(OwnedElement::new(3, sorted, None).is_some());
}

#[test]
fn get_name_truncates_long_names() {
    let e = element(1, &[("name", "Berlin")], None);
    assert_eq!(e.get_name(), Some("Berlin".to_string()));

    let long = "a".repeat(60);
    let e2 = element(2, &[("name", long.as_str())], None);
    let mut expected = "a".repeat(50);
    expected.push_str("...");
    assert_eq!(e2.get_name(), Some(expected));

    let e3 = element(3, &[("amenity", "cafe")], None);
    assert_eq!(e3.get_name(), None);
}
