use mapfilter::cli::Cli;
use mapfilter::element::OwnedElement;
use mapfilter::matcher::compile_hidden;
use mapfilter::matcher::Matcher;
use mapfilter::render::node_link;
use mapfilter::render::tag_lines;
use mapfilter::scan::displayed_count;
use mapfilter::scan::drain_tally;
use mapfilter::scan::merge_counts;
use mapfilter::scan::scan_records;
use mapfilter::scan::should_render;

fn element(id: i64, tags: &[(&str, &str)]) -> OwnedElement {
    let tags: Vec<(String, String)> = tags
        .iter()
        .map(|(k, v)| (k.to_string(), v.to_string()))
        .collect();
    OwnedElement::new(id, tags, None).expect("tags must be given in canonical order")
}

#[test]
fn node_links() {
    assert_eq!(node_link(240109189), "http://openstreetmap.org/node/240109189");
    assert_eq!(node_link(-7), "http://openstreetmap.org/node/-7");
}

#[test]
fn hidden_attributes_never_rendered() {
    let hidden = compile_hidden(Cli::new(String::new()).hidden_tags.as_str()).unwrap();
    let e = element(
        1,
        &[
            ("amenity", "cafe"),
            ("name", "K"),
            ("name:en", "K"),
            ("wikidata", "Q64"),
            ("wikipedia", "de:K"),
        ],
    );
    let lines = tag_lines(&e, &hidden);
    for line in &lines {
        assert!(!line.contains("wikidata"));
        assert!(!line.contains("wikipedia"));
        assert!(!line.contains("name:en"));
    }
    // The record itself still holds the hidden attribute, and a criterion
    // can still reference it.
    assert!(e.tags().iter().any(|kv| kv.0 == "wikidata"));
    let mut c = Cli::new(String::new());
    c.tag_value = vec!["wikidata=Q64".to_string()];
    let m = Matcher::from_cli(&c).unwrap();
    assert!(m.matches(&e, None));
    // The visible attributes are all there.
    let joined = lines.join("\n");
    assert!(joined.contains("amenity: cafe"));
    assert!(joined.contains("name: K"));
}

#[test]
fn tag_block_exact_line() {
    let hidden = compile_hidden("^$").unwrap();
    let e = element(1, &[("amenity", "cafe"), ("cuisine", "coffee")]);
    assert_eq!(
        tag_lines(&e, &hidden),
        vec!["amenity: cafe  cuisine: coffee  ".to_string()]
    );
}

#[test]
fn tag_block_wraps_near_width() {
    let hidden = compile_hidden("^$").unwrap();
    let v1 = "x".repeat(50);
    let v2 = "y".repeat(50);
    let e = element(1, &[("aa", v1.as_str()), ("bb", v2.as_str())]);
    let lines = tag_lines(&e, &hidden);
    // Each chunk is 56 characters; the second would carry the line to 112,
    // so it starts a line of its own.
    assert_eq!(lines.len(), 2);
    assert_eq!(lines[0], format!("aa: {}  ", v1));
    assert_eq!(lines[1], format!("bb: {}  ", v2));

    let short = element(2, &[("aa", "1"), ("bb", "2")]);
    assert_eq!(tag_lines(&short, &hidden).len(), 1);
}

#[test]
fn cap_behavior() {
    // Ten matches, cap three: indices 1, 2, 3 are rendered, the fourth
    // arrival triggers the truncation notice, and the summary reports
    // displayed = 3.
    let cap = 3u64;
    let mut rendered: Vec<u64> = Vec::new();
    let mut truncated = false;
    let mut index = 0u64;
    for _arrival in 0..10 {
        index += 1;
        if should_render(index, cap) {
            rendered.push(index);
        } else {
            truncated = true;
            break;
        }
    }
    assert_eq!(rendered, vec![1, 2, 3]);
    assert!(truncated);
    assert_eq!(drain_tally(10, 3), (3, true));
    assert_eq!(drain_tally(2, 3), (2, false));
    assert_eq!(drain_tally(3, 3), (3, false));
    assert_eq!(displayed_count(10, 3), 3);
    assert_eq!(displayed_count(2, 3), 2);
}

#[test]
fn counts_are_partition_independent() {
    let mut c = Cli::new(String::new());
    c.tag_value = vec!["highway=primary".to_string()];
    let m = Matcher::from_cli(&c).unwrap();
    let records: Vec<(OwnedElement, Option<bool>)> = (0..7)
        .map(|i| {
            let e = if i % 2 == 0 {
                element(i, &[("highway", "primary")])
            } else {
                element(i, &[("highway", "secondary")])
            };
            (e, None)
        })
        .collect();

    let whole = scan_records(&m, &records);
    assert_eq!(whole, (4, 7));

    // The same records cut into partitions of different shapes.
    for split in [1usize, 2, 3, 5, 6] {
        let (left, right): (Vec<_>, Vec<_>) = {
            let mut l = Vec::new();
            let mut r = Vec::new();
            for (i, (e, w)) in records.iter().enumerate() {
                let copy = (
                    OwnedElement::new(
                        e.id(),
                        e.tags().clone(),
                        e.lat_lon(),
                    )
                    .unwrap(),
                    *w,
                );
                if i < split {
                    l.push(copy);
                } else {
                    r.push(copy);
                }
            }
            (l, r)
        };
        let merged = merge_counts(scan_records(&m, &left), scan_records(&m, &right));
        assert_eq!(merged, whole);
    }
}
