use orbit_core::catalog::{Catalog, TleData};
use orbit_core::parser::parse_catalog;

const ISS_1: &str = "1 25544U 98067A   20194.88612269 -.00002218  00000-0 -31515-4 0  9992";
const ISS_2: &str = "2 25544  51.6461 221.2784 0001413  89.1723 280.4612 15.49507896236008";
const HST_1: &str = "1 20580U 90037B   20194.52117282  .00000423  00000-0  14661-4 0  9996";
const HST_2: &str = "2 20580  28.4703  87.7950 0002749 252.6957 263.5014 15.09299334456915";

fn record(name: &str, line1: &str, line2: &str) -> TleData {
    TleData { name: name.to_string(), line1: line1.to_string(), line2: line2.to_string() }
}

#[test]
fn parses_one_group() {
    let text = format!("ISS (ZARYA)\n{}\n{}\n", ISS_1, ISS_2);
    let catalog = parse_catalog(&text);
    assert_eq!(catalog.len(), 1);
    let r = catalog.get("ISS (ZARYA)").unwrap();
    assert_eq!(r.name, "ISS (ZARYA)");
    assert_eq!(r.line1, ISS_1);
    assert_eq!(r.line2, ISS_2);
}

#[test]
fn empty_text_gives_empty_catalog() {
    assert!(parse_catalog("").is_empty());
    assert!(parse_catalog("\n\n  \n").is_empty());
}

#[test]
fn lines_are_trimmed_and_carriage_returns_removed() {
    let text = format!("  ISS (ZARYA)  \r\n\t{}  \r\n{}\r\n", ISS_1, ISS_2);
    let catalog = parse_catalog(&text);
    assert_eq!(catalog.len(), 1);
    let r = catalog.get("ISS (ZARYA)").unwrap();
    assert_eq!(r.line1, ISS_1);
    assert_eq!(r.line2, ISS_2);
}

#[test]
fn unicode_white_space_is_trimmed() {
    let text = format!("\u{3000}ISS\u{a0}\n\u{2003}{}\u{2028}\n{}\u{85}", ISS_1, ISS_2);
    let catalog = parse_catalog(&text);
    assert_eq!(catalog.len(), 1);
    let r = catalog.get("ISS").unwrap();
    assert_eq!(r.line1, ISS_1);
    assert_eq!(r.line2, ISS_2);
}

#[test]
fn blank_lines_between_groups_are_skipped() {
    let text = format!("\n\nISS\n{}\n{}\n\n   \nHST\n{}\n{}", ISS_1, ISS_2, HST_1, HST_2);
    let catalog = parse_catalog(&text);
    assert_eq!(catalog.len(), 2);
    assert_eq!(catalog.get("HST").unwrap().line2, HST_2);
    assert_eq!(catalog.record(0).name, "ISS");
    assert_eq!(catalog.record(1).name, "HST");
}

#[test]
fn malformed_group_is_dropped_and_the_rest_parsed() {
    let text = format!("BAD\nx 25544U\ny 25544\nISS\n{}\n{}\nHST\n{}\n{}\n", ISS_1, ISS_2, HST_1, HST_2);
    let catalog = parse_catalog(&text);
    assert_eq!(catalog.len(), 2);
    assert!(!catalog.contains("BAD"));
    assert!(catalog.contains("ISS"));
    assert!(catalog.contains("HST"));
}

#[test]
fn malformed_group_in_the_middle_is_dropped() {
    let text = format!("ISS\n{}\n{}\nBAD\n{}\n{}\nHST\n{}\n{}\n", ISS_1, ISS_2, ISS_2, ISS_1, HST_1, HST_2);
    let catalog = parse_catalog(&text);
    assert_eq!(catalog.len(), 2);
    assert!(!catalog.contains("BAD"));
    assert_eq!(catalog.get("ISS").unwrap().line1, ISS_1);
    assert_eq!(catalog.get("HST").unwrap().line1, HST_1);
}

#[test]
fn marker_needs_digit_and_blank() {
    let text = "A\n1X\n2 y\nB\n1 x\n2y\nC\n1 \n2 \nD\n1\n2\n";
    let catalog = parse_catalog(text);
    // trimming leaves "1" and "2" for C and D: no blank after the digit
    assert_eq!(catalog.len(), 0);
    let text = "E\n1 a\n2 b\n";
    let catalog = parse_catalog(text);
    assert_eq!(catalog.len(), 1);
    assert_eq!(catalog.get("E").unwrap().line1, "1 a");
    assert_eq!(catalog.get("E").unwrap().line2, "2 b");
}

#[test]
fn incomplete_last_group_is_dropped() {
    let text = format!("ISS\n{}\n{}\nHST\n{}\n", ISS_1, ISS_2, HST_1);
    let catalog = parse_catalog(&text);
    assert_eq!(catalog.len(), 1);
    assert!(catalog.contains("ISS"));
    assert!(!catalog.contains("HST"));
}

#[test]
fn empty_line_inside_a_group_counts_as_a_line() {
    // the empty line is the group's first element line, so the group is
    // dropped and the next group starts three lines after the name
    let text = format!("ISS\n\n{}\n{}\nHST\n{}\n{}\n", ISS_1, ISS_2, HST_1, HST_2);
    let catalog = parse_catalog(&text);
    // groups: (ISS, "", ISS_1) dropped; (ISS_2, HST, HST_1) dropped; HST_2 alone
    assert_eq!(catalog.len(), 0);
}

#[test]
fn later_record_replaces_earlier_of_same_name() {
    let text = format!("SAT\n{}\n{}\nSAT\n{}\n{}\n", ISS_1, ISS_2, HST_1, HST_2);
    let catalog = parse_catalog(&text);
    assert_eq!(catalog.len(), 1);
    assert_eq!(catalog.get("SAT").unwrap().line1, HST_1);
    assert_eq!(catalog.get("SAT").unwrap().line2, HST_2);
}

#[test]
fn catalog_insert_and_lookup() {
    let mut c = Catalog::new();
    assert!(c.is_empty());
    c.insert(record("A", "1 a", "2 a"));
    c.insert(record("B", "1 b", "2 b"));
    assert_eq!(c.len(), 2);
    assert!(c.contains("A"));
    assert!(!c.contains("C"));
    assert!(c.get("C").is_none());
    c.insert(record("A", "1 c", "2 c"));
    assert_eq!(c.len(), 2);
    assert_eq!(c.get("A").unwrap().line1, "1 c");
    assert_eq!(c.record(0).name, "A");
    assert_eq!(c.record(0).line2, "2 c");
    assert_eq!(c.record(1).name, "B");
}

#[test]
fn catalog_clone_keeps_records() {
    let mut c = Catalog::new();
    c.insert(record("A", "1 a", "2 a"));
    c.insert(record("B", "1 b", "2 b"));
    let d = c.clone();
    c.insert(record("C", "1 c", "2 c"));
    assert_eq!(d.len(), 2);
    assert_eq!(d.get("B").unwrap().line1, "1 b");
    assert_eq!(d.record(0).name, "A");
    assert!(!d.contains("C"));
}
