use orbit_core::parser::parse_catalog;
use orbit_core::text::{chars_of, is_whitespace, line_spans, string_of, trim_span, Span};

fn trimmed_lines(text: &str) -> Vec<String> {
    let chars = chars_of(text);
    line_spans(&chars).iter().map(|span| string_of(&chars, *span)).collect()
}

#[test]
fn white_space_is_the_unicode_property() {
    for code in 0..=0x10FFFFu32 {
        if let Some(c) = char::from_u32(code) {
            assert_eq!(is_whitespace(c), c.is_whitespace(), "U+{:04X}", code);
        }
    }
}

#[test]
fn chars_of_keeps_every_character() {
    assert_eq!(chars_of(""), Vec::<char>::new());
    assert_eq!(chars_of("a\u{e9}\u{1F6F0}z"), vec!['a', '\u{e9}', '\u{1F6F0}', 'z']);
}

#[test]
fn trim_span_cuts_both_ends() {
    let chars = chars_of("  \t abc  def \r\n");
    let all = Span { start: 0, end: chars.len() };
    let t = trim_span(&chars, all);
    assert_eq!((t.start, t.end), (4, 12));
    assert_eq!(string_of(&chars, t), "abc  def");
    // inside a part of the text
    let t = trim_span(&chars, Span { start: 7, end: 10 });
    assert_eq!((t.start, t.end), (9, 10));
    // nothing but white space
    let t = trim_span(&chars, Span { start: 0, end: 4 });
    assert_eq!(t.start, t.end);
    let t = trim_span(&chars, Span { start: 5, end: 5 });
    assert_eq!((t.start, t.end), (5, 5));
}

#[test]
fn string_of_copies_the_span() {
    let chars = chars_of("h\u{e9}llo w\u{f6}rld");
    assert_eq!(string_of(&chars, Span { start: 0, end: 5 }), "h\u{e9}llo");
    assert_eq!(string_of(&chars, Span { start: 6, end: 11 }), "w\u{f6}rld");
    assert_eq!(string_of(&chars, Span { start: 3, end: 3 }), "");
}

#[test]
fn lines_end_at_line_feeds() {
    assert_eq!(trimmed_lines(""), Vec::<String>::new());
    assert_eq!(trimmed_lines("a"), vec!["a"]);
    assert_eq!(trimmed_lines("a\n"), vec!["a"]);
    assert_eq!(trimmed_lines("a\nb"), vec!["a", "b"]);
    assert_eq!(trimmed_lines("\n"), vec![""]);
    assert_eq!(trimmed_lines("\n\n"), vec!["", ""]);
    assert_eq!(trimmed_lines("a\n\nb\n"), vec!["a", "", "b"]);
    assert_eq!(trimmed_lines(" a \r\n\tb\r\n"), vec!["a", "b"]);
    assert_eq!(trimmed_lines("a\n   "), vec!["a", ""]);
    assert_eq!(trimmed_lines("a\rb\n"), vec!["a\rb"]);
}

#[test]
fn lines_agree_with_the_standard_library() {
    let samples = [
        "",
        "\n",
        "\r\n",
        "one",
        "one\n",
        "one\r\n",
        "one\ntwo",
        "one\n\ntwo\n\n",
        "  one  \n\ttwo\t\r\n\u{3000}three\u{a0}\n",
        "\n\n\none\n \n",
        "a\rb\nc\r\r\nd",
        "\u{2028}x\u{2029}\n\u{85}\n",
    ];
    for text in samples {
        let expected: Vec<String> = text.lines().map(|l| l.trim().to_string()).collect();
        assert_eq!(trimmed_lines(text), expected, "{:?}", text);
    }
}

#[test]
fn spans_lie_within_the_text() {
    let text = "  first \n\n second\r\n third";
    let chars = chars_of(text);
    let spans = line_spans(&chars);
    assert_eq!(spans.len(), 4);
    let pairs: Vec<(usize, usize)> = spans.iter().map(|s| (s.start, s.end)).collect();
    assert_eq!(pairs[0], (2, 7));
    assert_eq!(pairs[1].0, pairs[1].1);
    assert_eq!(pairs[2], (11, 17));
    assert_eq!(pairs[3], (20, 25));
}

#[test]
fn parses_a_large_catalog() {
    let mut text = String::new();
    for i in 0..5000 {
        text.push_str(&format!("OBJECT {}\r\n1 {:05}U first line\r\n2 {:05} second line\r\n", i, i, i));
        if i % 7 == 0 {
            text.push_str("\r\n");
        }
    }
    let catalog = parse_catalog(&text);
    assert_eq!(catalog.len(), 5000);
    assert_eq!(catalog.get("OBJECT 4999").unwrap().line1, "1 04999U first line");
    assert_eq!(catalog.get("OBJECT 0").unwrap().line2, "2 00000 second line");
    assert_eq!(catalog.record(1234).name, "OBJECT 1234");
}
