//! The catalog grammar: groups of three lines, a name and two element lines.

use crate::catalog::{Catalog, ElementRecord, TleData};
use crate::text::{chars_of, line_spans, string_of, trimmed_lines, Span};
use vstd::prelude::*;

verus! {

/// Whether `line` begins with `digit` and a blank: the marker by which an
/// element line is known.
pub open spec fn has_marker(line: Seq<char>, digit: char) -> bool {
    line.len() >= 2 && line[0] == digit && line[1] == ' '
}

/// Whether three trimmed lines form a record: the second carries the marker
/// `1`, the third the marker `2`.
pub open spec fn is_group(name: Seq<char>, line1: Seq<char>, line2: Seq<char>) -> bool {
    has_marker(line1, '1') && has_marker(line2, '2')
}

/// The records that a sequence of trimmed lines holds, in order. An empty
/// line is passed over. Any other line opens a group of three lines; the
/// group yields a record if its element lines carry their markers and is
/// dropped otherwise. Fewer than three lines at the end yield nothing.
pub open spec fn accepted_records(lines: Seq<Seq<char>>) -> Seq<ElementRecord>
    decreases lines.len(),
{
    if lines.len() == 0 {
        Seq::empty()
    } else if lines[0].len() == 0 {
        accepted_records(lines.skip(1))
    } else if lines.len() < 3 {
        Seq::empty()
    } else if is_group(lines[0], lines[1], lines[2]) {
        seq![ElementRecord { name: lines[0], line1: lines[1], line2: lines[2] }]
            + accepted_records(lines.skip(3))
    } else {
        accepted_records(lines.skip(3))
    }
}

/// The map that results from putting `records` in, one after the other: of
/// two records with one name the later stays.
pub open spec fn catalog_of(records: Seq<ElementRecord>) -> Map<Seq<char>, ElementRecord>
    decreases records.len(),
{
    if records.len() == 0 {
        Map::empty()
    } else {
        catalog_of(records.drop_last()).insert(records.last().name, records.last())
    }
}

/// The catalog that `text` describes.
pub open spec fn parsed_catalog(text: Seq<char>) -> Map<Seq<char>, ElementRecord> {
    catalog_of(accepted_records(trimmed_lines(text)))
}

/// Whether the element lines of `record` carry their markers and its name is
/// not empty.
pub open spec fn well_marked(record: ElementRecord) -> bool {
    record.name.len() > 0 && is_group(record.name, record.line1, record.line2)
}

/// Only well-marked records are accepted.
pub proof fn lemma_accepted_are_well_marked(lines: Seq<Seq<char>>)
    ensures
        forall|i: int|
            0 <= i < accepted_records(lines).len() ==> well_marked(
                #[trigger] accepted_records(lines)[i],
            ),
    decreases lines.len(),
{
    let all = accepted_records(lines);
    if lines.len() == 0 {
    } else if lines[0].len() == 0 {
        lemma_accepted_are_well_marked(lines.skip(1));
        assert(all == accepted_records(lines.skip(1)));
    } else if lines.len() >= 3 {
        lemma_accepted_are_well_marked(lines.skip(3));
        if is_group(lines[0], lines[1], lines[2]) {
            // the first record is the group, the others come of the rest
            assert forall|i: int| 0 <= i < all.len() implies well_marked(#[trigger] all[i]) by {
                if i > 0 {
                    assert(all[i] == accepted_records(lines.skip(3))[i - 1]);
                }
            }
        }
    }
}

/// A malformed group is dropped whole, and what follows it is read as if the
/// group were not there; a well-formed group gives the first record.
pub proof fn lemma_group_step(lines: Seq<Seq<char>>)
    requires
        lines.len() >= 3,
        lines[0].len() > 0,
    ensures
        !is_group(lines[0], lines[1], lines[2]) ==> accepted_records(lines) == accepted_records(
            lines.skip(3),
        ),
        is_group(lines[0], lines[1], lines[2]) ==> accepted_records(lines) == seq![
            ElementRecord { name: lines[0], line1: lines[1], line2: lines[2] },
        ] + accepted_records(lines.skip(3)),
{
}

/// Every entry of `catalog_of(records)` is one of `records`, under its own
/// name, and every name among `records` has an entry.
pub proof fn lemma_catalog_of(records: Seq<ElementRecord>)
    ensures
        catalog_of(records).dom().finite(),
        forall|k: Seq<char>| #[trigger]
            catalog_of(records).contains_key(k) ==> catalog_of(records)[k].name == k
                && records.contains(catalog_of(records)[k]),
        forall|i: int|
            0 <= i < records.len() ==> catalog_of(records).contains_key(
                (#[trigger] records[i]).name,
            ),
    decreases records.len(),
{
    if records.len() > 0 {
        let init = records.drop_last();
        lemma_catalog_of(init);
        let m = catalog_of(records);
        assert forall|k: Seq<char>| #[trigger] m.contains_key(k) implies m[k].name == k
            && records.contains(m[k]) by {
            if k == records.last().name {
                assert(records[records.len() - 1] == m[k]);
            } else {
                let j = choose|j: int| 0 <= j < init.len() && init[j] == catalog_of(init)[k];
                assert(records[j] == m[k]);
            }
        }
        assert forall|i: int| 0 <= i < records.len() implies m.contains_key(
            (#[trigger] records[i]).name,
        ) by {
            if i < records.len() - 1 {
                assert(init[i] == records[i]);
            }
        }
    }
}

/// Every record of a parsed catalog is well marked.
pub proof fn lemma_parsed_are_well_marked(text: Seq<char>)
    ensures
        parsed_catalog(text).dom().finite(),
        forall|k: Seq<char>| #[trigger]
            parsed_catalog(text).contains_key(k) ==> parsed_catalog(text)[k].name == k
                && well_marked(parsed_catalog(text)[k]),
{
    let records = accepted_records(trimmed_lines(text));
    lemma_accepted_are_well_marked(trimmed_lines(text));
    lemma_catalog_of(records);
    assert forall|k: Seq<char>| #[trigger] parsed_catalog(text).contains_key(k) implies well_marked(
        parsed_catalog(text)[k],
    ) by {
        let r = parsed_catalog(text)[k];
        let j = choose|j: int| 0 <= j < records.len() && records[j] == r;
        assert(well_marked(records[j]));
    }
}

/// Whether the part of `chars` under `span` begins with `digit` and a blank.
fn span_has_marker(chars: &Vec<char>, span: Span, digit: char) -> (b: bool)
    requires
        span.within(chars@.len()),
    ensures
        b == has_marker(span.of(chars@), digit),
{
    span.end - span.start >= 2 && chars[span.start] == digit && chars[span.start + 1] == ' '
}

/// Reads a catalog from `text`.
pub fn parse_catalog(text: &str) -> (out: Catalog)
    ensures
        out@ == parsed_catalog(text@),
{
    let chars = chars_of(text);
    let spans = line_spans(&chars);
    let n = spans.len();
    let ghost lines = trimmed_lines(text@);
    let mut out = Catalog::new();
    let mut i: usize = 0;
    let ghost mut seen: Seq<ElementRecord> = Seq::empty();
    proof {
        assert(lines.skip(0) =~= lines);
    }
    while i < n
        invariant
            i <= n == spans@.len(),
            chars@ == text@,
            lines == trimmed_lines(text@),
            n == lines.len(),
            forall|j: int|
                0 <= j < n ==> (#[trigger] spans@[j]).within(chars@.len()) && spans@[j].of(chars@)
                    == lines[j],
            out@ == catalog_of(seen),
            seen + accepted_records(lines.skip(i as int)) == accepted_records(lines),
        decreases n - i,
    {
        let ghost rest = lines.skip(i as int);
        let name_span = spans[i];
        if name_span.end == name_span.start {
            // an empty line
            proof {
                assert(rest.skip(1) =~= lines.skip(i + 1));
            }
            i = i + 1;
        } else if n - i < 3 {
            // too few lines are left for a group
            proof {
                assert(rest[0].len() > 0);
            }
            i = n;
        } else {
            let span1 = spans[i + 1];
            let span2 = spans[i + 2];
            proof {
                assert(rest.skip(3) =~= lines.skip(i + 3));
            }
            if span_has_marker(&chars, span1, '1') && span_has_marker(&chars, span2, '2') {
                let record = TleData {
                    name: string_of(&chars, name_span),
                    line1: string_of(&chars, span1),
                    line2: string_of(&chars, span2),
                };
                proof {
                    let r = record@;
                    assert(seen + (seq![r] + accepted_records(lines.skip(i + 3))) =~= seen.push(r)
                        + accepted_records(lines.skip(i + 3)));
                    assert(seen.push(r).drop_last() =~= seen);
                    seen = seen.push(r);
                }
                out.insert(record);
            }
            i = i + 3;
        }
    }
    out
}

} // verus!
