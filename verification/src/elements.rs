//! From an element record to parsed orbital elements.
//!
//! The element lines are parsed by `sgp4`. What this module proves is its
//! own part: which lines are handed to the parser at all, and what is
//! returned for each answer of the parser.

use crate::catalog::TleData;
use crate::time::{UtcInstant, NANOS_PER_SECOND};
use vstd::prelude::*;
use vstd::string::{StringExecFns, StringSliceAdditionalSpecFns};
use vstd::utf8::{is_ascii_chars, is_ascii_chars_encode_utf8};

verus! {

/// Length of an element line.
pub const LINE_LENGTH: usize = 69;

/// The parsed orbital elements of `sgp4`, opaque here.
#[verifier::external_type_specification]
#[verifier::external_body]
pub struct ExElements(sgp4::Elements);

/// The error type of `sgp4`, opaque here.
#[verifier::external_type_specification]
#[verifier::external_body]
pub struct ExElementsError(sgp4::Error);

/// Whether `line` can be handed to the parser: it is ASCII text and, where
/// it has the length of an element line, its last character, the checksum,
/// is not below the digit zero.
pub open spec fn presentable(line: Seq<char>) -> bool {
    is_ascii_chars(line) && (line.len() == LINE_LENGTH ==> line[LINE_LENGTH - 1] >= '0')
}

/// The least that holds of two lines which the parser accepts: each has the
/// length of an element line, and they begin with `1` and `2`.
pub open spec fn element_lines(line1: Seq<char>, line2: Seq<char>) -> bool {
    &&& line1.len() == LINE_LENGTH
    &&& line2.len() == LINE_LENGTH
    &&& line1[0] == '1'
    &&& line2[0] == '2'
}

/// Whether `sgp4::Elements::from_tle` accepts the two lines. The parser
/// reads nothing but the lines, so its verdict is a function of them.
pub uninterp spec fn parser_accepts(line1: Seq<char>, line2: Seq<char>) -> bool;

/// The elements that `sgp4::Elements::from_tle` makes of two lines which it
/// accepts. The parser reads nothing but the lines, so the elements are a
/// function of them.
pub uninterp spec fn parsed_elements(line1: Seq<char>, line2: Seq<char>) -> sgp4::Elements;

/// Whether elements come of a record: its lines are presentable and the
/// parser accepts them.
pub open spec fn yields_elements(line1: Seq<char>, line2: Seq<char>) -> bool {
    presentable(line1) && presentable(line2) && parser_accepts(line1, line2)
}

/// `sgp4::Elements::from_tle`, without an object name. Of the lines it asks
/// that they are presentable: the parser takes slices of a line for text
/// without looking, and subtracts the digit zero from the checksum
/// character. Whether it accepts the lines is given the name
/// `parser_accepts`, and the elements that it then returns the name
/// `parsed_elements`. Of accepted lines it states what the first tests of
/// the parser show: they have the length of an element line and begin with
/// `1` and `2`.
#[verifier::external_body]
fn parse_element_lines(line1: &str, line2: &str) -> (out: Result<sgp4::Elements, sgp4::Error>)
    requires
        presentable(line1@),
        presentable(line2@),
    ensures
        out is Ok <==> parser_accepts(line1@, line2@),
        out matches Ok(e) ==> e == parsed_elements(line1@, line2@),
        out is Ok ==> element_lines(line1@, line2@),
{
    sgp4::Elements::from_tle(None, line1.as_bytes(), line2.as_bytes())
}

/// The `Debug` text of an error of `sgp4`. Nothing is claimed of the text.
#[verifier::external_body]
fn error_text(error: &sgp4::Error) -> (out: String) {
    format!("{:?}", error)
}

/// The second in which the epoch of `elements` lies, counted from the Unix
/// epoch: what `chrono`'s `DateTime::timestamp` gives for the field
/// `datetime`. It reads nothing but that field, so it is a function of the
/// elements.
pub uninterp spec fn epoch_second_of(elements: sgp4::Elements) -> i64;

/// The nanoseconds of the epoch of `elements` within its second: what
/// `chrono`'s `DateTime::timestamp_subsec_nanos` gives for the field
/// `datetime`. It reads nothing but that field, so it is a function of the
/// elements.
pub uninterp spec fn epoch_subsec_nanos_of(elements: sgp4::Elements) -> u32;

/// The instant `nanos` nanoseconds after the second `secs`, in nanoseconds
/// since the Unix epoch. A count of a second or more is carried into the
/// seconds; there is no instant where they then pass the largest `i64`.
pub open spec fn instant_of(secs: int, nanos: int) -> Option<int> {
    if secs + nanos / (NANOS_PER_SECOND as int) <= i64::MAX {
        Some(secs * (NANOS_PER_SECOND as int) + nanos)
    } else {
        None
    }
}

/// The epoch of `elements` in nanoseconds since the Unix epoch, where it is
/// an instant.
pub open spec fn epoch_instant_of(elements: sgp4::Elements) -> Option<int> {
    instant_of(epoch_second_of(elements) as int, epoch_subsec_nanos_of(elements) as int)
}

/// `chrono`'s `DateTime::timestamp`, on the field `datetime` of `elements`
/// taken as UTC. The result is given the name `epoch_second_of`; nothing
/// else is claimed of it.
#[verifier::external_body]
fn epoch_second(elements: &sgp4::Elements) -> (out: i64)
    ensures
        out == epoch_second_of(*elements),
{
    elements.datetime.and_utc().timestamp()
}

/// `chrono`'s `DateTime::timestamp_subsec_nanos`, on the field `datetime`
/// of `elements` taken as UTC. The result is given the name
/// `epoch_subsec_nanos_of`; nothing else is claimed of it, and the count
/// may reach or pass a full second.
#[verifier::external_body]
fn epoch_subsec_nanos(elements: &sgp4::Elements) -> (out: u32)
    ensures
        out == epoch_subsec_nanos_of(*elements),
{
    elements.datetime.and_utc().timestamp_subsec_nanos()
}

/// Whether `line` can be handed to the parser.
pub fn is_presentable(line: &str) -> (b: bool)
    ensures
        b == presentable(line@),
{
    if !line.is_ascii() {
        return false;
    }
    let bytes = line.as_bytes();
    proof {
        is_ascii_chars_encode_utf8(line@);
        if line@.len() == LINE_LENGTH {
            let c = line@[LINE_LENGTH - 1];
            assert(c as u8 == bytes@[LINE_LENGTH - 1]);
            assert('\0' <= c <= '\u{7f}');
        }
    }
    bytes.len() != LINE_LENGTH || bytes[LINE_LENGTH - 1] >= 48
}

/// The text of an error: a fixed opening and the detail.
pub open spec fn error_message(detail: Seq<char>) -> Seq<char> {
    "TLE parsing error: "@ + detail
}

/// The detail that is reported of a line which is not presentable.
pub open spec fn malformed_detail() -> Seq<char> {
    "malformed line"@
}

/// What is returned for an answer of the parser: the elements, or an error
/// text that opens as every error text does.
pub fn parser_outcome(answer: Result<sgp4::Elements, sgp4::Error>) -> (out: Result<
    sgp4::Elements,
    String,
>)
    ensures
        out is Ok <==> answer is Ok,
        match answer {
            Ok(elements) => out == Ok::<sgp4::Elements, String>(elements),
            Err(_) => out matches Err(text) && exists|detail: Seq<char>|
                text@ == error_message(detail),
        },
{
    match answer {
        Ok(elements) => Ok(elements),
        Err(error) => {
            let detail = error_text(&error);
            let text = String::from_str("TLE parsing error: ").concat(detail.as_str());
            assert(text@ == error_message(detail@));
            Err(text)
        },
    }
}

impl TleData {
    /// Parses the two element lines. Lines that are not presentable are
    /// refused here; for the others the parser decides, and it accepts none
    /// that lacks the form of `element_lines`. The elements are those that
    /// the parser makes of the two lines.
    pub fn to_elements(&self) -> (out: Result<sgp4::Elements, String>)
        ensures
            out is Ok <==> yields_elements(self@.line1, self@.line2),
            out matches Ok(e) ==> e == parsed_elements(self@.line1, self@.line2),
            !(presentable(self@.line1) && presentable(self@.line2)) ==> (out matches Err(text)
                && text@ == error_message(malformed_detail())),
            out is Ok ==> element_lines(self@.line1, self@.line2),
            out matches Err(text) ==> exists|detail: Seq<char>| text@ == error_message(detail),
    {
        if is_presentable(self.line1.as_str()) && is_presentable(self.line2.as_str()) {
            parser_outcome(parse_element_lines(self.line1.as_str(), self.line2.as_str()))
        } else {
            let text = String::from_str("TLE parsing error: ").concat("malformed line");
            assert(text@ == error_message(malformed_detail()));
            Err(text)
        }
    }
}

/// The epoch of `elements`: the instant that its second and its nanoseconds
/// make; `None` where the second does not fit.
pub(crate) fn epoch_of(elements: &sgp4::Elements) -> (out: Option<UtcInstant>)
    ensures
        match out {
            Some(t) => epoch_instant_of(*elements) == Some(t@),
            None => epoch_instant_of(*elements) is None,
        },
{
    UtcInstant::new(epoch_second(elements), epoch_subsec_nanos(elements))
}

} // verus!
