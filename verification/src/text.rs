//! Character-level text handling: whitespace, trimming and line splitting.
//!
//! Everything here is stated over `Seq<char>`, the view of a string, so that
//! the grammar of a catalog can be written down once and the executable code
//! proved against it.

use vstd::prelude::*;

verus! {

/// Whether `c` is white space: the code points with the Unicode property
/// `White_Space`.
pub open spec fn is_space(c: char) -> bool {
    let u = c as u32;
    ||| 0x09 <= u <= 0x0D
    ||| u == 0x20
    ||| u == 0x85
    ||| u == 0xA0
    ||| u == 0x1680
    ||| 0x2000 <= u <= 0x200A
    ||| u == 0x2028
    ||| u == 0x2029
    ||| u == 0x202F
    ||| u == 0x205F
    ||| u == 0x3000
}

/// `s` without its leading white space.
pub open spec fn trim_start(s: Seq<char>) -> Seq<char>
    decreases s.len(),
{
    if s.len() > 0 && is_space(s[0]) {
        trim_start(s.drop_first())
    } else {
        s
    }
}

/// `s` without its trailing white space.
pub open spec fn trim_end(s: Seq<char>) -> Seq<char>
    decreases s.len(),
{
    if s.len() > 0 && is_space(s.last()) {
        trim_end(s.drop_last())
    } else {
        s
    }
}

/// `s` without leading and trailing white space.
pub open spec fn trim(s: Seq<char>) -> Seq<char> {
    trim_end(trim_start(s))
}

/// Length of the first line of `s`: the number of characters before the first
/// line feed, or all of `s` if it holds none.
pub open spec fn line_end(s: Seq<char>) -> int
    decreases s.len(),
{
    if s.len() == 0 || s[0] == '\n' {
        0
    } else {
        1 + line_end(s.drop_first())
    }
}

/// The lines of `s`. A line feed ends a line; what follows the last line feed
/// is a line of its own unless it is empty. A carriage return stays part of
/// its line (it is white space, so trimming removes it).
pub open spec fn split_lines(s: Seq<char>) -> Seq<Seq<char>>
    decreases s.len(),
{
    if s.len() == 0 {
        Seq::empty()
    } else {
        let k = line_end(s);
        if 0 <= k < s.len() {
            seq![s.take(k)] + split_lines(s.skip(k + 1))
        } else {
            seq![s]
        }
    }
}

/// Each line of `s`, trimmed.
pub open spec fn trimmed_lines(s: Seq<char>) -> Seq<Seq<char>> {
    split_lines(s).map_values(|line: Seq<char>| trim(line))
}

/// A half-open range of character positions.
#[derive(Clone, Copy, Debug)]
pub struct Span {
    pub start: usize,
    pub end: usize,
}

impl Span {
    /// The characters of `s` that the span covers.
    pub open spec fn of(self, s: Seq<char>) -> Seq<char> {
        s.subrange(self.start as int, self.end as int)
    }

    /// Whether the span lies inside a text of `len` characters.
    pub open spec fn within(self, len: nat) -> bool {
        self.start <= self.end <= len
    }
}

/// `line_end` finds the first line feed.
pub proof fn lemma_line_end(s: Seq<char>)
    ensures
        0 <= line_end(s) <= s.len(),
        line_end(s) < s.len() ==> s[line_end(s)] == '\n',
        forall|i: int| 0 <= i < line_end(s) ==> s[i] != '\n',
    decreases s.len(),
{
    if s.len() == 0 || s[0] == '\n' {
    } else {
        let rest = s.drop_first();
        lemma_line_end(rest);
        assert forall|i: int| 0 <= i < line_end(s) implies s[i] != '\n' by {
            if i > 0 {
                assert(s[i] == rest[i - 1]);
            }
        }
    }
}

/// A position that holds the first line feed is the end of the first line.
pub proof fn lemma_line_end_is(s: Seq<char>, k: int)
    requires
        0 <= k <= s.len(),
        k < s.len() ==> s[k] == '\n',
        forall|i: int| 0 <= i < k ==> s[i] != '\n',
    ensures
        line_end(s) == k,
{
    lemma_line_end(s);
}

/// Whether `c` is white space.
pub fn is_whitespace(c: char) -> (b: bool)
    ensures
        b == is_space(c),
{
    let u: u32 = c as u32;
    (0x09 <= u && u <= 0x0D) || u == 0x20 || u == 0x85 || u == 0xA0 || u == 0x1680 || (0x2000 <= u
        && u <= 0x200A) || u == 0x2028 || u == 0x2029 || u == 0x202F || u == 0x205F || u == 0x3000
}

/// The characters of `text`, in order.
pub fn chars_of(text: &str) -> (out: Vec<char>)
    ensures
        out@ == text@,
{
    let mut out: Vec<char> = Vec::new();
    for c in it: text.chars()
        invariant
            it.seq() == text@,
            out@ == it.seq().take(it.index() as int),
    {
        out.push(c);
    }
    out
}

/// Trims the part of `chars` that `span` covers.
pub fn trim_span(chars: &Vec<char>, span: Span) -> (out: Span)
    requires
        span.within(chars@.len()),
    ensures
        out.within(chars@.len()),
        span.start <= out.start,
        out.end <= span.end,
        out.of(chars@) == trim(span.of(chars@)),
{
    let mut start: usize = span.start;
    let end0: usize = span.end;
    while start < end0 && is_whitespace(chars[start])
        invariant
            span.start <= start <= end0 <= chars@.len(),
            end0 == span.end,
            trim_start(span.of(chars@)) == trim_start(chars@.subrange(start as int, end0 as int)),
        decreases end0 - start,
    {
        proof {
            let cur = chars@.subrange(start as int, end0 as int);
            assert(cur.drop_first() =~= chars@.subrange(start + 1, end0 as int));
        }
        start = start + 1;
    }
    let mut end: usize = end0;
    while start < end && is_whitespace(chars[end - 1])
        invariant
            span.start <= start <= end <= end0 <= chars@.len(),
            trim_start(span.of(chars@)) == chars@.subrange(start as int, end0 as int),
            trim(span.of(chars@)) == trim_end(chars@.subrange(start as int, end as int)),
        decreases end - start,
    {
        proof {
            let cur = chars@.subrange(start as int, end as int);
            assert(cur.drop_last() =~= chars@.subrange(start as int, end - 1));
        }
        end = end - 1;
    }
    Span { start, end }
}

/// The trimmed lines of `chars`, each as the span that it occupies.
pub fn line_spans(chars: &Vec<char>) -> (out: Vec<Span>)
    ensures
        out@.len() == trimmed_lines(chars@).len(),
        forall|i: int|
            0 <= i < out@.len() ==> (#[trigger] out@[i]).within(chars@.len()) && out@[i].of(chars@)
                == trimmed_lines(chars@)[i],
{
    let n = chars.len();
    let mut out: Vec<Span> = Vec::new();
    let mut pos: usize = 0;
    let ghost mut done: Seq<Seq<char>> = Seq::empty();
    proof {
        assert(chars@.skip(0) =~= chars@);
    }
    while pos < n
        invariant
            pos <= n == chars@.len(),
            split_lines(chars@) == done + split_lines(chars@.skip(pos as int)),
            out@.len() == done.len(),
            forall|i: int|
                0 <= i < out@.len() ==> (#[trigger] out@[i]).within(chars@.len()) && out@[i].of(
                    chars@,
                ) == trim(done[i]),
        decreases n - pos,
    {
        let mut end: usize = pos;
        while end < n && chars[end] != '\n'
            invariant
                pos <= end <= n == chars@.len(),
                forall|j: int| pos <= j < end ==> chars@[j] != '\n',
            decreases n - end,
        {
            end = end + 1;
        }
        let span = trim_span(chars, Span { start: pos, end });
        let next: usize = if end < n {
            end + 1
        } else {
            n
        };
        proof {
            let rest = chars@.skip(pos as int);
            let k = end - pos;
            lemma_line_end_is(rest, k);
            let line = chars@.subrange(pos as int, end as int);
            if end < n {
                assert(rest.take(k) =~= line);
                assert(rest.skip(k + 1) =~= chars@.skip(next as int));
            }
            assert(done + split_lines(rest) =~= done.push(line) + split_lines(
                chars@.skip(next as int),
            ));
            done = done.push(line);
        }
        out.push(span);
        pos = next;
    }
    out
}

/// The characters of `chars` that `span` covers, as a string.
pub fn string_of(chars: &Vec<char>, span: Span) -> (out: String)
    requires
        span.within(chars@.len()),
    ensures
        out@ == span.of(chars@),
{
    let mut out = String::new();
    let mut i: usize = span.start;
    while i < span.end
        invariant
            span.within(chars@.len()),
            span.start <= i <= span.end,
            out@ == chars@.subrange(span.start as int, i as int),
        decreases span.end - i,
    {
        out.push(chars[i]);
        proof {
            assert(chars@.subrange(span.start as int, i as int).push(chars@[i as int])
                =~= chars@.subrange(span.start as int, i + 1));
        }
        i = i + 1;
    }
    out
}

/// What `String::push` does: it appends one character.
pub assume_specification[ String::push ](s: &mut String, ch: char)
    ensures
        final(s)@ == old(s)@.push(ch),
;

} // verus!
