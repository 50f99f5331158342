//! Styled spans, and the heuristic styling used where no grammar is at hand.

use vstd::prelude::*;
use crate::chars::{first_index_from, first_index_of, leading_whitespace, leading_whitespace_count};

verus! {

/// A colour with an alpha channel.
#[derive(Debug, Clone, Copy, PartialEq, Eq, Structural)]
pub struct Rgba {
    pub r: u8,
    pub g: u8,
    pub b: u8,
    pub a: u8,
}

/// How a run of text is drawn: colours and font style bits
/// (bold, underline, italic).
#[derive(Debug, Clone, Copy, PartialEq, Eq, Structural)]
pub struct SpanStyle {
    pub foreground: Rgba,
    pub background: Rgba,
    pub font_style: u8,
}

/// A run of a line's text and the style it is drawn in.
#[derive(Debug)]
pub struct StyledSpan {
    pub style: SpanStyle,
    pub text: String,
}

impl View for StyledSpan {
    type V = (SpanStyle, Seq<char>);

    open spec fn view(&self) -> (SpanStyle, Seq<char>) {
        (self.style, self.text@)
    }
}

/// The style and text of each span.
pub open spec fn spans_of(v: Seq<StyledSpan>) -> Seq<(SpanStyle, Seq<char>)> {
    v.map_values(|s: StyledSpan| s@)
}

/// The texts of the spans, one after the other.
pub open spec fn joined_text(s: Seq<(SpanStyle, Seq<char>)>) -> Seq<char>
    decreases s.len(),
{
    if s.len() == 0 {
        Seq::empty()
    } else {
        joined_text(s.drop_last()) + s.last().1
    }
}

/// The colour with these channels.
pub open spec fn rgba(r: u8, g: u8, b: u8, a: u8) -> Rgba {
    Rgba { r, g, b, a }
}

/// Black text on white, no font style.
pub open spec fn plain_style() -> SpanStyle {
    SpanStyle { foreground: rgba(0, 0, 0, 255), background: rgba(255, 255, 255, 255), font_style: 0 }
}

/// Grey text for comments.
pub open spec fn comment_style() -> SpanStyle {
    SpanStyle { foreground: rgba(128, 128, 128, 255), ..plain_style() }
}

/// Blue text for keys.
pub open spec fn key_style() -> SpanStyle {
    SpanStyle { foreground: rgba(100, 149, 237, 255), ..plain_style() }
}

/// Purple text for list markers.
pub open spec fn marker_style() -> SpanStyle {
    SpanStyle { foreground: rgba(198, 120, 221, 255), ..plain_style() }
}

/// The line with its leading whitespace skipped starts with `c`.
pub open spec fn starts_after_whitespace(line: Seq<char>, c: char) -> bool {
    leading_whitespace_count(line) < line.len() && line[leading_whitespace_count(line) as int] == c
}

/// The spans of `line` from `at` on, or none where that rest is empty.
pub open spec fn rest_span(line: Seq<char>, at: int) -> Seq<(SpanStyle, Seq<char>)> {
    if at < line.len() {
        seq![(plain_style(), line.subrange(at, line.len() as int))]
    } else {
        Seq::empty()
    }
}

/// Heuristic styling of a line of a key/value format: a comment line is one
/// comment span; a line with a `:` that is not a list item is a key span up
/// to and with the first `:`, then the rest; a list item is the text before
/// its first `-`, a marker span for the `-`, then the rest; any other line
/// is one plain span.
pub open spec fn heuristic_spans(line: Seq<char>) -> Seq<(SpanStyle, Seq<char>)> {
    if starts_after_whitespace(line, '#') {
        seq![(comment_style(), line)]
    } else if first_index_from(line, ':', 0) is Some && !starts_after_whitespace(line, '-') {
        let c = first_index_from(line, ':', 0)->Some_0;
        seq![(key_style(), line.subrange(0, c + 1))] + rest_span(line, c + 1)
    } else if starts_after_whitespace(line, '-') {
        let d = first_index_from(line, '-', 0)->Some_0;
        seq![(plain_style(), line.subrange(0, d)), (marker_style(), line.subrange(d, d + 1))] + rest_span(line, d + 1)
    } else {
        seq![(plain_style(), line)]
    }
}

/// The style of text that nothing styles.
pub fn plain() -> (r: SpanStyle)
    ensures
        r == plain_style(),
{
    SpanStyle {
        foreground: Rgba { r: 0, g: 0, b: 0, a: 255 },
        background: Rgba { r: 255, g: 255, b: 255, a: 255 },
        font_style: 0,
    }
}

fn with_foreground(r: u8, g: u8, b: u8) -> (s: SpanStyle)
    ensures
        s == (SpanStyle { foreground: rgba(r, g, b, 255), ..plain_style() }),
{
    SpanStyle { foreground: Rgba { r, g, b, a: 255 }, ..plain() }
}

fn span(style: SpanStyle, text: &str) -> (r: StyledSpan)
    ensures
        r@ == (style, text@),
{
    StyledSpan { style, text: text.to_owned() }
}

/// Adding a span at the end adds its text at the end.
pub proof fn lemma_joined_push(s: Seq<(SpanStyle, Seq<char>)>, x: (SpanStyle, Seq<char>))
    ensures
        joined_text(s.push(x)) == joined_text(s) + x.1,
{
    assert(s.push(x).drop_last() == s);
}

/// A single span's text is the whole text.
pub proof fn lemma_joined_one(x: (SpanStyle, Seq<char>))
    ensures
        joined_text(seq![x]) == x.1,
{
    lemma_joined_push(Seq::empty(), x);
    assert(Seq::<(SpanStyle, Seq<char>)>::empty().push(x) == seq![x]);
    assert(Seq::<char>::empty() + x.1 == x.1);
}

/// The heuristic spans of a line cover it exactly.
pub proof fn lemma_heuristic_spans_cover_line(line: Seq<char>)
    ensures
        joined_text(heuristic_spans(line)) == line,
{
    let h = heuristic_spans(line);
    if starts_after_whitespace(line, '#') {
        lemma_joined_one(h[0]);
    } else if first_index_from(line, ':', 0) is Some && !starts_after_whitespace(line, '-') {
        let c = first_index_from(line, ':', 0)->Some_0;
        lemma_first_index_in_range(line, ':', 0);
        let k = (key_style(), line.subrange(0, c + 1));
        lemma_joined_one(k);
        if c + 1 < line.len() {
            let rest = (plain_style(), line.subrange(c + 1, line.len() as int));
            assert(h == seq![k].push(rest));
            lemma_joined_push(seq![k], rest);
        } else {
            assert(h == seq![k]);
        }
    } else if starts_after_whitespace(line, '-') {
        lemma_first_index_found(line, '-', leading_whitespace_count(line) as int);
        let d = first_index_from(line, '-', 0)->Some_0;
        let a = (plain_style(), line.subrange(0, d));
        let m = (marker_style(), line.subrange(d, d + 1));
        lemma_joined_one(a);
        lemma_joined_push(seq![a], m);
        assert(seq![a, m] == seq![a].push(m));
        if d + 1 < line.len() {
            let rest = (plain_style(), line.subrange(d + 1, line.len() as int));
            assert(h == seq![a, m].push(rest));
            lemma_joined_push(seq![a, m], rest);
        } else {
            assert(h == seq![a, m]);
        }
    } else {
        lemma_joined_one(h[0]);
    }
}

proof fn lemma_first_index_in_range(s: Seq<char>, c: char, from: int)
    ensures
        first_index_from(s, c, from) matches Some(i) ==> from <= i < s.len() && s[i] == c,
    decreases s.len() - from,
{
    if 0 <= from < s.len() && s[from] != c {
        lemma_first_index_in_range(s, c, from + 1);
    }
}

/// Where `c` occurs at `at`, a search from `from <= at` finds it there or
/// earlier.
proof fn lemma_first_index_found(s: Seq<char>, c: char, at: int)
    requires
        0 <= at < s.len(),
        s[at] == c,
    ensures
        first_index_from(s, c, 0) matches Some(i) && 0 <= i <= at && s[i] == c,
{
    lemma_first_index_found_from(s, c, 0, at);
}

proof fn lemma_first_index_found_from(s: Seq<char>, c: char, from: int, at: int)
    requires
        0 <= from <= at < s.len(),
        s[at] == c,
    ensures
        first_index_from(s, c, from) matches Some(i) && from <= i <= at && s[i] == c,
    decreases at - from,
{
    if s[from] != c {
        lemma_first_index_found_from(s, c, from + 1, at);
    }
}

fn whitespace_then(line: &str, c: char) -> (r: bool)
    ensures
        r == starts_after_whitespace(line@, c),
{
    let k = leading_whitespace(line);
    k < line.unicode_len() && line.get_char(k) == c
}

/// The heuristic spans of `line`.
pub fn heuristic_highlight(line: &str) -> (r: Vec<StyledSpan>)
    ensures
        spans_of(r@) == heuristic_spans(line@),
{
    let n = line.unicode_len();
    let mut r: Vec<StyledSpan> = Vec::new();
    let list_item = whitespace_then(line, '-');
    if whitespace_then(line, '#') {
        r.push(span(with_foreground(128, 128, 128), line));
    } else if first_index_of(line, ':').is_some() && !list_item {
        let c = first_index_of(line, ':').unwrap();
        r.push(span(with_foreground(100, 149, 237), line.substring_char(0, c + 1)));
        if c + 1 < n {
            r.push(span(plain(), line.substring_char(c + 1, n)));
        }
    } else if list_item {
        proof {
            lemma_first_index_found(line@, '-', leading_whitespace_count(line@) as int);
        }
        let d = first_index_of(line, '-').unwrap();
        r.push(span(plain(), line.substring_char(0, d)));
        r.push(span(with_foreground(198, 120, 221), line.substring_char(d, d + 1)));
        if d + 1 < n {
            r.push(span(plain(), line.substring_char(d + 1, n)));
        }
    } else {
        r.push(span(plain(), line));
    }
    proof {
        assert(spans_of(r@) =~= heuristic_spans(line@));
    }
    r
}

/// A copy of the spans.
pub fn copy_spans(v: &Vec<StyledSpan>) -> (r: Vec<StyledSpan>)
    ensures
        spans_of(r@) == spans_of(v@),
{
    let mut r: Vec<StyledSpan> = Vec::new();
    let mut i: usize = 0;
    while i < v.len()
        invariant
            i <= v@.len(),
            spans_of(r@) == spans_of(v@.subrange(0, i as int)),
        decreases v@.len() - i,
    {
        r.push(StyledSpan { style: v[i].style, text: v[i].text.clone() });
        assert(spans_of(v@.subrange(0, i + 1)) =~= spans_of(v@.subrange(0, i as int)).push(v@[i as int]@));
        assert(spans_of(r@) =~= spans_of(v@.subrange(0, i as int)).push(v@[i as int]@));
        i = i + 1;
    }
    assert(v@.subrange(0, v@.len() as int) == v@);
    r
}

} // verus!
