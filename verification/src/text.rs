//! Styled text: spans of one style, lines of spans, and texts of lines.

use vstd::prelude::*;

use crate::style::Style;

verus! {

/// A run of characters in one style.
#[derive(Debug, PartialEq, Eq)]
pub struct Span {
    pub content: String,
    pub style: Style,
}

/// What a [`Span`] shows.
pub struct SpanView {
    pub content: Seq<char>,
    pub style: Style,
}

/// A line of text: its spans, and the style of the line as a whole.
#[derive(Debug, PartialEq, Eq)]
pub struct Line {
    pub spans: Vec<Span>,
    pub style: Style,
}

/// What a [`Line`] shows.
pub struct LineView {
    pub spans: Seq<SpanView>,
    pub style: Style,
}

/// A text: lines from top to bottom.
#[derive(Debug, PartialEq, Eq)]
pub struct Text {
    pub lines: Vec<Line>,
}

impl View for Span {
    type V = SpanView;

    open spec fn view(&self) -> SpanView {
        SpanView { content: self.content@, style: self.style }
    }
}

impl View for Line {
    type V = LineView;

    open spec fn view(&self) -> LineView {
        LineView { spans: spans_view(self.spans@), style: self.style }
    }
}

impl View for Text {
    type V = Seq<LineView>;

    open spec fn view(&self) -> Seq<LineView> {
        lines_view(self.lines@)
    }
}

/// What each of the spans shows.
pub open spec fn spans_view(spans: Seq<Span>) -> Seq<SpanView> {
    spans.map_values(|span: Span| span@)
}

/// What each of the lines shows.
pub open spec fn lines_view(lines: Seq<Line>) -> Seq<LineView> {
    lines.map_values(|line: Line| line@)
}

/// Adding a span adds what it shows.
pub broadcast proof fn lemma_spans_view_push(spans: Seq<Span>, span: Span)
    ensures
        #[trigger] spans_view(spans.push(span)) == spans_view(spans).push(span@),
{
    assert(spans_view(spans.push(span)) =~= spans_view(spans).push(span@));
}

/// Two runs of spans one after the other show what both show.
pub proof fn lemma_spans_view_concat(a: Seq<Span>, b: Seq<Span>)
    ensures
        spans_view(a + b) == spans_view(a) + spans_view(b),
{
    assert(spans_view(a + b) =~= spans_view(a) + spans_view(b));
}

/// Adding a line adds what it shows.
pub broadcast proof fn lemma_lines_view_push(lines: Seq<Line>, line: Line)
    ensures
        #[trigger] lines_view(lines.push(line)) == lines_view(lines).push(line@),
{
    assert(lines_view(lines.push(line)) =~= lines_view(lines).push(line@));
}

/// A span in the default style.
pub open spec fn raw_span(content: Seq<char>) -> SpanView {
    SpanView { content, style: Style::new() }
}

/// A line without spans, in the default style.
pub open spec fn blank_line() -> LineView {
    LineView { spans: Seq::empty(), style: Style::new() }
}

/// A line in the default style that holds one unstyled span.
pub open spec fn raw_line(content: Seq<char>) -> LineView {
    LineView { spans: seq![raw_span(content)], style: Style::new() }
}

impl Span {
    /// A span in the default style.
    pub fn raw(content: &str) -> (span: Span)
        ensures
            span@ == raw_span(content@),
    {
        Span { content: content.to_owned(), style: Style::new() }
    }

    /// A span in the given style.
    pub fn styled(content: String, style: Style) -> (span: Span)
        ensures
            span@ == (SpanView { content: content@, style }),
    {
        Span { content, style }
    }
}

impl Clone for Span {
    fn clone(&self) -> (span: Span)
        ensures
            span@ == self@,
    {
        Span { content: self.content.clone(), style: self.style }
    }
}

impl Line {
    /// A line without spans, in the default style.
    pub fn blank() -> (line: Line)
        ensures
            line@ == blank_line(),
    {
        let line = Line { spans: Vec::new(), style: Style::new() };
        assert(line@.spans =~= Seq::empty());
        line
    }

    /// A line in the default style that holds one unstyled span.
    pub fn raw(content: &str) -> (line: Line)
        ensures
            line@ == raw_line(content@),
    {
        Line::from_span(Span::raw(content))
    }

    /// A line in the default style that holds one span.
    pub fn from_span(span: Span) -> (line: Line)
        ensures
            line@ == (LineView { spans: seq![span@], style: Style::new() }),
    {
        let mut spans: Vec<Span> = Vec::new();
        spans.push(span);
        let line = Line { spans, style: Style::new() };
        assert(line@.spans =~= seq![span@]);
        line
    }
}

impl Text {
    /// A text without lines.
    pub fn new() -> (text: Text)
        ensures
            text@ == Seq::<LineView>::empty(),
    {
        let text = Text { lines: Vec::new() };
        assert(text@ =~= Seq::empty());
        text
    }
}

/// A copy of the spans.
pub fn clone_spans(spans: &Vec<Span>) -> (copy: Vec<Span>)
    ensures
        spans_view(copy@) == spans_view(spans@),
{
    let mut copy: Vec<Span> = Vec::new();
    let mut i: usize = 0;
    while i < spans.len()
        invariant
            i <= spans.len(),
            spans_view(copy@) =~= spans_view(spans@).take(i as int),
        decreases spans.len() - i,
    {
        let span = spans[i].clone();
        assert(spans_view(spans@)[i as int] == spans@[i as int]@);
        assert(span@ == spans@[i as int]@);
        let ghost before = copy@;
        copy.push(span);
        assert(spans_view(copy@) == spans_view(before).push(span@)) by {
            broadcast use lemma_spans_view_push;
        }
        assert(spans_view(spans@).take(i + 1) =~= spans_view(spans@).take(i as int).push(span@));
        i += 1;
    }
    copy
}

} // verus!
