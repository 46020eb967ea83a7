//! Text with terminal escape codes, read as styled lines with `ansi_to_tui`.

use ansi_to_tui::IntoText;
use ratatui_core::style::Color as AnsiColor;
use ratatui_core::text::Text as AnsiText;
use vstd::prelude::*;

use crate::style::Color;
use crate::style::Color::{
    Black, Blue, Cyan, DarkGray, Gray, Green, LightBlue, LightCyan, LightGreen, LightMagenta,
    LightRed, LightYellow, Magenta, Red, Reset, White, Yellow,
};
use crate::style::Style;
use crate::text::{
    lemma_lines_view_push, lemma_spans_view_push, lines_view, spans_view, Line, LineView, Span,
    SpanView,
};

verus! {

/// A text of `ratatui_core`.
#[verifier::external_type_specification]
#[verifier::external_body]
pub struct ExAnsiText<'a>(AnsiText<'a>);

/// The lines of a text of `ratatui_core`, each as its spans.
pub uninterp spec fn spans_held(text: AnsiText<'static>) -> Seq<Seq<SpanView>>;

/// The lines that `ansi_to_tui` reads in a text with escape codes, each as its spans; nothing
/// where it fails.
pub uninterp spec fn ansi_spans(s: Seq<char>) -> Option<Seq<Seq<SpanView>>>;

/// Calls [`IntoText::into_text`].
///
/// Claims that the result depends on the text alone. The lines that it reads have no style of
/// their own, and the text has none either: all style is in the spans.
#[verifier::external_body]
fn into_text(s: &str) -> (text: Option<AnsiText<'static>>)
    ensures
        match text {
            Some(text) => ansi_spans(s@) == Some(spans_held(text)),
            None => ansi_spans(s@) is None,
        },
{
    s.into_text().ok()
}

/// Reads the contents and the attributes of the spans of a text of `ratatui_core`.
///
/// Claims to return those of each span of each line, in their order.
#[verifier::external_body]
fn span_texts(text: &AnsiText<'_>) -> (texts: Vec<Vec<(String, u16, u16)>>)
    ensures
        texts@.len() == spans_held(*text).len(),
        forall|i: int|
            0 <= i < texts@.len() ==> (#[trigger] texts@[i])@.len() == spans_held(*text)[i].len(),
        forall|i: int, j: int|
            0 <= i < texts@.len() && 0 <= j < texts@[i]@.len() ==> {
                let span = spans_held(*text)[i][j];
                let read = #[trigger] texts@[i]@[j];
                read.0@ == span.content && read.1 == span.style.add_modifier && read.2
                    == span.style.sub_modifier
            },
{
    text.lines.iter().map(|line| line.spans.iter().map(|span| (
        span.content.to_string(),
        span.style.add_modifier.bits(),
        span.style.sub_modifier.bits(),
    )).collect()).collect()
}

/// Reads the colours of a span of a text of `ratatui_core`.
///
/// Claims to return the foreground colour and the background colour, each if the style of that span
/// sets one.
#[verifier::external_body]
fn span_colors(text: &AnsiText<'_>, line: usize, span: usize) -> (colors: (
    Option<Color>,
    Option<Color>,
))
    requires
        line < spans_held(*text).len(),
        span < spans_held(*text)[line as int].len(),
    ensures
        colors.0 == spans_held(*text)[line as int][span as int].style.fg,
        colors.1 == spans_held(*text)[line as int][span as int].style.bg,
{
    let style = text.lines[line].spans[span].style;
    let convert = |color: AnsiColor| match color {
        AnsiColor::Reset => Reset, AnsiColor::Black => Black, AnsiColor::Red => Red,
        AnsiColor::Green => Green, AnsiColor::Yellow => Yellow, AnsiColor::Blue => Blue,
        AnsiColor::Magenta => Magenta, AnsiColor::Cyan => Cyan, AnsiColor::Gray => Gray,
        AnsiColor::DarkGray => DarkGray, AnsiColor::LightRed => LightRed,
        AnsiColor::LightGreen => LightGreen, AnsiColor::LightYellow => LightYellow,
        AnsiColor::LightBlue => LightBlue, AnsiColor::LightMagenta => LightMagenta,
        AnsiColor::LightCyan => LightCyan, AnsiColor::White => White,
        AnsiColor::Rgb(r, g, b) => Color::Rgb(r, g, b),
        AnsiColor::Indexed(index) => Color::Indexed(index),
    };
    (style.fg.map(convert), style.bg.map(convert))
}

/// Lines without a style of their own, from their spans.
pub open spec fn unstyled_lines(lines: Seq<Seq<SpanView>>) -> Seq<LineView> {
    lines.map_values(|spans: Seq<SpanView>| LineView { spans, style: Style::new() })
}

/// The lines of a text with escape codes; none where it cannot be read.
pub open spec fn ansi_lines(s: Seq<char>) -> Seq<LineView> {
    match ansi_spans(s) {
        Some(lines) => unstyled_lines(lines),
        None => Seq::empty(),
    }
}

/// The spans of one line, put together from what was read of them.
fn assemble_line(text: &AnsiText<'_>, line: usize, texts: Vec<(String, u16, u16)>) -> (spans: Vec<
    Span,
>)
    requires
        line < spans_held(*text).len(),
        texts@.len() == spans_held(*text)[line as int].len(),
        forall|j: int|
            0 <= j < texts@.len() ==> {
                let span = spans_held(*text)[line as int][j];
                let read = #[trigger] texts@[j];
                read.0@ == span.content && read.1 == span.style.add_modifier && read.2
                    == span.style.sub_modifier
            },
    ensures
        spans_view(spans@) == spans_held(*text)[line as int],
{
    let ghost held = spans_held(*text)[line as int];
    let mut spans: Vec<Span> = Vec::new();
    let mut j: usize = 0;
    while j < texts.len()
        invariant
            j <= texts.len(),
            line < spans_held(*text).len(),
            held == spans_held(*text)[line as int],
            texts@.len() == held.len(),
            forall|j: int|
                0 <= j < texts@.len() ==> {
                    let span = held[j];
                    let read = #[trigger] texts@[j];
                    read.0@ == span.content && read.1 == span.style.add_modifier && read.2
                        == span.style.sub_modifier
                },
            spans_view(spans@) =~= held.take(j as int),
        decreases texts.len() - j,
    {
        let (fg, bg) = span_colors(text, line, j);
        let style = Style {
            fg,
            bg,
            add_modifier: texts[j].1,
            sub_modifier: texts[j].2,
        };
        let span = Span::styled(texts[j].0.clone(), style);
        proof {
            lemma_spans_view_push(spans@, span);
        }
        spans.push(span);
        j += 1;
        assert(span@ == held[j - 1]);
        assert(held.take(j as int) =~= held.take(j - 1).push(span@));
    }
    assert(held.take(j as int) =~= held);
    spans
}

/// Reads a text with escape codes as styled lines; none where it cannot be read.
pub fn read_ansi(s: &str) -> (lines: Vec<Line>)
    ensures
        lines_view(lines@) == ansi_lines(s@),
{
    let mut lines: Vec<Line> = Vec::new();
    assert(lines_view(lines@) =~= Seq::empty());
    let text = match into_text(s) {
        Some(text) => text,
        None => {
            return lines;
        },
    };
    let ghost held = spans_held(text);
    let texts = span_texts(&text);
    let count: usize = texts.len();
    let mut i: usize = 0;
    for row in it: texts.into_iter()
        invariant
            i == it.index(),
            it.seq() == texts@,
            texts@.len() == held.len(),
            texts@.len() == count,
            held == spans_held(text),
            forall|i: int| 0 <= i < texts@.len() ==> (#[trigger] texts@[i])@.len() == held[i].len(),
            forall|i: int, j: int|
                0 <= i < texts@.len() && 0 <= j < texts@[i]@.len() ==> {
                    let span = held[i][j];
                    let read = #[trigger] texts@[i]@[j];
                    read.0@ == span.content && read.1 == span.style.add_modifier && read.2
                        == span.style.sub_modifier
                },
            lines_view(lines@) =~= unstyled_lines(held.take(i as int)),
    {
        assert(row == texts@[i as int]);
        let line = Line { spans: assemble_line(&text, i, row), style: Style::new() };
        proof {
            lemma_lines_view_push(lines@, line);
        }
        lines.push(line);
        assert(held.take(i + 1) =~= held.take(i as int).push(line@.spans));
        assert(unstyled_lines(held.take(i + 1)) =~= unstyled_lines(held.take(i as int)).push(
            line@,
        ));
        i += 1;
    }
    assert(held.take(held.len() as int) =~= held);
    lines
}

} // verus!
