//! Plain words for what a document looks like and how writing changes it: the start of a line, the
//! style that is due, a fresh line, spans that are added at the end.

use vstd::prelude::*;

use crate::laws::styles::law_patch_of_nothing;
use crate::model::WriterView;
use crate::style::Style;
use crate::table::TableView;
use crate::text::{blank_line, raw_line, raw_span, LineView, SpanView};

verus! {

/// The style that sets no colour and no attribute.
pub open spec fn unstyled() -> Style {
    Style { fg: None, bg: None, add_modifier: 0, sub_modifier: 0 }
}

/// A span without a style.
pub open spec fn plain(content: Seq<char>) -> SpanView {
    SpanView { content, style: unstyled() }
}

/// What a new line starts with: the prefixes and a space, or nothing if there are no prefixes.
pub open spec fn line_start(writer: WriterView) -> Seq<SpanView> {
    if writer.line_prefixes.len() == 0 {
        Seq::empty()
    } else {
        writer.line_prefixes.push(plain(seq![' ']))
    }
}

/// The style of text within the line: that of the innermost element that sets one.
pub open spec fn text_style(writer: WriterView) -> Style {
    if writer.inline_styles.len() == 0 {
        unstyled()
    } else {
        writer.inline_styles[writer.inline_styles.len() - 1]
    }
}

/// The style of new lines: that of the innermost element that sets one.
pub open spec fn line_style(writer: WriterView) -> Style {
    if writer.line_styles.len() == 0 {
        unstyled()
    } else {
        writer.line_styles[writer.line_styles.len() - 1]
    }
}

/// A new line that holds the given spans behind what lines start with.
pub open spec fn fresh_line(writer: WriterView, spans: Seq<SpanView>) -> LineView {
    LineView { spans: line_start(writer) + spans, style: line_style(writer) }
}

/// The blank line that is due, if one is.
pub open spec fn due_lines(writer: WriterView) -> Seq<LineView> {
    if writer.needs_newline {
        seq![fresh_line(writer, Seq::empty())]
    } else {
        Seq::empty()
    }
}

/// The cell of a table that is being read, if there is one.
pub open spec fn cell_being_read(writer: WriterView) -> Option<Seq<SpanView>> {
    match writer.table {
        Some(table) => table.current_cell,
        None => None,
    }
}

/// Whether the spans were added at the end of the cell that is being read, or else at the end of
/// the last line, or else on a new line where there was none, and nothing else changed.
pub open spec fn adds_spans(before: WriterView, after: WriterView, spans: Seq<SpanView>) -> bool {
    &&& after == (WriterView { lines: after.lines, table: after.table, ..before })
    &&& match cell_being_read(before) {
        Some(cell) => {
            &&& after.lines == before.lines
            &&& after.table == Some(
                TableView { current_cell: Some(cell + spans), ..before.table->0 },
            )
        },
        None => {
            &&& after.table == before.table
            &&& after.lines == lines_with_spans(before, before.lines, spans)
        },
    }
}

/// The lines with spans at the end of the last one, or on a new line where there is none.
pub open spec fn lines_with_spans(
    writer: WriterView,
    lines: Seq<LineView>,
    spans: Seq<SpanView>,
) -> Seq<LineView> {
    if lines.len() == 0 {
        seq![fresh_line(writer, spans)]
    } else {
        let last = lines[lines.len() - 1];
        lines.update(lines.len() - 1, LineView { spans: last.spans + spans, style: last.style })
    }
}

/// What the fixed texts hold.
pub proof fn lemma_literals()
    ensures
        " "@ == seq![' '],
        ">"@ == seq!['>'],
        "- "@ == seq!['-', ' '],
        ". "@ == seq!['.', ' '],
        "[x] "@ == seq!['[', 'x', ']', ' '],
        "[ ] "@ == seq!['[', ' ', ']', ' '],
        "---"@ == seq!['-', '-', '-'],
        "```"@ == seq!['`', '`', '`'],
        " ("@ == seq![' ', '('],
        ")"@ == seq![')'],
{
    reveal_strlit(" ");
    reveal_strlit(">");
    reveal_strlit("- ");
    reveal_strlit(". ");
    reveal_strlit("[x] ");
    reveal_strlit("[ ] ");
    reveal_strlit("---");
    reveal_strlit("```");
    reveal_strlit(" (");
    reveal_strlit(")");
    assert(" "@ =~= seq![' ']);
    assert(">"@ =~= seq!['>']);
    assert("- "@ =~= seq!['-', ' ']);
    assert(". "@ =~= seq!['.', ' ']);
    assert("[x] "@ =~= seq!['[', 'x', ']', ' ']);
    assert("[ ] "@ =~= seq!['[', ' ', ']', ' ']);
    assert("---"@ =~= seq!['-', '-', '-']);
    assert("```"@ =~= seq!['`', '`', '`']);
    assert(" ("@ =~= seq![' ', '(']);
    assert(")"@ =~= seq![')']);
}

/// A line as it is written: behind what lines start with, in its own style and then that of lines.
pub proof fn lemma_decorated(writer: WriterView, line: LineView)
    ensures
        writer.prefixed(line) == (LineView {
            spans: line_start(writer) + line.spans,
            style: line.style,
        }),
        writer.decorated(line) == (LineView {
            spans: line_start(writer) + line.spans,
            style: line.style.patch(line_style(writer)),
        }),
        line.style == unstyled() ==> writer.decorated(line) == fresh_line(writer, line.spans),
{
    lemma_literals();
    law_patch_of_nothing(line_style(writer));
    assert(writer.prefixed(line).spans =~= line_start(writer) + line.spans);
}

/// The blank line that is due is written first.
pub proof fn lemma_break(writer: WriterView)
    ensures
        writer.break_if_due() == (WriterView { lines: writer.lines + due_lines(writer), ..writer }),
        writer.push_line(blank_line()) == (WriterView {
            lines: writer.lines.push(fresh_line(writer, Seq::empty())),
            ..writer
        }),
{
    lemma_decorated(writer, blank_line());
    assert(writer.break_if_due().lines =~= writer.lines + due_lines(writer));
}

/// A line of one span without a style.
pub proof fn lemma_raw_line(writer: WriterView, content: Seq<char>)
    ensures
        writer.push_line(raw_line(content)) == (WriterView {
            lines: writer.lines.push(fresh_line(writer, seq![plain(content)])),
            ..writer
        }),
        raw_span(content) == plain(content),
{
    lemma_decorated(writer, raw_line(content));
}

/// A span is added at the end.
pub proof fn lemma_push_span_adds(writer: WriterView, span: SpanView)
    ensures
        adds_spans(writer, writer.push_span(span), seq![span]),
{
    let after = writer.push_span(span);
    match cell_being_read(writer) {
        Some(cell) => {
            assert(cell.push(span) =~= cell + seq![span]);
        },
        None => {
            if writer.lines.len() == 0 {
                lemma_decorated(writer, LineView { spans: seq![span], style: Style::new() });
                assert(after.lines =~= seq![fresh_line(writer, seq![span])]);
            } else {
                let last = writer.lines[writer.lines.len() - 1];
                assert(last.spans.push(span) =~= last.spans + seq![span]);
                assert(after.lines =~= lines_with_spans(writer, writer.lines, seq![span]));
            }
        },
    }
}

/// Spans that are added after others are added with them.
pub proof fn lemma_adds_spans_twice(
    first: WriterView,
    second: WriterView,
    third: WriterView,
    one: Seq<SpanView>,
    other: Seq<SpanView>,
)
    requires
        adds_spans(first, second, one),
        adds_spans(second, third, other),
    ensures
        adds_spans(first, third, one + other),
{
    match cell_being_read(first) {
        Some(cell) => {
            assert((cell + one) + other =~= cell + (one + other));
        },
        None => {
            if first.lines.len() == 0 {
                assert((line_start(first) + one) + other =~= line_start(first) + (one + other));
                assert(third.lines =~= seq![fresh_line(first, one + other)]);
            } else {
                let last = first.lines[first.lines.len() - 1];
                assert((last.spans + one) + other =~= last.spans + (one + other));
                assert(third.lines =~= lines_with_spans(first, first.lines, one + other));
            }
        },
    }
}

} // verus!
