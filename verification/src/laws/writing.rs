//! Text is shown in full wherever it stands.

use vstd::prelude::*;

use crate::event::EventView;
use crate::laws::notions::{
    adds_spans, cell_being_read, due_lines, fresh_line, lemma_break, lemma_decorated,
    lemma_literals, lemma_push_span_adds, line_start, lines_with_spans, text_style,
};
use crate::model::WriterView;
use crate::strings::{joined, lines_of, lines_with_endings};
use crate::text::{blank_line, LineView, SpanView};

verus! {

/// The lines of a text as spans in the style of text.
pub open spec fn text_spans(writer: WriterView, lines: Seq<Seq<char>>) -> Seq<SpanView> {
    Seq::new(
        lines.len(),
        |i: int| SpanView { content: lines[i], style: text_style(writer) },
    )
}

/// The document with lines of text: the first at the end of the last line, after the blank line
/// that is due, and each further one on a new line.
pub open spec fn lines_with_text(writer: WriterView, lines: Seq<Seq<char>>) -> Seq<LineView> {
    let spans = text_spans(writer, lines);
    if lines.len() == 0 {
        writer.lines
    } else {
        lines_with_spans(writer, writer.lines + due_lines(writer), seq![spans[0]]) + Seq::new(
            (lines.len() - 1) as nat,
            |i: int| fresh_line(writer, seq![spans[i + 1]]),
        )
    }
}

/// Lines of text are written as that says.
proof fn lemma_write_lines_direct(writer: WriterView, lines: Seq<Seq<char>>)
    requires
        cell_being_read(writer) is None,
    ensures
        writer.write_lines(lines) == (WriterView {
            lines: lines_with_text(writer, lines),
            needs_newline: if lines.len() == 0 {
                writer.needs_newline
            } else {
                false
            },
            ..writer
        }),
    decreases lines.len(),
{
    if lines.len() > 0 {
        let head = lines.drop_last();
        let before = writer.write_lines(head);
        lemma_write_lines_direct(writer, head);
        lemma_break(before);
        let broken = WriterView { needs_newline: false, ..before.break_if_due() };
        lemma_break(broken);
        let span = SpanView { content: lines.last(), style: text_style(writer) };
        let spans = text_spans(writer, lines);
        assert(spans[lines.len() - 1] == span);
        let started = if lines.len() > 1 {
            broken.push_line(blank_line())
        } else {
            broken
        };
        lemma_push_span_adds(started, span);
        let after = writer.write_lines(lines).lines;
        if lines.len() == 1 {
            assert(before.lines =~= writer.lines);
            assert(after =~= lines_with_text(writer, lines));
        } else {
            assert(before.lines + due_lines(before) =~= before.lines);
            assert(text_spans(writer, head)[0] == spans[0]);
            assert(line_start(writer) + Seq::<SpanView>::empty() + seq![span] =~= line_start(
                writer,
            ) + seq![span]);
            assert forall|i: int| 0 <= i < head.len() implies text_spans(writer, head)[i]
                == spans[i] by {}
            assert(after =~= lines_with_text(writer, lines));
        }
    }
}

/// Text is shown in full wherever it stands: outside of cells and of highlighted code, in quotes,
/// lists and styled text alike, the first line of it stands behind what was written, after the
/// blank line that is due, and each further one on a new line behind what lines start with. All of
/// it has the style of text, and nothing else changes.
pub proof fn law_text_is_shown_line_by_line(writer: WriterView, text: Seq<char>)
    requires
        cell_being_read(writer) is None,
        writer.code_highlighter is None,
    ensures
        writer.step(EventView::Text(text)) == (WriterView {
            lines: lines_with_text(writer, lines_of(text)),
            needs_newline: false,
            just_added_list_item: false,
            ..writer
        }),
{
    assert(writer.step(EventView::Text(text)) == writer.text(text)) by {
        reveal(WriterView::step);
    }
    lemma_write_lines_direct(writer, lines_of(text));
}

/// Text in a cell is one more span of that cell: its lines with a space between each two, in the
/// style of text. Where there is nothing to show nothing is added.
pub proof fn law_text_in_a_cell_is_one_more_span(writer: WriterView, text: Seq<char>)
    requires
        cell_being_read(writer) is Some,
    ensures
        ({
            let content = joined(lines_of(text), seq![' ']);
            adds_spans(
                WriterView { needs_newline: false, just_added_list_item: false, ..writer },
                writer.step(EventView::Text(text)),
                if content.len() == 0 {
                    Seq::empty()
                } else {
                    seq![SpanView { content, style: text_style(writer) }]
                },
            )
        }),
{
    assert(writer.step(EventView::Text(text)) == writer.text(text)) by {
        reveal(WriterView::step);
    }
    lemma_literals();
    let content = joined(lines_of(text), seq![' ']);
    let cell = cell_being_read(writer)->0;
    assert(cell + Seq::<SpanView>::empty() =~= cell);
    lemma_push_span_adds(writer, SpanView { content, style: text_style(writer) });
}

/// Highlighted code is written on new lines behind what lines start with, each line in the style
/// that the highlighter gives it, and the highlighter goes on from there.
pub proof fn law_highlighted_code_is_written_on_new_lines(writer: WriterView, text: Seq<char>)
    requires
        cell_being_read(writer) is None,
        writer.code_highlighter is Some,
    ensures
        ({
            let highlighter = writer.code_highlighter->0;
            let shown = highlighter.shown_lines(lines_with_endings(text));
            let after = writer.step(EventView::Text(text));
            &&& after == (WriterView {
                lines: after.lines,
                code_highlighter: after.code_highlighter,
                needs_newline: false,
                ..writer
            })
            &&& after.lines == writer.lines + Seq::new(
                shown.len(),
                |i: int|
                    LineView {
                        spans: line_start(writer) + shown[i].spans,
                        style: shown[i].style,
                    },
            )
            &&& after.code_highlighter matches Some(next) && next.linked == highlighter.linked
                && next.theme == highlighter.theme && next.lines == highlighter.lines
                + lines_with_endings(text)
        }),
{
    assert(writer.step(EventView::Text(text)) == writer.text(text)) by {
        reveal(WriterView::step);
    }
    let shown = writer.code_highlighter->0.shown_lines(lines_with_endings(text));
    let after = writer.text(text).lines;
    let expected = writer.lines + Seq::new(
        shown.len(),
        |i: int|
            LineView { spans: line_start(writer) + shown[i].spans, style: shown[i].style },
    );
    assert forall|i: int| 0 <= i < after.len() implies after[i] == expected[i] by {
        if i >= writer.lines.len() {
            lemma_decorated(writer, shown[i - writer.lines.len()]);
        }
    }
    assert(after =~= expected);
}

} // verus!
