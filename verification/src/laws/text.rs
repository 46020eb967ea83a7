//! Text is shown as it stands in the document.

use vstd::prelude::*;

use crate::event::EventView;
use crate::laws::frame::lemma_write_lines_frame;
use crate::model::{top, WriterView};
use crate::strings::{has_suffix, joined, lines_of, lines_with_endings, strip_ending};
use crate::style::Style;
use crate::text::{blank_line, LineView, SpanView};

verus! {

/// The texts one after another.
pub open spec fn concatenated(parts: Seq<Seq<char>>) -> Seq<char>
    decreases parts.len(),
{
    if parts.len() == 0 {
        Seq::empty()
    } else {
        concatenated(parts.drop_last()) + parts.last()
    }
}

/// The text of the spans.
pub open spec fn spans_text(spans: Seq<SpanView>) -> Seq<char> {
    concatenated(spans.map_values(|span: SpanView| span.content))
}

/// The text of the lines.
pub open spec fn lines_text(lines: Seq<LineView>) -> Seq<char> {
    concatenated(lines.map_values(|line: LineView| spans_text(line.spans)))
}

/// The pieces into which a text is cut at its line feeds make up the text.
pub proof fn law_lines_make_up_the_text(s: Seq<char>)
    ensures
        concatenated(lines_with_endings(s)) == s,
    decreases s.len(),
{
    if s.len() > 0 {
        let before = lines_with_endings(s.drop_last());
        let after = lines_with_endings(s);
        law_lines_make_up_the_text(s.drop_last());
        if before.len() == 0 || has_suffix(before.last(), seq!['\n']) {
            assert(after.drop_last() =~= before);
            assert(concatenated(after) == s.drop_last() + seq![s.last()]);
        } else {
            assert(after.drop_last() =~= before.drop_last());
            assert(s.drop_last() == concatenated(before.drop_last()) + before.last());
            assert(concatenated(after) == concatenated(before.drop_last()) + before.last().push(
                s.last(),
            ));
            assert(concatenated(after) =~= s.drop_last().push(s.last()));
        }
        assert(s.drop_last() + seq![s.last()] =~= s);
        assert(s.drop_last().push(s.last()) =~= s);
    }
}

/// A line feed in a piece is the last character of the piece, and no piece is empty.
pub proof fn lemma_pieces_end_with_line_feeds(s: Seq<char>, i: int)
    requires
        0 <= i < lines_with_endings(s).len(),
    ensures
        lines_with_endings(s)[i].len() > 0,
        !lines_with_endings(s)[i].drop_last().contains('\n'),
    decreases s.len(),
{
    if s.len() > 0 {
        let before = lines_with_endings(s.drop_last());
        let after = lines_with_endings(s);
        if i < before.len() {
            lemma_pieces_end_with_line_feeds(s.drop_last(), i);
        }
        if before.len() == 0 || has_suffix(before.last(), seq!['\n']) {
            assert(after[after.len() - 1].drop_last() =~= Seq::empty());
        } else if i == before.len() - 1 {
            let piece = before.last();
            assert(after[i].drop_last() =~= piece);
            assert(piece =~= piece.drop_last().push(piece.last()));
            if piece.last() == '\n' {
                assert(piece.skip(piece.len() - 1) =~= seq!['\n']);
            }
            assert forall|j: int| 0 <= j < piece.len() implies piece[j] != '\n' by {
                if j < piece.len() - 1 {
                    assert(piece.drop_last()[j] == piece[j]);
                    assert(piece.drop_last().contains(piece[j]));
                }
            }
        }
    }
}

/// A line of a text holds no line feed.
pub proof fn law_lines_hold_no_line_feed(s: Seq<char>, i: int)
    requires
        0 <= i < lines_of(s).len(),
    ensures
        !lines_of(s)[i].contains('\n'),
{
    let piece = lines_with_endings(s)[i];
    let line = strip_ending(piece);
    lemma_pieces_end_with_line_feeds(s, i);
    assert forall|j: int| 0 <= j < line.len() implies line[j] != '\n' by {
        if j < piece.len() - 1 {
            assert(piece.drop_last()[j] == piece[j]);
            assert(piece.drop_last().contains(piece[j]));
        } else if piece[j] == '\n' {
            assert(piece.skip(piece.len() - 1) =~= seq!['\n']);
            assert(has_suffix(piece, seq!['\n']));
        }
    }
}

/// Texts without line feeds, joined by a text without one, make up a text without one.
proof fn lemma_joined_holds_no_line_feed(parts: Seq<Seq<char>>, sep: Seq<char>)
    requires
        forall|i: int| 0 <= i < parts.len() ==> !(#[trigger] parts[i]).contains('\n'),
        !sep.contains('\n'),
    ensures
        !joined(parts, sep).contains('\n'),
    decreases parts.len(),
{
    if parts.len() > 1 {
        assert forall|i: int| 0 <= i < parts.len() - 1 implies !(
        #[trigger] parts.drop_last()[i]).contains('\n') by {
            assert(parts.drop_last()[i] == parts[i]);
        }
        lemma_joined_holds_no_line_feed(parts.drop_last(), sep);
        let head = joined(parts.drop_last(), sep);
        let last = parts[parts.len() - 1];
        let whole = head + sep + last;
        assert forall|j: int| 0 <= j < whole.len() implies whole[j] != '\n' by {
            if j < head.len() {
                assert(head.contains(whole[j]));
            } else if j < head.len() + sep.len() {
                assert(sep[j - head.len()] == whole[j]);
                assert(sep.contains(whole[j]));
            } else {
                assert(last[j - head.len() - sep.len()] == whole[j]);
                assert(last.contains(whole[j]));
            }
        }
    } else if parts.len() == 1 {
        assert(!parts[0].contains('\n'));
    }
}

/// Text in a cell of a table stays on one line: nothing is written to the lines of the document,
/// and the cell gets no more than one span, without a line feed in it.
pub proof fn law_cell_text_stays_on_one_line(writer: WriterView, text: Seq<char>)
    requires
        writer.in_table_cell(),
    ensures
        ({
            let after = writer.step(EventView::Text(text));
            let cell = writer.table->0.current_cell->0;
            &&& after.lines == writer.lines
            &&& after.in_table_cell()
            &&& after.table->0.current_cell->0 == cell || exists|span: SpanView|
                after.table->0.current_cell->0 == #[trigger] cell.push(span)
                    && !span.content.contains('\n')
        }),
{
    reveal(WriterView::step);
    reveal_strlit(" ");
    assert forall|i: int| 0 <= i < lines_of(text).len() implies !(
    #[trigger] lines_of(text)[i]).contains('\n') by {
        law_lines_hold_no_line_feed(text, i);
    }
    lemma_joined_holds_no_line_feed(lines_of(text), " "@);
    let cell = writer.table->0.current_cell->0;
    let span = SpanView {
        content: joined(lines_of(text), " "@),
        style: top(writer.inline_styles),
    };
    assert(cell.push(span) == cell.push(span));
}

/// A span at the end of a line adds its text.
proof fn lemma_spans_text_push(spans: Seq<SpanView>, span: SpanView)
    ensures
        spans_text(spans.push(span)) == spans_text(spans) + span.content,
{
    let texts = spans.push(span).map_values(|span: SpanView| span.content);
    assert(texts.drop_last() =~= spans.map_values(|span: SpanView| span.content));
}

/// A line adds its text.
proof fn lemma_lines_text_push(lines: Seq<LineView>, line: LineView)
    ensures
        lines_text(lines.push(line)) == lines_text(lines) + spans_text(line.spans),
{
    let texts = lines.push(line).map_values(|line: LineView| spans_text(line.spans));
    assert(texts.drop_last() =~= lines.map_values(|line: LineView| spans_text(line.spans)));
}

/// A blank line adds no text.
proof fn lemma_blank_line_text(writer: WriterView)
    requires
        writer.line_prefixes.len() == 0,
    ensures
        lines_text(writer.push_line(blank_line()).lines) == lines_text(writer.lines),
{
    let line = writer.decorated(blank_line());
    lemma_lines_text_push(writer.lines, line);
    assert(line.spans.map_values(|span: SpanView| span.content) =~= Seq::empty());
    assert(spans_text(line.spans) =~= Seq::empty());
    assert(lines_text(writer.lines) + Seq::<char>::empty() =~= lines_text(writer.lines));
}

/// A span adds its text.
proof fn lemma_push_span_text(writer: WriterView, span: SpanView)
    requires
        !writer.in_table_cell(),
        writer.line_prefixes.len() == 0,
    ensures
        lines_text(writer.push_span(span).lines) == lines_text(writer.lines) + span.content,
{
    let after = writer.push_span(span).lines;
    if writer.lines.len() > 0 {
        let init = writer.lines.drop_last();
        let last = writer.lines.last();
        lemma_lines_text_push(init, last);
        assert(init.push(last) =~= writer.lines);
        lemma_spans_text_push(last.spans, span);
        lemma_lines_text_push(init, LineView { spans: last.spans.push(span), ..last });
        assert(lines_text(after) =~= lines_text(writer.lines) + span.content);
    } else {
        let line = writer.decorated(LineView { spans: seq![span], style: Style::new() });
        lemma_lines_text_push(writer.lines, line);
        lemma_spans_text_push(Seq::empty(), span);
        assert(line.spans =~= Seq::<SpanView>::empty().push(span));
        assert(Seq::<SpanView>::empty().map_values(|span: SpanView| span.content)
            =~= Seq::empty());
        assert(spans_text(Seq::empty()) + span.content =~= span.content);
    }
}

/// Lines of text add their text.
proof fn lemma_write_lines_text(writer: WriterView, lines: Seq<Seq<char>>)
    requires
        !writer.in_table_cell(),
        writer.line_prefixes.len() == 0,
    ensures
        lines_text(writer.write_lines(lines).lines) == lines_text(writer.lines) + concatenated(
            lines,
        ),
    decreases lines.len(),
{
    if lines.len() > 0 {
        let before = writer.write_lines(lines.drop_last());
        lemma_write_lines_text(writer, lines.drop_last());
        lemma_write_lines_frame(writer, lines.drop_last());
        lemma_blank_line_text(before);
        let broken = WriterView { needs_newline: false, ..before.break_if_due() };
        lemma_blank_line_text(broken);
        let started = if lines.len() > 1 {
            broken.push_line(blank_line())
        } else {
            broken
        };
        lemma_push_span_text(
            started,
            SpanView { content: lines.last(), style: top(writer.inline_styles) },
        );
        assert(lines_text(writer.write_lines(lines).lines) =~= lines_text(writer.lines)
            + concatenated(lines));
    } else {
        assert(lines_text(writer.lines) + Seq::<char>::empty() =~= lines_text(writer.lines));
    }
}

/// Text is shown in full and in order: outside of block quotes, cells and highlighted code, writing
/// a text adds the lines of that text to what is shown, and nothing else.
pub proof fn law_text_is_shown_in_full(writer: WriterView, text: Seq<char>)
    requires
        !writer.in_table_cell(),
        writer.line_prefixes.len() == 0,
        writer.code_highlighter is None,
    ensures
        lines_text(writer.step(EventView::Text(text)).lines) == lines_text(writer.lines)
            + concatenated(lines_of(text)),
{
    assert(writer.step(EventView::Text(text)) == writer.text(text)) by {
        reveal(WriterView::step);
    }
    lemma_write_lines_text(writer, lines_of(text));
}

} // verus!
