//! What has been written stays.

use vstd::prelude::*;

use crate::event::{EventView, TagEnd, TagView};
use crate::highlight::CodeHighlightingView;
use crate::laws::frame::law_run_in_parts;
use crate::model::{rendered, top, WriterView};
use crate::strings::{joined, lines_of};
use crate::style_sheet::Palette;
use crate::text::{blank_line, raw_line, raw_span, LineView, SpanView};

verus! {

/// Whether `after` still has the lines of `before`, where the last of them may be another one.
pub open spec fn keeps_lines(before: Seq<LineView>, after: Seq<LineView>) -> bool {
    &&& before.len() <= after.len()
    &&& forall|i: int| 0 <= i < before.len() - 1 ==> #[trigger] after[i] == before[i]
}

/// Whether `after` has the spans of `before` and perhaps more behind them, in the same line style.
pub open spec fn extends_line(before: LineView, after: LineView) -> bool {
    &&& before.style == after.style
    &&& before.spans.len() <= after.spans.len()
    &&& before.spans == after.spans.take(before.spans.len() as int)
}

/// Whether `after` still has the lines of `before`, the last of them perhaps with more spans.
pub open spec fn extends_lines(before: Seq<LineView>, after: Seq<LineView>) -> bool {
    &&& keeps_lines(before, after)
    &&& before.len() > 0 ==> extends_line(before.last(), after[before.len() - 1])
}

/// A line extends itself.
proof fn lemma_extends_line_reflexive(line: LineView)
    ensures
        extends_line(line, line),
{
    assert(line.spans =~= line.spans.take(line.spans.len() as int));
}

/// What extends an extension of a line extends the line.
proof fn lemma_extends_line_transitive(a: LineView, b: LineView, c: LineView)
    requires
        extends_line(a, b),
        extends_line(b, c),
    ensures
        extends_line(a, c),
{
    assert(c.spans.take(a.spans.len() as int) =~= b.spans.take(a.spans.len() as int));
}

/// Lines that are left as they are are extended.
proof fn lemma_extends_lines_reflexive(lines: Seq<LineView>)
    ensures
        extends_lines(lines, lines),
{
    if lines.len() > 0 {
        lemma_extends_line_reflexive(lines.last());
    }
}

/// Lines to which others are added are extended.
proof fn lemma_extends_lines_append(before: Seq<LineView>, more: Seq<LineView>)
    ensures
        extends_lines(before, before + more),
{
    if before.len() > 0 {
        lemma_extends_line_reflexive(before.last());
    }
}

/// What extends an extension of lines extends the lines.
proof fn lemma_extends_lines_transitive(a: Seq<LineView>, b: Seq<LineView>, c: Seq<LineView>)
    requires
        extends_lines(a, b),
        extends_lines(b, c),
    ensures
        extends_lines(a, c),
{
    assert forall|i: int| 0 <= i < a.len() - 1 implies #[trigger] c[i] == a[i] by {
        assert(b[i] == a[i]);
    }
    if a.len() > 0 {
        if a.len() < b.len() {
            assert(c[a.len() - 1] == b[a.len() - 1]);
        } else {
            lemma_extends_line_transitive(a.last(), b.last(), c[b.len() - 1]);
        }
    }
}

/// What keeps the lines of what keeps lines keeps them.
proof fn lemma_keeps_lines_transitive(a: Seq<LineView>, b: Seq<LineView>, c: Seq<LineView>)
    requires
        keeps_lines(a, b),
        keeps_lines(b, c),
    ensures
        keeps_lines(a, c),
{
    assert forall|i: int| 0 <= i < a.len() - 1 implies #[trigger] c[i] == a[i] by {
        assert(b[i] == a[i]);
    }
}

/// Writing a line extends what has been written.
proof fn lemma_push_line_extends(writer: WriterView, line: LineView)
    ensures
        extends_lines(writer.lines, writer.push_line(line).lines),
{
    lemma_extends_lines_append(writer.lines, seq![writer.decorated(line)]);
    assert(writer.lines + seq![writer.decorated(line)] =~= writer.push_line(line).lines);
}

/// Writing a blank line if one is due extends what has been written.
proof fn lemma_break_extends(writer: WriterView)
    ensures
        extends_lines(writer.lines, writer.break_if_due().lines),
{
    lemma_extends_lines_reflexive(writer.lines);
    lemma_push_line_extends(writer, blank_line());
}

/// Writing a span extends what has been written.
proof fn lemma_push_span_extends(writer: WriterView, span: SpanView)
    ensures
        extends_lines(writer.lines, writer.push_span(span).lines),
{
    if writer.in_table_cell() {
        lemma_extends_lines_reflexive(writer.lines);
    } else if writer.lines.len() > 0 {
        let last = writer.lines.last();
        assert(last.spans.push(span).take(last.spans.len() as int) =~= last.spans);
    } else {
    }
}

/// Writing lines of text extends what has been written.
proof fn lemma_write_lines_extends(writer: WriterView, lines: Seq<Seq<char>>)
    ensures
        extends_lines(writer.lines, writer.write_lines(lines).lines),
    decreases lines.len(),
{
    lemma_extends_lines_reflexive(writer.lines);
    if lines.len() > 0 {
        let before = writer.write_lines(lines.drop_last());
        lemma_write_lines_extends(writer, lines.drop_last());
        let broken = WriterView { needs_newline: false, ..before.break_if_due() };
        lemma_break_extends(before);
        lemma_extends_lines_transitive(writer.lines, before.lines, broken.lines);
        let started = if lines.len() > 1 {
            broken.push_line(blank_line())
        } else {
            broken
        };
        lemma_push_line_extends(broken, blank_line());
        lemma_extends_lines_reflexive(broken.lines);
        lemma_extends_lines_transitive(writer.lines, broken.lines, started.lines);
        let span = SpanView {
            content: lines.last(),
            style: top(writer.inline_styles),
        };
        lemma_push_span_extends(started, span);
        lemma_extends_lines_transitive(
            writer.lines,
            started.lines,
            started.push_span(span).lines,
        );
    }
}

/// The start of a paragraph, of a code block or of a metadata block extends what has been written.
proof fn lemma_start_block_extends(writer: WriterView, tag: TagView)
    requires
        tag is Paragraph || tag is CodeBlock || tag is MetadataBlock,
    ensures
        extends_lines(writer.lines, writer.start_tag(tag).lines),
{
    let broken = match tag {
        TagView::CodeBlock(_) => if writer.lines.len() > 0 {
            writer.push_line(blank_line())
        } else {
            writer
        },
        _ => writer.break_if_due(),
    };
    lemma_extends_lines_reflexive(writer.lines);
    lemma_push_line_extends(writer, blank_line());
    let after = writer.start_tag(tag).lines;
    lemma_extends_lines_append(broken.lines, after.skip(broken.lines.len() as int));
    assert(broken.lines + after.skip(broken.lines.len() as int) =~= after);
    lemma_extends_lines_transitive(writer.lines, broken.lines, after);
}

/// The start of an element extends what has been written.
proof fn lemma_start_tag_extends(writer: WriterView, tag: TagView)
    ensures
        extends_lines(writer.lines, writer.start_tag(tag).lines),
{
    lemma_extends_lines_reflexive(writer.lines);
    match tag {
        TagView::Paragraph => {
            lemma_start_block_extends(writer, tag);
        },
        TagView::Heading(level, meta) => {
            let broken = writer.break_if_due();
            let after = writer.start_tag(tag).lines;
            lemma_break_extends(writer);
            lemma_extends_lines_append(broken.lines, seq![after.last()]);
            assert(broken.lines + seq![after.last()] =~= after);
            lemma_extends_lines_transitive(writer.lines, broken.lines, after);
        },
        TagView::BlockQuote => {
            lemma_break_extends(writer);
        },
        TagView::CodeBlock(kind) => {
            lemma_start_block_extends(writer, tag);
        },
        TagView::HtmlBlock => {},
        TagView::List(index) => {
            lemma_break_extends(writer);
        },
        TagView::Item => {
            let after = writer.start_tag(tag).lines;
            lemma_extends_lines_append(writer.lines, seq![after.last()]);
            assert(writer.lines + seq![after.last()] =~= after);
        },
        TagView::FootnoteDefinition => {},
        TagView::DefinitionList => {},
        TagView::DefinitionListTitle => {},
        TagView::DefinitionListDefinition => {},
        TagView::Table(alignments) => {
            lemma_break_extends(writer);
        },
        TagView::TableHead => {},
        TagView::TableRow => {},
        TagView::TableCell => {},
        TagView::Emphasis => {},
        TagView::Strong => {},
        TagView::Strikethrough => {},
        TagView::Superscript => {},
        TagView::Subscript => {},
        TagView::Link(url) => {},
        TagView::Image => {},
        TagView::MetadataBlock => {
            lemma_start_block_extends(writer, tag);
        },
    }
}

/// The end of an element extends what has been written.
proof fn lemma_end_tag_extends(writer: WriterView, tag: TagEnd)
    ensures
        extends_lines(writer.lines, writer.end_tag(tag).lines),
{
    lemma_extends_lines_reflexive(writer.lines);
    match tag {
        TagEnd::Paragraph => {},
        TagEnd::Heading => {
            if let Some(meta) = writer.heading_meta {
                if let Some(suffix) = meta.suffix() {
                    lemma_push_span_extends(
                        WriterView { heading_meta: None, ..writer },
                        SpanView { content: suffix, style: writer.palette.heading_meta },
                    );
                }
            }
        },
        TagEnd::BlockQuote => {},
        TagEnd::CodeBlock => {
            lemma_push_line_extends(writer, raw_line("```"@));
        },
        TagEnd::HtmlBlock => {},
        TagEnd::List => {},
        TagEnd::Item => {},
        TagEnd::FootnoteDefinition => {},
        TagEnd::DefinitionList => {},
        TagEnd::DefinitionListTitle => {},
        TagEnd::DefinitionListDefinition => {},
        TagEnd::Table => {
            let after = writer.end_tag(tag).lines;
            if writer.table is Some {
                lemma_extends_lines_append(writer.lines, after.skip(writer.lines.len() as int));
                assert(writer.lines + after.skip(writer.lines.len() as int) =~= after);
            }
        },
        TagEnd::TableHead => {},
        TagEnd::TableRow => {},
        TagEnd::TableCell => {},
        TagEnd::Emphasis => {},
        TagEnd::Strong => {},
        TagEnd::Strikethrough => {},
        TagEnd::Superscript => {},
        TagEnd::Subscript => {},
        TagEnd::Link => {
            if let Some(url) = writer.link {
                let first = WriterView { link: None, ..writer };
                let second = first.push_span(raw_span(" ("@));
                let address = SpanView { content: url, style: writer.palette.link };
                let third = second.push_span(address);
                lemma_push_span_extends(first, raw_span(" ("@));
                lemma_push_span_extends(second, address);
                lemma_push_span_extends(third, raw_span(")"@));
                lemma_extends_lines_transitive(first.lines, second.lines, third.lines);
                lemma_extends_lines_transitive(
                    first.lines,
                    third.lines,
                    third.push_span(raw_span(")"@)).lines,
                );
            }
        },
        TagEnd::Image => {},
        TagEnd::MetadataBlock => {
            lemma_push_line_extends(writer, raw_line("---"@));
        },
    }
}

/// An event other than the box of a task list item extends what has been written.
proof fn lemma_step_extends(writer: WriterView, event: EventView)
    requires
        !(event is TaskListMarker),
    ensures
        extends_lines(writer.lines, writer.step(event).lines),
{
    reveal(WriterView::step);
    lemma_extends_lines_reflexive(writer.lines);
    match event {
        EventView::Start(tag) => {
            lemma_start_tag_extends(writer, tag);
        },
        EventView::End(tag) => {
            lemma_end_tag_extends(writer, tag);
        },
        EventView::Text(text) => {
            let span = SpanView {
                content: joined(lines_of(text), " "@),
                style: top(writer.inline_styles),
            };
            if writer.in_table_cell() {
                lemma_push_span_extends(writer, span);
            } else {
                match writer.code_highlighter {
                    Some(highlighter) => {
                        let after = writer.text(text).lines;
                        lemma_extends_lines_append(
                            writer.lines,
                            after.skip(writer.lines.len() as int),
                        );
                        assert(writer.lines + after.skip(writer.lines.len() as int) =~= after);
                    },
                    None => {
                        lemma_write_lines_extends(writer, lines_of(text));
                    },
                }
            }
        },
        EventView::Code(code) => {
            lemma_push_span_extends(writer, SpanView { content: code, style: writer.palette.code });
        },
        EventView::InlineMath => {},
        EventView::DisplayMath => {},
        EventView::Html => {},
        EventView::InlineHtml => {},
        EventView::FootnoteReference => {},
        EventView::SoftBreak => {
            lemma_push_span_extends(writer, raw_span(" "@));
            lemma_push_line_extends(writer, blank_line());
        },
        EventView::HardBreak => {
            lemma_push_span_extends(writer, raw_span(" "@));
            lemma_push_line_extends(writer, blank_line());
        },
        EventView::Rule => {
            let broken = writer.break_if_due();
            lemma_break_extends(writer);
            lemma_push_line_extends(broken, raw_line("---"@));
            lemma_extends_lines_transitive(
                writer.lines,
                broken.lines,
                broken.push_line(raw_line("---"@)).lines,
            );
        },
        EventView::TaskListMarker(checked) => {},
    }
}

/// An event that can come keeps all lines but the last.
proof fn lemma_step_keeps(writer: WriterView, event: EventView)
    ensures
        keeps_lines(writer.lines, writer.step(event).lines),
{
    match event {
        EventView::TaskListMarker(checked) => {
            reveal(WriterView::step);
        },
        _ => {
            lemma_step_extends(writer, event);
        },
    }
}

/// A line that is not the last one any more does not change any more: whatever events come, the
/// lines before the last one stay as they are and where they are.
pub proof fn law_finished_lines_stay(writer: WriterView, events: Seq<EventView>)
    ensures
        keeps_lines(writer.lines, writer.run(events).lines),
    decreases events.len(),
{
    if events.len() > 0 {
        let before = writer.run(events.drop_last());
        law_finished_lines_stay(writer, events.drop_last());
        lemma_step_keeps(before, events.last());
        lemma_keeps_lines_transitive(writer.lines, before.lines, writer.run(events).lines);
    }
}

/// What has been written stays: as long as no box of a task list item comes, the last line too
/// keeps its spans and its style, and new spans come behind them.
pub proof fn law_written_spans_stay(writer: WriterView, events: Seq<EventView>)
    requires
        forall|i: int| 0 <= i < events.len() ==> !(#[trigger] events[i] is TaskListMarker),
    ensures
        extends_lines(writer.lines, writer.run(events).lines),
    decreases events.len(),
{
    if events.len() > 0 {
        let before = writer.run(events.drop_last());
        assert forall|i: int| 0 <= i < events.len() - 1 implies !(#[trigger] events.drop_last()[i]
            is TaskListMarker) by {
            assert(events.drop_last()[i] == events[i]);
        }
        law_written_spans_stay(writer, events.drop_last());
        assert(!(events[events.len() - 1] is TaskListMarker));
        lemma_step_extends(before, events.last());
        lemma_extends_lines_transitive(writer.lines, before.lines, writer.run(events).lines);
    } else {
        lemma_extends_lines_reflexive(writer.lines);
    }
}

/// A longer document begins like a shorter one: if a document can be rendered, so can every part of
/// it that it begins with, and the lines of that part but its last one are the first lines of the
/// whole.
pub proof fn law_longer_document_begins_alike(
    palette: Palette,
    highlighting: Option<CodeHighlightingView>,
    events: Seq<EventView>,
    more: Seq<EventView>,
)
    requires
        rendered(palette, highlighting, events + more) is Some,
    ensures
        rendered(palette, highlighting, events) is Some,
        keeps_lines(
            rendered(palette, highlighting, events)->0,
            rendered(palette, highlighting, events + more)->0,
        ),
{
    let start = WriterView::empty(palette, highlighting);
    law_run_in_parts(start, events, more);
    law_finished_lines_stay(start.run(events), more);
}

} // verus!
