//! Lines in block quotes are marked.

use vstd::prelude::*;

use crate::event::{CodeBlockKindView, EventView, TagEnd, TagView};
use crate::highlight::CodeHighlightingView;
use crate::laws::frame::lemma_write_lines_frame;
use crate::laws::nesting::{
    count_kinds, law_prefixes_are_quote_marks, open_elements, quote_marks,
};
use crate::model::{item_marker, task_box, top, WriterView};
use crate::strings::{joined, lines_of, lines_with_endings, repeated};
use crate::style::Style;
use crate::style_sheet::Palette;
use crate::text::{blank_line, raw_line, raw_span, LineView, SpanView};

verus! {

/// Whether a line starts with the prefixes and a space, if there are prefixes.
pub open spec fn starts_with_prefixes(prefixes: Seq<SpanView>, line: LineView) -> bool {
    prefixes.len() > 0 ==> {
        &&& line.spans.len() > prefixes.len()
        &&& line.spans.take((prefixes.len() + 1) as int) == prefixes.push(raw_span(" "@))
    }
}

/// Whether the lines from the given one on start with the prefixes.
pub open spec fn marked_from(prefixes: Seq<SpanView>, lines: Seq<LineView>, from: nat) -> bool {
    &&& from <= lines.len()
    &&& forall|i: int|
        from <= i < lines.len() ==> starts_with_prefixes(prefixes, #[trigger] lines[i])
}

/// A line as it is written starts with the prefixes.
proof fn lemma_decorated_marked(writer: WriterView, line: LineView)
    ensures
        starts_with_prefixes(writer.line_prefixes, writer.prefixed(line)),
        starts_with_prefixes(writer.line_prefixes, writer.decorated(line)),
{
    let prefixes = writer.line_prefixes;
    if prefixes.len() > 0 {
        assert(writer.decorated(line).spans.take((prefixes.len() + 1) as int) =~= prefixes.push(
            raw_span(" "@),
        ));
    }
}

/// Writing a line keeps the lines marked.
proof fn lemma_push_line_marked(writer: WriterView, line: LineView, from: nat)
    requires
        marked_from(writer.line_prefixes, writer.lines, from),
    ensures
        marked_from(writer.line_prefixes, writer.push_line(line).lines, from),
{
    lemma_decorated_marked(writer, line);
}

/// Writing lines keeps the lines marked.
proof fn lemma_push_lines_marked(writer: WriterView, lines: Seq<LineView>, from: nat)
    requires
        marked_from(writer.line_prefixes, writer.lines, from),
    ensures
        marked_from(writer.line_prefixes, writer.push_lines(lines).lines, from),
        marked_from(writer.line_prefixes, writer.push_styled_lines(lines).lines, from),
{
    let after = writer.push_lines(lines).lines;
    let styled = writer.push_styled_lines(lines).lines;
    assert forall|i: int| from <= i < styled.len() implies starts_with_prefixes(
        writer.line_prefixes,
        #[trigger] styled[i],
    ) by {
        if i >= writer.lines.len() {
            lemma_decorated_marked(writer, lines[i - writer.lines.len()]);
        } else {
            assert(styled[i] == writer.lines[i]);
        }
    }
    assert forall|i: int| from <= i < after.len() implies starts_with_prefixes(
        writer.line_prefixes,
        #[trigger] after[i],
    ) by {
        if i >= writer.lines.len() {
            lemma_decorated_marked(writer, lines[i - writer.lines.len()]);
        } else {
            assert(after[i] == writer.lines[i]);
        }
    }
}

/// Writing a blank line if one is due keeps the lines marked.
proof fn lemma_break_marked(writer: WriterView, from: nat)
    requires
        marked_from(writer.line_prefixes, writer.lines, from),
    ensures
        marked_from(writer.line_prefixes, writer.break_if_due().lines, from),
{
    lemma_push_line_marked(writer, blank_line(), from);
}

/// Writing a span keeps the lines marked.
proof fn lemma_push_span_marked(writer: WriterView, span: SpanView, from: nat)
    requires
        marked_from(writer.line_prefixes, writer.lines, from),
    ensures
        marked_from(writer.line_prefixes, writer.push_span(span).lines, from),
{
    let prefixes = writer.line_prefixes;
    if !writer.in_table_cell() {
        if writer.lines.len() > 0 {
            let last = writer.lines.last();
            let after = writer.push_span(span).lines;
            assert forall|i: int| from <= i < after.len() implies starts_with_prefixes(
                prefixes,
                #[trigger] after[i],
            ) by {
                assert(starts_with_prefixes(prefixes, writer.lines[i]));
                if i == after.len() - 1 && prefixes.len() > 0 {
                    assert(last.spans.push(span).take((prefixes.len() + 1) as int) =~= last.spans.take(
                        (prefixes.len() + 1) as int,
                    ));
                }
            }
        } else {
            lemma_push_line_marked(
                writer,
                LineView { spans: seq![span], style: Style::new() },
                from,
            );
        }
    }
}

/// Writing lines of text keeps the lines marked.
proof fn lemma_write_lines_marked(writer: WriterView, lines: Seq<Seq<char>>, from: nat)
    requires
        marked_from(writer.line_prefixes, writer.lines, from),
    ensures
        marked_from(writer.line_prefixes, writer.write_lines(lines).lines, from),
    decreases lines.len(),
{
    if lines.len() > 0 {
        let before = writer.write_lines(lines.drop_last());
        lemma_write_lines_marked(writer, lines.drop_last(), from);
        lemma_write_lines_frame(writer, lines.drop_last());
        lemma_break_marked(before, from);
        let broken = WriterView { needs_newline: false, ..before.break_if_due() };
        lemma_push_line_marked(broken, blank_line(), from);
        let started = if lines.len() > 1 {
            broken.push_line(blank_line())
        } else {
            broken
        };
        lemma_push_span_marked(
            started,
            SpanView { content: lines.last(), style: top(writer.inline_styles) },
            from,
        );
    }
}

/// The start of a block that writes lines of its own keeps the lines marked.
proof fn lemma_start_block_marked(writer: WriterView, tag: TagView, from: nat)
    requires
        marked_from(writer.line_prefixes, writer.lines, from),
        tag is Paragraph || tag is Heading || tag is CodeBlock || tag is MetadataBlock,
    ensures
        marked_from(writer.line_prefixes, writer.start_tag(tag).lines, from),
{
    lemma_break_marked(writer, from);
    lemma_push_line_marked(writer, blank_line(), from);
    let broken = writer.break_if_due();
    match tag {
        TagView::Paragraph => {
            lemma_push_line_marked(broken, blank_line(), from);
        },
        TagView::Heading(level, meta) => {
            let line = LineView {
                spans: seq![
                    raw_span(repeated('#', level.number() as nat) + " "@),
                ],
                style: (writer.palette.heading)(level.number()),
            };
            lemma_push_line_marked(broken, line, from);
        },
        TagView::CodeBlock(kind) => {
            let set_apart = if writer.lines.len() > 0 {
                writer.push_line(blank_line())
            } else {
                writer
            };
            let lang = match kind {
                CodeBlockKindView::Fenced(lang) => lang,
                CodeBlockKindView::Indented => Seq::empty(),
            };
            let styled = WriterView {
                line_styles: writer.start_tag(tag).line_styles,
                code_highlighter: writer.start_tag(tag).code_highlighter,
                ..set_apart
            };
            lemma_push_line_marked(styled, raw_line("```"@ + lang), from);
        },
        TagView::MetadataBlock => {
            let styled = WriterView {
                line_styles: broken.line_styles.push(writer.palette.metadata_block),
                ..broken
            };
            lemma_push_line_marked(styled, raw_line("---"@), from);
            lemma_push_line_marked(styled.push_line(raw_line("---"@)), blank_line(), from);
        },
        _ => {},
    }
}

/// The start of an item keeps the lines marked.
proof fn lemma_start_item_marked(writer: WriterView, from: nat)
    requires
        marked_from(writer.line_prefixes, writer.lines, from),
    ensures
        marked_from(writer.line_prefixes, writer.start_item().lines, from),
{
    lemma_push_line_marked(writer, blank_line(), from);
    let index = writer.list_indices.last();
    let numbered = WriterView {
        list_indices: writer.start_item().list_indices,
        ..writer.push_line(blank_line())
    };
    lemma_push_span_marked(numbered, item_marker(writer.list_indices.len(), index), from);
}

/// The start of an element keeps the lines marked.
proof fn lemma_start_tag_marked(writer: WriterView, tag: TagView, from: nat)
    requires
        marked_from(writer.line_prefixes, writer.lines, from),
    ensures
        marked_from(writer.line_prefixes, writer.start_tag(tag).lines, from),
{
    match tag {
        TagView::Paragraph => {
            lemma_start_block_marked(writer, tag, from);
        },
        TagView::Heading(level, meta) => {
            lemma_start_block_marked(writer, tag, from);
        },
        TagView::BlockQuote => {
            lemma_break_marked(writer, from);
        },
        TagView::CodeBlock(kind) => {
            lemma_start_block_marked(writer, tag, from);
        },
        TagView::HtmlBlock => {},
        TagView::List(index) => {
            lemma_break_marked(writer, from);
        },
        TagView::Item => {
            lemma_start_item_marked(writer, from);
        },
        TagView::FootnoteDefinition => {},
        TagView::DefinitionList => {},
        TagView::DefinitionListTitle => {},
        TagView::DefinitionListDefinition => {},
        TagView::Table(alignments) => {
            lemma_break_marked(writer, from);
        },
        TagView::TableHead => {},
        TagView::TableRow => {},
        TagView::TableCell => {},
        TagView::Emphasis => {},
        TagView::Strong => {},
        TagView::Strikethrough => {},
        TagView::Superscript => {},
        TagView::Subscript => {},
        TagView::Link(url) => {},
        TagView::Image => {},
        TagView::MetadataBlock => {
            lemma_start_block_marked(writer, tag, from);
        },
    }
}

/// The end of a link keeps the lines marked.
proof fn lemma_pop_link_marked(writer: WriterView, from: nat)
    requires
        marked_from(writer.line_prefixes, writer.lines, from),
    ensures
        marked_from(writer.line_prefixes, writer.pop_link().lines, from),
{
    if let Some(url) = writer.link {
        let first = WriterView { link: None, ..writer };
        let second = first.push_span(raw_span(" ("@));
        let address = SpanView { content: url, style: writer.palette.link };
        lemma_push_span_marked(first, raw_span(" ("@), from);
        lemma_push_span_marked(second, address, from);
        lemma_push_span_marked(second.push_span(address), raw_span(")"@), from);
    }
}

/// The end of an element keeps the lines marked.
proof fn lemma_end_tag_marked(writer: WriterView, kind: TagEnd, from: nat)
    requires
        marked_from(writer.line_prefixes, writer.lines, from),
    ensures
        marked_from(writer.line_prefixes, writer.end_tag(kind).lines, from),
{
    match kind {
        TagEnd::Paragraph => {},
        TagEnd::Heading => {
            if let Some(meta) = writer.heading_meta {
                if let Some(suffix) = meta.suffix() {
                    lemma_push_span_marked(
                        WriterView { heading_meta: None, ..writer },
                        SpanView { content: suffix, style: writer.palette.heading_meta },
                        from,
                    );
                }
            }
        },
        TagEnd::BlockQuote => {},
        TagEnd::CodeBlock => {
            lemma_push_line_marked(writer, raw_line("```"@), from);
        },
        TagEnd::HtmlBlock => {},
        TagEnd::List => {},
        TagEnd::Item => {},
        TagEnd::FootnoteDefinition => {},
        TagEnd::DefinitionList => {},
        TagEnd::DefinitionListTitle => {},
        TagEnd::DefinitionListDefinition => {},
        TagEnd::Table => {
            if let Some(table) = writer.table {
                lemma_push_lines_marked(
                    WriterView { table: None, ..writer },
                    table.end_row().lines(writer.palette.table_header),
                    from,
                );
            }
        },
        TagEnd::TableHead => {},
        TagEnd::TableRow => {},
        TagEnd::TableCell => {},
        TagEnd::Emphasis => {},
        TagEnd::Strong => {},
        TagEnd::Strikethrough => {},
        TagEnd::Superscript => {},
        TagEnd::Subscript => {},
        TagEnd::Link => {
            lemma_pop_link_marked(writer, from);
        },
        TagEnd::Image => {},
        TagEnd::MetadataBlock => {
            lemma_push_line_marked(writer, raw_line("---"@), from);
        },
    }
}

/// Text keeps the lines marked, highlighted code too.
proof fn lemma_text_marked(writer: WriterView, text: Seq<char>, from: nat)
    requires
        marked_from(writer.line_prefixes, writer.lines, from),
    ensures
        marked_from(writer.line_prefixes, writer.text(text).lines, from),
{
    if writer.in_table_cell() {
        let span = SpanView {
            content: joined(lines_of(text), " "@),
            style: top(writer.inline_styles),
        };
        lemma_push_span_marked(writer, span, from);
    } else {
        match writer.code_highlighter {
            Some(highlighter) => {
                lemma_push_lines_marked(
                    writer,
                    highlighter.shown_lines(lines_with_endings(text)),
                    from,
                );
            },
            None => {
                lemma_write_lines_marked(writer, lines_of(text), from);
            },
        }
    }
}

/// An event that neither starts nor ends an element adds marked lines.
proof fn lemma_leaf_marked(writer: WriterView, event: EventView)
    requires
        !(event is Start),
        !(event is End),
    ensures
        marked_from(writer.line_prefixes, writer.step(event).lines, writer.lines.len()),
{
    reveal(WriterView::step);
    let from = writer.lines.len();
    assert(marked_from(writer.line_prefixes, writer.lines, from));
    lemma_push_span_marked(writer, raw_span(" "@), from);
    lemma_push_line_marked(writer, blank_line(), from);
    match event {
        EventView::Start(tag) => {},
        EventView::End(kind) => {},
        EventView::Text(text) => {
            lemma_text_marked(writer, text, from);
        },
        EventView::Code(code) => {
            lemma_push_span_marked(
                writer,
                SpanView { content: code, style: writer.palette.code },
                from,
            );
        },
        EventView::InlineMath => {},
        EventView::DisplayMath => {},
        EventView::Html => {},
        EventView::InlineHtml => {},
        EventView::FootnoteReference => {},
        EventView::SoftBreak => {},
        EventView::HardBreak => {},
        EventView::Rule => {
            lemma_break_marked(writer, from);
            lemma_push_line_marked(writer.break_if_due(), raw_line("---"@), from);
        },
        EventView::TaskListMarker(checked) => {
            lemma_push_span_marked(writer, raw_span(task_box(checked)), from);
        },
    }
}

/// Every line that an event adds starts with the prefixes that were set before, and a space:
/// fences, code (highlighted or not), tables and blank lines too.
pub proof fn law_added_lines_start_with_the_prefixes(
    writer: WriterView,
    event: EventView,
    i: int,
)
    requires
        writer.lines.len() <= i < writer.step(event).lines.len(),
    ensures
        starts_with_prefixes(writer.line_prefixes, writer.step(event).lines[i]),
{
    let from = writer.lines.len();
    assert(marked_from(writer.line_prefixes, writer.lines, from));
    match event {
        EventView::Start(tag) => {
            assert(writer.step(event) == writer.start_tag(tag)) by {
                reveal(WriterView::step);
            }
            lemma_start_tag_marked(writer, tag, from);
        },
        EventView::End(kind) => {
            assert(writer.step(event) == writer.end_tag(kind)) by {
                reveal(WriterView::step);
            }
            lemma_end_tag_marked(writer, kind, from);
        },
        _ => {
            lemma_leaf_marked(writer, event);
        },
    }
}

/// Every line that is written in block quotes starts with one mark for each of them and a space.
pub proof fn law_lines_in_block_quotes_are_marked(
    palette: Palette,
    highlighting: Option<CodeHighlightingView>,
    events: Seq<EventView>,
    event: EventView,
    i: int,
)
    requires
        open_elements(events) is Some,
        count_kinds(open_elements(events)->0, set![TagEnd::BlockQuote]) > 0,
        ({
            let writer = WriterView::empty(palette, highlighting).run(events);
            writer.lines.len() <= i < writer.step(event).lines.len()
        }),
    ensures
        ({
            let writer = WriterView::empty(palette, highlighting).run(events);
            let quotes = count_kinds(open_elements(events)->0, set![TagEnd::BlockQuote]);
            let line = writer.step(event).lines[i];
            &&& line.spans.len() > quotes
            &&& line.spans.take((quotes + 1) as int) == quote_marks(quotes).push(raw_span(" "@))
        }),
{
    law_prefixes_are_quote_marks(palette, highlighting, events);
    law_added_lines_start_with_the_prefixes(
        WriterView::empty(palette, highlighting).run(events),
        event,
        i,
    );
}

} // verus!
