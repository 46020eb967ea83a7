//! Highlighting matters to code blocks alone.

use vstd::prelude::*;

use crate::event::{EventView, TagEnd, TagView};
use crate::highlight::CodeHighlightingView;
use crate::model::{rendered, WriterView};
use crate::strings::{lines_of, lines_with_endings};
use crate::style_sheet::Palette;
use crate::text::LineView;

verus! {

/// Whether an event starts or ends a code block.
pub open spec fn is_code_block_event(event: EventView) -> bool {
    match event {
        EventView::Start(TagView::CodeBlock(_)) => true,
        EventView::End(TagEnd::CodeBlock) => true,
        _ => false,
    }
}

/// Whether any of the events starts or ends a code block.
pub open spec fn has_code_block(events: Seq<EventView>) -> bool {
    exists|i: int| 0 <= i < events.len() && is_code_block_event(#[trigger] events[i])
}

/// The document with other highlighting.
pub open spec fn rehighlighted(
    writer: WriterView,
    highlighting: Option<CodeHighlightingView>,
) -> WriterView {
    WriterView { highlighting, ..writer }
}

/// Lines of text are written alike with any highlighting.
proof fn lemma_write_lines_rehighlighted(
    writer: WriterView,
    highlighting: Option<CodeHighlightingView>,
    lines: Seq<Seq<char>>,
)
    ensures
        rehighlighted(writer, highlighting).write_lines(lines) == rehighlighted(
            writer.write_lines(lines),
            highlighting,
        ),
        writer.write_lines(lines).inline_styles == writer.inline_styles,
    decreases lines.len(),
{
    if lines.len() > 0 {
        lemma_write_lines_rehighlighted(writer, highlighting, lines.drop_last());
    }
}

/// Lines are written alike with any highlighting.
proof fn lemma_push_lines_rehighlighted(
    writer: WriterView,
    highlighting: Option<CodeHighlightingView>,
    lines: Seq<LineView>,
)
    ensures
        rehighlighted(writer, highlighting).push_lines(lines) == rehighlighted(
            writer.push_lines(lines),
            highlighting,
        ),
        rehighlighted(writer, highlighting).push_styled_lines(lines) == rehighlighted(
            writer.push_styled_lines(lines),
            highlighting,
        ),
{
    assert(rehighlighted(writer, highlighting).push_styled_lines(lines).lines
        =~= writer.push_styled_lines(lines).lines);
    assert(rehighlighted(writer, highlighting).push_lines(lines).lines =~= writer.push_lines(
        lines,
    ).lines);
}

/// The start of an element other than a code block does the same with any highlighting.
proof fn lemma_start_tag_rehighlighted(
    writer: WriterView,
    highlighting: Option<CodeHighlightingView>,
    tag: TagView,
)
    requires
        !(tag is CodeBlock),
    ensures
        rehighlighted(writer, highlighting).start_tag(tag) == rehighlighted(
            writer.start_tag(tag),
            highlighting,
        ),
{
    match tag {
        TagView::Paragraph => {},
        TagView::Heading(level, meta) => {},
        TagView::BlockQuote => {},
        TagView::CodeBlock(kind) => {},
        TagView::HtmlBlock => {},
        TagView::List(index) => {},
        TagView::Item => {},
        TagView::FootnoteDefinition => {},
        TagView::DefinitionList => {},
        TagView::DefinitionListTitle => {},
        TagView::DefinitionListDefinition => {},
        TagView::Table(alignments) => {},
        TagView::TableHead => {},
        TagView::TableRow => {},
        TagView::TableCell => {},
        TagView::Emphasis => {},
        TagView::Strong => {},
        TagView::Strikethrough => {},
        TagView::Superscript => {},
        TagView::Subscript => {},
        TagView::Link(url) => {},
        TagView::Image => {},
        TagView::MetadataBlock => {},
    }
}

/// The end of an element other than a code block does the same with any highlighting.
proof fn lemma_end_tag_rehighlighted(
    writer: WriterView,
    highlighting: Option<CodeHighlightingView>,
    tag: TagEnd,
)
    requires
        tag != TagEnd::CodeBlock,
    ensures
        rehighlighted(writer, highlighting).end_tag(tag) == rehighlighted(
            writer.end_tag(tag),
            highlighting,
        ),
{
    match tag {
        TagEnd::Paragraph => {},
        TagEnd::Heading => {},
        TagEnd::BlockQuote => {},
        TagEnd::CodeBlock => {},
        TagEnd::HtmlBlock => {},
        TagEnd::List => {},
        TagEnd::Item => {},
        TagEnd::FootnoteDefinition => {},
        TagEnd::DefinitionList => {},
        TagEnd::DefinitionListTitle => {},
        TagEnd::DefinitionListDefinition => {},
        TagEnd::Table => {
            if let Some(table) = writer.table {
                lemma_push_lines_rehighlighted(
                    WriterView { table: None, ..writer },
                    highlighting,
                    table.end_row().lines(writer.palette.table_header),
                );
            }
        },
        TagEnd::TableHead => {},
        TagEnd::TableRow => {},
        TagEnd::TableCell => {},
        TagEnd::Emphasis => {},
        TagEnd::Strong => {},
        TagEnd::Strikethrough => {},
        TagEnd::Superscript => {},
        TagEnd::Subscript => {},
        TagEnd::Link => {},
        TagEnd::Image => {},
        TagEnd::MetadataBlock => {},
    }
}

/// An event that does not belong to a code block does the same with any highlighting.
proof fn lemma_step_rehighlighted(
    writer: WriterView,
    highlighting: Option<CodeHighlightingView>,
    event: EventView,
)
    requires
        !is_code_block_event(event),
    ensures
        rehighlighted(writer, highlighting).step(event) == rehighlighted(
            writer.step(event),
            highlighting,
        ),
        rehighlighted(writer, highlighting).accepts(event) == writer.accepts(event),
{
    reveal(WriterView::step);
    reveal(WriterView::accepts);
    match event {
        EventView::Start(tag) => {
            lemma_start_tag_rehighlighted(writer, highlighting, tag);
        },
        EventView::End(tag) => {
            lemma_end_tag_rehighlighted(writer, highlighting, tag);
        },
        EventView::Text(text) => {
            lemma_write_lines_rehighlighted(writer, highlighting, lines_of(text));
            if let Some(highlighter) = writer.code_highlighter {
                lemma_push_lines_rehighlighted(
                    writer,
                    highlighting,
                    highlighter.shown_lines(lines_with_endings(text)),
                );
            }
        },
        EventView::Code(code) => {},
        EventView::InlineMath => {},
        EventView::DisplayMath => {},
        EventView::Html => {},
        EventView::InlineHtml => {},
        EventView::FootnoteReference => {},
        EventView::SoftBreak => {},
        EventView::HardBreak => {},
        EventView::Rule => {},
        EventView::TaskListMarker(checked) => {},
    }
}

/// Events without code blocks do the same with any highlighting.
proof fn lemma_run_rehighlighted(
    writer: WriterView,
    highlighting: Option<CodeHighlightingView>,
    events: Seq<EventView>,
)
    requires
        !has_code_block(events),
    ensures
        rehighlighted(writer, highlighting).run(events) == rehighlighted(
            writer.run(events),
            highlighting,
        ),
        rehighlighted(writer, highlighting).accepts_all(events) == writer.accepts_all(events),
    decreases events.len(),
{
    if events.len() > 0 {
        let before = events.drop_last();
        assert forall|i: int| 0 <= i < before.len() implies !is_code_block_event(
            #[trigger] before[i],
        ) by {
            assert(before[i] == events[i]);
        }
        lemma_run_rehighlighted(writer, highlighting, before);
        assert(!is_code_block_event(events[events.len() - 1]));
        lemma_step_rehighlighted(writer.run(before), highlighting, events.last());
    }
}

/// Highlighting matters to code blocks alone: a document without code blocks is rendered alike with
/// any highlighting and with none.
pub proof fn law_highlighting_is_for_code_blocks(
    palette: Palette,
    one: Option<CodeHighlightingView>,
    other: Option<CodeHighlightingView>,
    events: Seq<EventView>,
)
    requires
        !has_code_block(events),
    ensures
        rendered(palette, one, events) == rendered(palette, other, events),
{
    lemma_run_rehighlighted(WriterView::empty(palette, one), other, events);
}

} // verus!
