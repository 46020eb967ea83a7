//! How blocks follow one another, and what is not shown.

use vstd::prelude::*;

use crate::event::{EventView, HeadingLevel, HeadingMetaView, TagEnd, TagView};
use crate::highlight::CodeHighlightingView;
use crate::laws::frame::lemma_write_lines_frame;
use crate::model::{rendered, WriterView};
use crate::strings::lines_of;
use crate::style_sheet::Palette;
use crate::text::{blank_line, raw_span, LineView, SpanView};

verus! {

/// Whether an event ends a block here. A metadata block ends only where one is being written, and a
/// table only where one is being read.
pub open spec fn ends_block(writer: WriterView, event: EventView) -> bool {
    match event {
        EventView::End(kind) => match kind {
            TagEnd::Paragraph | TagEnd::Heading | TagEnd::BlockQuote | TagEnd::CodeBlock
            | TagEnd::List => true,
            TagEnd::MetadataBlock => writer.in_metadata_block,
            TagEnd::Table => writer.table is Some,
            _ => false,
        },
        EventView::Rule => true,
        _ => false,
    }
}

/// Whether an event starts a block here. A list in another list is part of it; before the first
/// line of a document there is nothing that a code block could be set apart from.
pub open spec fn starts_block(writer: WriterView, event: EventView) -> bool {
    match event {
        EventView::Start(tag) => match tag {
            TagView::Paragraph | TagView::Heading(_, _) | TagView::BlockQuote | TagView::Table(_)
            | TagView::MetadataBlock => true,
            TagView::CodeBlock(_) => writer.lines.len() > 0,
            TagView::List(_) => writer.list_indices.len() == 0,
            _ => false,
        },
        EventView::Rule => true,
        _ => false,
    }
}

/// Whether `after` has the lines of `before` and then `line`.
pub open spec fn begins_with(after: Seq<LineView>, before: Seq<LineView>, line: LineView) -> bool {
    &&& after.len() > before.len()
    &&& after.take(before.len() as int) == before
    &&& after[before.len() as int] == line
}

/// After a block a blank line is due.
pub proof fn law_blank_line_is_due_after_a_block(writer: WriterView, event: EventView)
    requires
        ends_block(writer, event),
    ensures
        writer.step(event).needs_newline,
{
    reveal(WriterView::step);
    match event {
        EventView::End(kind) => match kind {
            TagEnd::Paragraph => {},
            TagEnd::Heading => {},
            TagEnd::BlockQuote => {},
            TagEnd::CodeBlock => {},
            TagEnd::List => {},
            TagEnd::MetadataBlock => {},
            TagEnd::Table => {},
            _ => {},
        },
        EventView::Rule => {},
        _ => {},
    }
}

/// Where a blank line is due, the start of a block writes it.
proof fn lemma_start_writes_blank_line(writer: WriterView, event: EventView)
    requires
        writer.needs_newline,
        starts_block(writer, event),
    ensures
        begins_with(writer.step(event).lines, writer.lines, writer.decorated(blank_line())),
{
    reveal(WriterView::step);
    let after = writer.step(event).lines;
    let count = writer.lines.len() as int;
    match event {
        EventView::Start(tag) => match tag {
            TagView::Paragraph => {
                assert(after.take(count) =~= writer.lines);
            },
            TagView::Heading(level, meta) => {
                assert(after.take(count) =~= writer.lines);
            },
            TagView::BlockQuote => {
                assert(after.take(count) =~= writer.lines);
            },
            TagView::Table(alignments) => {
                assert(after.take(count) =~= writer.lines);
            },
            TagView::MetadataBlock => {
                assert(after.take(count) =~= writer.lines);
            },
            TagView::CodeBlock(kind) => {
                assert(after.take(count) =~= writer.lines);
            },
            TagView::List(index) => {
                assert(after.take(count) =~= writer.lines);
            },
            _ => {},
        },
        EventView::Rule => {
            assert(after.take(count) =~= writer.lines);
        },
        _ => {},
    }
}

/// There is a blank line between two blocks: where one block ends and the next one starts, the next
/// line after those written so far is blank.
pub proof fn law_blocks_are_set_apart(writer: WriterView, end: EventView, start: EventView)
    requires
        ends_block(writer, end),
        starts_block(writer.step(end), start),
    ensures
        begins_with(
            writer.step(end).step(start).lines,
            writer.step(end).lines,
            writer.step(end).decorated(blank_line()),
        ),
{
    law_blank_line_is_due_after_a_block(writer, end);
    lemma_start_writes_blank_line(writer.step(end), start);
}

/// Whether an event is of a kind that is not shown: HTML, mathematics, footnotes, definition lists
/// and images, of which only the text in them is shown.
pub open spec fn is_not_shown(event: EventView) -> bool {
    match event {
        EventView::Start(tag) => match tag {
            TagView::HtmlBlock | TagView::FootnoteDefinition | TagView::DefinitionList
            | TagView::DefinitionListTitle | TagView::DefinitionListDefinition | TagView::Image => {
                true
            },
            _ => false,
        },
        EventView::End(kind) => match kind {
            TagEnd::HtmlBlock | TagEnd::FootnoteDefinition | TagEnd::DefinitionList
            | TagEnd::DefinitionListTitle | TagEnd::DefinitionListDefinition | TagEnd::Image => {
                true
            },
            _ => false,
        },
        EventView::InlineMath | EventView::DisplayMath | EventView::Html | EventView::InlineHtml
        | EventView::FootnoteReference => true,
        _ => false,
    }
}

/// The events that are shown.
pub open spec fn shown_events(events: Seq<EventView>) -> Seq<EventView>
    decreases events.len(),
{
    if events.len() == 0 {
        events
    } else if is_not_shown(events.last()) {
        shown_events(events.drop_last())
    } else {
        shown_events(events.drop_last()).push(events.last())
    }
}

/// An event that is not shown can always come and changes nothing.
pub proof fn law_what_is_not_shown_changes_nothing(writer: WriterView, event: EventView)
    requires
        is_not_shown(event),
    ensures
        writer.step(event) == writer,
        writer.accepts(event),
{
    reveal(WriterView::step);
    reveal(WriterView::accepts);
    match event {
        EventView::Start(tag) => match tag {
            TagView::HtmlBlock => {},
            TagView::FootnoteDefinition => {},
            TagView::DefinitionList => {},
            TagView::DefinitionListTitle => {},
            TagView::DefinitionListDefinition => {},
            TagView::Image => {},
            _ => {},
        },
        EventView::End(kind) => match kind {
            TagEnd::HtmlBlock => {},
            TagEnd::FootnoteDefinition => {},
            TagEnd::DefinitionList => {},
            TagEnd::DefinitionListTitle => {},
            TagEnd::DefinitionListDefinition => {},
            TagEnd::Image => {},
            _ => {},
        },
        EventView::InlineMath => {},
        EventView::DisplayMath => {},
        EventView::Html => {},
        EventView::InlineHtml => {},
        EventView::FootnoteReference => {},
        _ => {},
    }
}

/// Events do what those of them do that are shown.
proof fn lemma_run_shown(writer: WriterView, events: Seq<EventView>)
    ensures
        writer.run(events) == writer.run(shown_events(events)),
        writer.accepts_all(events) == writer.accepts_all(shown_events(events)),
    decreases events.len(),
{
    if events.len() > 0 {
        let before = events.drop_last();
        lemma_run_shown(writer, before);
        if is_not_shown(events.last()) {
            law_what_is_not_shown_changes_nothing(writer.run(before), events.last());
        } else {
            assert(shown_events(events).drop_last() =~= shown_events(before));
        }
    }
}

/// What is not shown leaves no trace: a document is rendered as it would be without the events of
/// the kinds that are not shown.
pub proof fn law_what_is_not_shown_leaves_no_trace(
    palette: Palette,
    highlighting: Option<CodeHighlightingView>,
    events: Seq<EventView>,
)
    ensures
        rendered(palette, highlighting, events) == rendered(
            palette,
            highlighting,
            shown_events(events),
        ),
{
    lemma_run_shown(WriterView::empty(palette, highlighting), events);
}

/// Whether an event starts or ends a link.
pub open spec fn is_link_event(event: EventView) -> bool {
    match event {
        EventView::Start(TagView::Link(_)) => true,
        EventView::End(TagEnd::Link) => true,
        _ => false,
    }
}

/// Whether an event starts or ends a heading.
pub open spec fn is_heading_event(event: EventView) -> bool {
    match event {
        EventView::Start(TagView::Heading(_, _)) => true,
        EventView::End(TagEnd::Heading) => true,
        _ => false,
    }
}

/// The start of an element other than a link or a heading leaves the address and the attributes.
proof fn lemma_start_tag_keeps_notes(writer: WriterView, tag: TagView)
    ensures
        !(tag is Link) ==> writer.start_tag(tag).link == writer.link,
        !(tag is Heading) ==> writer.start_tag(tag).heading_meta == writer.heading_meta,
{
    match tag {
        TagView::Paragraph => {},
        TagView::Heading(level, meta) => {},
        TagView::BlockQuote => {},
        TagView::CodeBlock(kind) => {},
        TagView::HtmlBlock => {},
        TagView::List(index) => {},
        TagView::Item => {},
        TagView::FootnoteDefinition => {},
        TagView::DefinitionList => {},
        TagView::DefinitionListTitle => {},
        TagView::DefinitionListDefinition => {},
        TagView::Table(alignments) => {},
        TagView::TableHead => {},
        TagView::TableRow => {},
        TagView::TableCell => {},
        TagView::Emphasis => {},
        TagView::Strong => {},
        TagView::Strikethrough => {},
        TagView::Superscript => {},
        TagView::Subscript => {},
        TagView::Link(url) => {},
        TagView::Image => {},
        TagView::MetadataBlock => {},
    }
}

/// The end of an element other than a link or a heading leaves the address and the attributes.
proof fn lemma_end_tag_keeps_notes(writer: WriterView, kind: TagEnd)
    ensures
        !(kind is Link) ==> writer.end_tag(kind).link == writer.link,
        !(kind is Heading) ==> writer.end_tag(kind).heading_meta == writer.heading_meta,
{
    match kind {
        TagEnd::Paragraph => {},
        TagEnd::Heading => {},
        TagEnd::BlockQuote => {},
        TagEnd::CodeBlock => {},
        TagEnd::HtmlBlock => {},
        TagEnd::List => {},
        TagEnd::Item => {},
        TagEnd::FootnoteDefinition => {},
        TagEnd::DefinitionList => {},
        TagEnd::DefinitionListTitle => {},
        TagEnd::DefinitionListDefinition => {},
        TagEnd::Table => {},
        TagEnd::TableHead => {},
        TagEnd::TableRow => {},
        TagEnd::TableCell => {},
        TagEnd::Emphasis => {},
        TagEnd::Strong => {},
        TagEnd::Strikethrough => {},
        TagEnd::Superscript => {},
        TagEnd::Subscript => {},
        TagEnd::Link => {},
        TagEnd::Image => {},
        TagEnd::MetadataBlock => {},
    }
}

/// An event leaves the address of the link that is being written, unless it belongs to a link, and
/// the attributes of the heading, unless it belongs to a heading.
pub proof fn lemma_step_keeps_notes(writer: WriterView, event: EventView)
    ensures
        !is_link_event(event) ==> writer.step(event).link == writer.link,
        !is_heading_event(event) ==> writer.step(event).heading_meta == writer.heading_meta,
{
    reveal(WriterView::step);
    match event {
        EventView::Start(tag) => {
            lemma_start_tag_keeps_notes(writer, tag);
        },
        EventView::End(kind) => {
            lemma_end_tag_keeps_notes(writer, kind);
        },
        EventView::Text(text) => {
            lemma_write_lines_frame(writer, lines_of(text));
        },
        EventView::Code(code) => {},
        EventView::InlineMath => {},
        EventView::DisplayMath => {},
        EventView::Html => {},
        EventView::InlineHtml => {},
        EventView::FootnoteReference => {},
        EventView::SoftBreak => {},
        EventView::HardBreak => {},
        EventView::Rule => {},
        EventView::TaskListMarker(checked) => {},
    }
}

/// Events without links leave the address.
proof fn lemma_run_keeps_link(writer: WriterView, events: Seq<EventView>)
    requires
        forall|i: int| 0 <= i < events.len() ==> !is_link_event(#[trigger] events[i]),
    ensures
        writer.run(events).link == writer.link,
    decreases events.len(),
{
    if events.len() > 0 {
        assert forall|i: int| 0 <= i < events.len() - 1 implies !is_link_event(
            #[trigger] events.drop_last()[i],
        ) by {
            assert(events.drop_last()[i] == events[i]);
        }
        lemma_run_keeps_link(writer, events.drop_last());
        assert(!is_link_event(events[events.len() - 1]));
        lemma_step_keeps_notes(writer.run(events.drop_last()), events.last());
    }
}

/// Events without headings leave the attributes.
proof fn lemma_run_keeps_heading_meta(writer: WriterView, events: Seq<EventView>)
    requires
        forall|i: int| 0 <= i < events.len() ==> !is_heading_event(#[trigger] events[i]),
    ensures
        writer.run(events).heading_meta == writer.heading_meta,
    decreases events.len(),
{
    if events.len() > 0 {
        assert forall|i: int| 0 <= i < events.len() - 1 implies !is_heading_event(
            #[trigger] events.drop_last()[i],
        ) by {
            assert(events.drop_last()[i] == events[i]);
        }
        lemma_run_keeps_heading_meta(writer, events.drop_last());
        assert(!is_heading_event(events[events.len() - 1]));
        lemma_step_keeps_notes(writer.run(events.drop_last()), events.last());
    }
}

/// A link ends with the address that it started with: whatever stands in the link, except another
/// link, its end writes that address in brackets.
pub proof fn law_link_ends_with_its_address(
    writer: WriterView,
    url: Seq<char>,
    inside: Seq<EventView>,
)
    requires
        forall|i: int| 0 <= i < inside.len() ==> !is_link_event(#[trigger] inside[i]),
    ensures
        ({
            let read = writer.step(EventView::Start(TagView::Link(url))).run(inside);
            let address = SpanView { content: url, style: read.palette.link };
            read.step(EventView::End(TagEnd::Link)) == (WriterView { link: None, ..read })
                .push_span(raw_span(" ("@)).push_span(address).push_span(raw_span(")"@))
        }),
{
    reveal(WriterView::step);
    lemma_run_keeps_link(writer.step(EventView::Start(TagView::Link(url))), inside);
}

/// A heading ends with the attributes that it started with: whatever stands in the heading, except
/// another heading, its end writes them behind the text, if there are any.
pub proof fn law_heading_ends_with_its_attributes(
    writer: WriterView,
    level: HeadingLevel,
    meta: HeadingMetaView,
    inside: Seq<EventView>,
)
    requires
        forall|i: int| 0 <= i < inside.len() ==> !is_heading_event(#[trigger] inside[i]),
    ensures
        ({
            let read = writer.step(EventView::Start(TagView::Heading(level, meta))).run(inside);
            let ended = read.step(EventView::End(TagEnd::Heading));
            let taken = WriterView { heading_meta: None, ..read };
            ended == (WriterView {
                needs_newline: true,
                ..match meta.suffix() {
                    Some(suffix) => taken.push_span(
                        SpanView { content: suffix, style: read.palette.heading_meta },
                    ),
                    None => taken,
                }
            })
        }),
{
    reveal(WriterView::step);
    lemma_run_keeps_heading_meta(
        writer.step(EventView::Start(TagView::Heading(level, meta))),
        inside,
    );
}

} // verus!
