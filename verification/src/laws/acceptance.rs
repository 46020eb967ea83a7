//! Documents whose parts stand where they belong can be rendered.

use vstd::prelude::*;

use crate::event::{tag_end, EventView, TagEnd, TagView};
use crate::highlight::CodeHighlightingView;
use crate::laws::frame::lemma_write_lines_frame;
use crate::laws::lists::{law_item_starts_on_its_own_line, lemma_item_events};
use crate::laws::nesting::{
    count_kinds, is_open, items_in_lists, lemma_drop_last_apart, lemma_run_list_count,
    lemma_step_follows, open_elements,
};
use crate::model::{rendered, top, WriterView};
use crate::strings::{joined, lines_of};
use crate::style_sheet::Palette;
use crate::text::{raw_span, SpanView};

verus! {

/// Whether no item starts in a cell of a table.
pub open spec fn items_outside_cells(events: Seq<EventView>) -> bool {
    forall|i: int|
        0 <= i < events.len() && #[trigger] events[i] == EventView::Start(TagView::Item)
            ==> !is_open(open_elements(events.take(i)), TagEnd::TableCell)
}

/// Whether each ordered list could have `count` items before its numbers run out.
pub open spec fn numbers_suffice(events: Seq<EventView>, count: nat) -> bool {
    forall|i: int|
        0 <= i < events.len() ==> match #[trigger] events[i] {
            EventView::Start(TagView::List(Some(first))) => first + count <= u64::MAX,
            _ => true,
        }
}

/// Whether the box of a task comes directly after the start of its item, or of the first paragraph
/// in it.
pub open spec fn follows_item(events: Seq<EventView>, i: int) -> bool {
    ||| i >= 1 && events[i - 1] == EventView::Start(TagView::Item)
    ||| i >= 2 && events[i - 2] == EventView::Start(TagView::Item) && events[i - 1]
        == EventView::Start(TagView::Paragraph)
}

/// Whether each box of a task follows its item.
pub open spec fn boxes_follow_items(events: Seq<EventView>) -> bool {
    forall|i: int|
        0 <= i < events.len() && #[trigger] events[i] is TaskListMarker ==> follows_item(events, i)
}

/// Whether the width of each cell of each table can be counted.
pub open spec fn tables_fit(writer: WriterView, events: Seq<EventView>) -> bool {
    forall|i: int|
        0 <= i < events.len() && #[trigger] events[i] == EventView::End(TagEnd::Table)
            ==> writer.run(events.take(i)).accepts_table_end()
}

/// Whether the number of each item, where it has one, leaves room for `count` more.
pub open spec fn room_for_items(indices: Seq<Option<u64>>, count: int) -> bool {
    forall|j: int|
        0 <= j < indices.len() ==> (#[trigger] indices[j] matches Some(n) ==> n + count
            <= u64::MAX)
}

/// The events but the last one have what the events have.
proof fn lemma_drop_last_acceptable(writer: WriterView, events: Seq<EventView>, count: nat)
    requires
        events.len() > 0,
    ensures
        items_outside_cells(events) ==> items_outside_cells(events.drop_last()),
        numbers_suffice(events, count) ==> numbers_suffice(events.drop_last(), count),
        boxes_follow_items(events) ==> boxes_follow_items(events.drop_last()),
        tables_fit(writer, events) ==> tables_fit(writer, events.drop_last()),
        events.drop_last() == events.take(events.len() - 1),
{
    let before = events.drop_last();
    assert forall|i: int| 0 <= i < before.len() implies before.take(i) == #[trigger] events.take(i)
        && before[i] == events[i] by {
        assert(before.take(i) =~= events.take(i));
    }
    assert(before =~= events.take(events.len() - 1));
    if items_outside_cells(events) {
        assert forall|i: int|
            0 <= i < before.len() && #[trigger] before[i] == EventView::Start(
                TagView::Item,
            ) implies !is_open(open_elements(before.take(i)), TagEnd::TableCell) by {
            assert(events[i] == before[i]);
            assert(before.take(i) == events.take(i));
        }
    }
    if numbers_suffice(events, count) {
        assert forall|i: int| 0 <= i < before.len() implies match #[trigger] before[i] {
            EventView::Start(TagView::List(Some(first))) => first + count <= u64::MAX,
            _ => true,
        } by {
            assert(events[i] == before[i]);
        }
    }
    if boxes_follow_items(events) {
        assert forall|i: int|
            0 <= i < before.len() && #[trigger] before[i] is TaskListMarker implies follows_item(
            before,
            i,
        ) by {
            assert(events[i] == before[i]);
            assert(follows_item(events, i));
        }
    }
    if tables_fit(writer, events) {
        assert forall|i: int|
            0 <= i < before.len() && #[trigger] before[i] == EventView::End(
                TagEnd::Table,
            ) implies writer.run(before.take(i)).accepts_table_end() by {
            assert(events[i] == before[i]);
            assert(before.take(i) == events.take(i));
        }
    }
}

/// The start of an element other than a cell starts no cell.
proof fn lemma_start_tag_cell(writer: WriterView, tag: TagView)
    requires
        !(tag is TableCell),
        !writer.in_table_cell(),
    ensures
        !writer.start_tag(tag).in_table_cell(),
{
    match tag {
        TagView::Paragraph => {},
        TagView::Heading(level, meta) => {},
        TagView::BlockQuote => {},
        TagView::CodeBlock(kind) => {},
        TagView::HtmlBlock => {},
        TagView::List(index) => {},
        TagView::Item => {},
        TagView::FootnoteDefinition => {},
        TagView::DefinitionList => {},
        TagView::DefinitionListTitle => {},
        TagView::DefinitionListDefinition => {},
        TagView::Table(alignments) => {},
        TagView::TableHead => {},
        TagView::TableRow => {},
        TagView::TableCell => {},
        TagView::Emphasis => {},
        TagView::Strong => {},
        TagView::Strikethrough => {},
        TagView::Superscript => {},
        TagView::Subscript => {},
        TagView::Link(url) => {},
        TagView::Image => {},
        TagView::MetadataBlock => {},
    }
}

/// The end of an element starts no cell, and the end of a cell ends it.
proof fn lemma_end_tag_cell(writer: WriterView, kind: TagEnd)
    requires
        kind is TableCell || !writer.in_table_cell(),
    ensures
        !writer.end_tag(kind).in_table_cell(),
{
    match kind {
        TagEnd::Paragraph => {},
        TagEnd::Heading => {},
        TagEnd::BlockQuote => {},
        TagEnd::CodeBlock => {},
        TagEnd::HtmlBlock => {},
        TagEnd::List => {},
        TagEnd::Item => {},
        TagEnd::FootnoteDefinition => {},
        TagEnd::DefinitionList => {},
        TagEnd::DefinitionListTitle => {},
        TagEnd::DefinitionListDefinition => {},
        TagEnd::Table => {},
        TagEnd::TableHead => {},
        TagEnd::TableRow => {},
        TagEnd::TableCell => {},
        TagEnd::Emphasis => {},
        TagEnd::Strong => {},
        TagEnd::Strikethrough => {},
        TagEnd::Superscript => {},
        TagEnd::Subscript => {},
        TagEnd::Link => {},
        TagEnd::Image => {},
        TagEnd::MetadataBlock => {},
    }
}

/// An event that neither starts nor ends an element starts no cell.
proof fn lemma_leaf_cell(writer: WriterView, event: EventView)
    requires
        !(event is Start),
        !(event is End),
        !writer.in_table_cell(),
    ensures
        !writer.step(event).in_table_cell(),
{
    reveal(WriterView::step);
    match event {
        EventView::Start(tag) => {},
        EventView::End(tag) => {},
        EventView::Text(text) => {
            lemma_write_lines_frame(writer, lines_of(text));
        },
        EventView::Code(code) => {},
        EventView::InlineMath => {},
        EventView::DisplayMath => {},
        EventView::Html => {},
        EventView::InlineHtml => {},
        EventView::FootnoteReference => {},
        EventView::SoftBreak => {},
        EventView::HardBreak => {},
        EventView::Rule => {},
        EventView::TaskListMarker(checked) => {},
    }
}

/// Where no cell is open, none is being read.
proof fn lemma_run_cell(writer: WriterView, events: Seq<EventView>)
    requires
        !writer.in_table_cell(),
        open_elements(events) is Some,
    ensures
        writer.run(events).in_table_cell() ==> is_open(open_elements(events), TagEnd::TableCell),
    decreases events.len(),
{
    if events.len() > 0 {
        let before = writer.run(events.drop_last());
        let open = open_elements(events.drop_last())->0;
        lemma_run_cell(writer, events.drop_last());
        match events.last() {
            EventView::Start(tag) => {
                assert(before.step(EventView::Start(tag)) == before.start_tag(tag)) by {
                    reveal(WriterView::step);
                }
                assert(open.push(tag_end(tag)).drop_last() =~= open);
                assert(tag_end(tag) == TagEnd::TableCell <==> tag is TableCell);
                if !(tag is TableCell) && !before.in_table_cell() {
                    lemma_start_tag_cell(before, tag);
                }
            },
            EventView::End(kind) => {
                assert(before.step(EventView::End(kind)) == before.end_tag(kind)) by {
                    reveal(WriterView::step);
                }
                if kind is TableCell || !before.in_table_cell() {
                    lemma_end_tag_cell(before, kind);
                }
            },
            _ => {
                if !before.in_table_cell() {
                    lemma_leaf_cell(before, events.last());
                }
            },
        }
    }
}

/// There are no more open elements of a kind than events.
proof fn lemma_count_bound(events: Seq<EventView>, kinds: Set<TagEnd>)
    requires
        open_elements(events) is Some,
    ensures
        count_kinds(open_elements(events)->0, kinds) <= events.len(),
    decreases events.len(),
{
    if events.len() > 0 {
        let open = open_elements(events.drop_last())->0;
        lemma_count_bound(events.drop_last(), kinds);
        if let EventView::Start(tag) = events.last() {
            assert(open.push(tag_end(tag)).drop_last() =~= open);
        }
    }
}

/// An event takes the room of one item at most.
proof fn lemma_step_room(writer: WriterView, event: EventView, count: int)
    requires
        0 < count,
        room_for_items(writer.list_indices, count),
        event == EventView::Start(TagView::Item) ==> writer.list_indices.len() > 0,
        match event {
            EventView::Start(TagView::List(Some(first))) => first + count <= u64::MAX,
            _ => true,
        },
    ensures
        room_for_items(writer.step(event).list_indices, count - 1),
{
    if event == EventView::Start(TagView::Item) {
        lemma_item_events(writer, false);
        let next = writer.start_item().list_indices;
        assert(writer.list_indices[writer.list_indices.len() - 1] == writer.list_indices.last());
        assert forall|j: int| 0 <= j < next.len() implies (#[trigger] next[j] matches Some(n)
            ==> n + (count - 1) <= u64::MAX) by {
            if j < next.len() - 1 {
                assert(next[j] == writer.list_indices[j]);
            }
        }
    } else {
        lemma_step_follows(writer, event);
        let next = writer.step(event).list_indices;
        match event {
            EventView::Start(TagView::List(index)) => {
                assert(next == writer.list_indices.push(index)) by {
                    reveal(WriterView::step);
                }
            },
            _ => {},
        }
        assert forall|j: int| 0 <= j < next.len() implies (#[trigger] next[j] matches Some(n)
            ==> n + (count - 1) <= u64::MAX) by {
            if j < writer.list_indices.len() {
                assert(next[j] == writer.list_indices[j]);
            }
        }
    }
}

/// Numbered items have room for those that come.
proof fn lemma_run_room(writer: WriterView, events: Seq<EventView>, count: nat)
    requires
        writer.list_indices.len() == 0,
        open_elements(events) is Some,
        items_in_lists(events),
        events.len() <= count,
        numbers_suffice(events, count),
    ensures
        room_for_items(writer.run(events).list_indices, count - events.len()),
    decreases events.len(),
{
    if events.len() > 0 {
        let before = events.drop_last();
        lemma_drop_last_apart(events);
        lemma_drop_last_acceptable(writer, events, count);
        lemma_run_room(writer, before, count);
        lemma_run_list_count(writer, before);
        assert(events[events.len() - 1] == events.last());
        lemma_step_room(writer.run(before), events.last(), count - before.len());
    }
}

/// Behind the start of an item, and of a paragraph that it starts with, the box of a task can be
/// placed.
proof fn lemma_box_accepted(writer: WriterView, events: Seq<EventView>, checked: bool)
    requires
        !writer.in_table_cell(),
        open_elements(events) is Some,
        items_outside_cells(events),
        writer.accepts_all(events),
        follows_item(events, events.len() as int),
    ensures
        writer.run(events).accepts(EventView::TaskListMarker(checked)),
{
    let last = events.drop_last();
    let item = EventView::Start(TagView::Item);
    assert(last =~= events.take(events.len() - 1));
    assert(events[events.len() - 1] == events.last());
    lemma_item_events(writer.run(events), checked);
    if events.last() == item {
        lemma_run_cell(writer, last);
        law_item_starts_on_its_own_line(writer.run(last));
    } else {
        let first = last.drop_last();
        assert(first =~= events.take(events.len() - 2));
        assert(last.last() == events[events.len() - 2]);
        lemma_run_cell(writer, first);
        assert(writer.accepts_all(last));
        law_item_starts_on_its_own_line(writer.run(first));
    }
}

/// Events whose parts stand where they belong can come.
proof fn lemma_all_accepted(writer: WriterView, events: Seq<EventView>, count: nat)
    requires
        writer.list_indices.len() == 0,
        !writer.in_table_cell(),
        open_elements(events) is Some,
        items_in_lists(events),
        items_outside_cells(events),
        events.len() <= count,
        4 * count <= usize::MAX,
        numbers_suffice(events, count),
        boxes_follow_items(events),
        tables_fit(writer, events),
    ensures
        writer.accepts_all(events),
    decreases events.len(),
{
    if events.len() > 0 {
        let before = events.drop_last();
        let open = open_elements(before)->0;
        let event = events.last();
        lemma_drop_last_apart(events);
        lemma_drop_last_acceptable(writer, events, count);
        lemma_all_accepted(writer, before, count);
        assert(events[events.len() - 1] == event);
        match event {
            EventView::Start(TagView::Item) => {
                lemma_run_list_count(writer, before);
                lemma_count_bound(before, set![TagEnd::List]);
                lemma_run_room(writer, before, count);
                let indices = writer.run(before).list_indices;
                assert(indices[indices.len() - 1] == indices.last());
                lemma_item_events(writer.run(before), false);
            },
            EventView::TaskListMarker(checked) => {
                assert(follows_item(events, events.len() - 1));
                assert(follows_item(before, before.len() as int));
                lemma_box_accepted(writer, before, checked);
            },
            _ => {
                reveal(WriterView::accepts);
            },
        }
    }
}

/// Whether two documents stand at the same place: they have written perhaps other lines, but the
/// elements that are open have left the same marks.
pub open spec fn at_same_place(one: WriterView, other: WriterView) -> bool {
    &&& one.palette == other.palette
    &&& one.inline_styles == other.inline_styles
    &&& one.line_prefixes == other.line_prefixes
    &&& one.list_indices == other.list_indices
    &&& one.link == other.link
    &&& one.heading_meta == other.heading_meta
    &&& one.in_metadata_block == other.in_metadata_block
    &&& one.table == other.table
}

/// A span leaves documents at the same place.
proof fn lemma_push_span_same_place(one: WriterView, other: WriterView, span: SpanView)
    requires
        at_same_place(one, other),
    ensures
        at_same_place(one.push_span(span), other.push_span(span)),
{
}

/// The end of a heading or of a link leaves documents at the same place.
proof fn lemma_end_with_span_same_place(one: WriterView, other: WriterView)
    requires
        at_same_place(one, other),
    ensures
        at_same_place(one.end_heading(), other.end_heading()),
        at_same_place(one.pop_link(), other.pop_link()),
{
    if let Some(meta) = one.heading_meta {
        if let Some(suffix) = meta.suffix() {
            lemma_push_span_same_place(
                WriterView { heading_meta: None, ..one },
                WriterView { heading_meta: None, ..other },
                SpanView { content: suffix, style: one.palette.heading_meta },
            );
        }
    }
    if let Some(url) = one.link {
        let (a1, b1) = (WriterView { link: None, ..one }, WriterView { link: None, ..other });
        let address = SpanView { content: url, style: one.palette.link };
        let (a2, b2) = (a1.push_span(raw_span(" ("@)), b1.push_span(raw_span(" ("@)));
        lemma_push_span_same_place(a1, b1, raw_span(" ("@));
        lemma_push_span_same_place(a2, b2, address);
        lemma_push_span_same_place(
            a2.push_span(address),
            b2.push_span(address),
            raw_span(")"@),
        );
    }
}

/// The start of an element leaves documents at the same place.
proof fn lemma_start_tag_same_place(one: WriterView, other: WriterView, tag: TagView)
    requires
        at_same_place(one, other),
    ensures
        at_same_place(one.start_tag(tag), other.start_tag(tag)),
{
    match tag {
        TagView::Paragraph => {},
        TagView::Heading(level, meta) => {},
        TagView::BlockQuote => {},
        TagView::CodeBlock(kind) => {},
        TagView::HtmlBlock => {},
        TagView::List(index) => {},
        TagView::Item => {},
        TagView::FootnoteDefinition => {},
        TagView::DefinitionList => {},
        TagView::DefinitionListTitle => {},
        TagView::DefinitionListDefinition => {},
        TagView::Table(alignments) => {},
        TagView::TableHead => {},
        TagView::TableRow => {},
        TagView::TableCell => {},
        TagView::Emphasis => {},
        TagView::Strong => {},
        TagView::Strikethrough => {},
        TagView::Superscript => {},
        TagView::Subscript => {},
        TagView::Link(url) => {},
        TagView::Image => {},
        TagView::MetadataBlock => {},
    }
}

/// The end of an element leaves documents at the same place.
proof fn lemma_end_tag_same_place(one: WriterView, other: WriterView, kind: TagEnd)
    requires
        at_same_place(one, other),
    ensures
        at_same_place(one.end_tag(kind), other.end_tag(kind)),
{
    lemma_end_with_span_same_place(one, other);
    match kind {
        TagEnd::Paragraph => {},
        TagEnd::Heading => {},
        TagEnd::BlockQuote => {},
        TagEnd::CodeBlock => {},
        TagEnd::HtmlBlock => {},
        TagEnd::List => {},
        TagEnd::Item => {},
        TagEnd::FootnoteDefinition => {},
        TagEnd::DefinitionList => {},
        TagEnd::DefinitionListTitle => {},
        TagEnd::DefinitionListDefinition => {},
        TagEnd::Table => {},
        TagEnd::TableHead => {},
        TagEnd::TableRow => {},
        TagEnd::TableCell => {},
        TagEnd::Emphasis => {},
        TagEnd::Strong => {},
        TagEnd::Strikethrough => {},
        TagEnd::Superscript => {},
        TagEnd::Subscript => {},
        TagEnd::Link => {},
        TagEnd::Image => {},
        TagEnd::MetadataBlock => {},
    }
}

/// Text leaves documents at the same place.
proof fn lemma_text_same_place(one: WriterView, other: WriterView, text: Seq<char>)
    requires
        at_same_place(one, other),
    ensures
        at_same_place(one.text(text), other.text(text)),
{
    lemma_write_lines_frame(one, lines_of(text));
    lemma_write_lines_frame(other, lines_of(text));
    if one.in_table_cell() {
        lemma_push_span_same_place(
            one,
            other,
            SpanView {
                content: joined(lines_of(text), " "@),
                style: top(one.inline_styles),
            },
        );
    }
}

/// An event that neither starts nor ends an element leaves documents at the same place.
proof fn lemma_leaf_same_place(one: WriterView, other: WriterView, event: EventView)
    requires
        at_same_place(one, other),
        !(event is Start),
        !(event is End),
        event is TaskListMarker ==> one.lines.len() > 0 && other.lines.len() > 0,
    ensures
        at_same_place(one.step(event), other.step(event)),
{
    reveal(WriterView::step);
    lemma_push_span_same_place(one, other, raw_span(" "@));
    match event {
        EventView::Start(tag) => {},
        EventView::End(kind) => {},
        EventView::Text(text) => {
            lemma_text_same_place(one, other, text);
        },
        EventView::Code(code) => {
            lemma_push_span_same_place(
                one,
                other,
                SpanView { content: code, style: one.palette.code },
            );
        },
        EventView::InlineMath => {},
        EventView::DisplayMath => {},
        EventView::Html => {},
        EventView::InlineHtml => {},
        EventView::FootnoteReference => {},
        EventView::SoftBreak => {},
        EventView::HardBreak => {},
        EventView::Rule => {},
        EventView::TaskListMarker(checked) => {},
    }
}

/// An event leaves documents at the same place.
proof fn lemma_step_same_place(one: WriterView, other: WriterView, event: EventView)
    requires
        at_same_place(one, other),
        event is TaskListMarker ==> one.lines.len() > 0 && other.lines.len() > 0,
    ensures
        at_same_place(one.step(event), other.step(event)),
{
    match event {
        EventView::Start(tag) => {
            assert(one.step(event) == one.start_tag(tag) && other.step(event) == other.start_tag(
                tag,
            )) by {
                reveal(WriterView::step);
            }
            lemma_start_tag_same_place(one, other, tag);
        },
        EventView::End(kind) => {
            assert(one.step(event) == one.end_tag(kind) && other.step(event) == other.end_tag(
                kind,
            )) by {
                reveal(WriterView::step);
            }
            lemma_end_tag_same_place(one, other, kind);
        },
        _ => {
            lemma_leaf_same_place(one, other, event);
        },
    }
}

/// An event other than the box of a task can come in both of two documents at the same place, or in
/// neither.
proof fn lemma_accepts_same_place(one: WriterView, other: WriterView, event: EventView)
    requires
        at_same_place(one, other),
        !(event is TaskListMarker),
    ensures
        one.accepts(event) == other.accepts(event),
{
    reveal(WriterView::accepts);
}

/// Behind the start of an item the box of a task can be placed unless the mark of the item went
/// into a cell and nothing else stands on the line.
proof fn lemma_box_behind_item(writer: WriterView, checked: bool)
    ensures
        ({
            let item = writer.step(EventView::Start(TagView::Item));
            let paragraph = item.step(EventView::Start(TagView::Paragraph));
            let placed = !writer.in_table_cell() || writer.line_prefixes.len() > 0;
            &&& item.accepts(EventView::TaskListMarker(checked)) == placed
            &&& paragraph.accepts(EventView::TaskListMarker(checked)) == placed
            &&& item.lines.len() > 0
            &&& paragraph.lines.len() > 0
        }),
{
    let item = writer.start_item();
    let paragraph = item.start_paragraph();
    lemma_item_events(writer, checked);
    lemma_item_events(item, checked);
    lemma_item_events(paragraph, checked);
    assert(paragraph.lines == item.lines);
    assert(item.lines.len() > 0);
}

/// Events whose boxes follow their items can come in both of two documents at the same place, or in
/// neither.
proof fn lemma_run_same_place(one: WriterView, other: WriterView, events: Seq<EventView>)
    requires
        at_same_place(one, other),
        boxes_follow_items(events),
    ensures
        at_same_place(one.run(events), other.run(events)),
        one.accepts_all(events) == other.accepts_all(events),
    decreases events.len(),
{
    if events.len() > 0 {
        let before = events.drop_last();
        lemma_drop_last_acceptable(one, events, 0);
        lemma_run_same_place(one, other, before);
        if !(events.last() is TaskListMarker) {
            lemma_accepts_same_place(one.run(before), other.run(before), events.last());
        }
        if let EventView::TaskListMarker(checked) = events.last() {
            let last = before.last();
            let first = before.drop_last();
            assert(events[events.len() - 1] == events.last());
            assert(follows_item(events, events.len() - 1));
            assert(events[events.len() - 2] == last);
            if last == EventView::Start(TagView::Item) {
                lemma_drop_last_acceptable(one, before, 0);
                lemma_run_same_place(one, other, first);
                lemma_box_behind_item(one.run(first), checked);
                lemma_box_behind_item(other.run(first), checked);
            } else {
                let start = first.drop_last();
                assert(first.last() == events[events.len() - 3]);
                lemma_drop_last_acceptable(one, before, 0);
                lemma_drop_last_acceptable(one, first, 0);
                lemma_run_same_place(one, other, start);
                lemma_box_behind_item(one.run(start), checked);
                lemma_box_behind_item(other.run(start), checked);
            }
        }
        lemma_step_same_place(one.run(before), other.run(before), events.last());
    }
}

/// Whether a document can be rendered does not depend on what its code is highlighted with, as long
/// as each box of a task follows its item. Other boxes are left out: one that comes directly after
/// code can be placed where the last line of the code is not blank.
pub proof fn law_success_does_not_depend_on_highlighting(
    palette: Palette,
    one: Option<CodeHighlightingView>,
    other: Option<CodeHighlightingView>,
    events: Seq<EventView>,
)
    requires
        boxes_follow_items(events),
    ensures
        rendered(palette, one, events) is Some == rendered(palette, other, events) is Some,
{
    lemma_run_same_place(
        WriterView::empty(palette, one),
        WriterView::empty(palette, other),
        events,
    );
}

/// A document is rendered if its parts stand where they belong: elements end in the order in which
/// they nest, items stand in lists and outside of cells, the box of a task directly behind its
/// mark, and nothing is larger than can be counted.
pub proof fn law_well_formed_documents_are_rendered(
    palette: Palette,
    highlighting: Option<CodeHighlightingView>,
    events: Seq<EventView>,
)
    requires
        open_elements(events) is Some,
        items_in_lists(events),
        items_outside_cells(events),
        boxes_follow_items(events),
        4 * events.len() <= usize::MAX,
        numbers_suffice(events, events.len()),
        tables_fit(WriterView::empty(palette, highlighting), events),
    ensures
        rendered(palette, highlighting, events) is Some,
{
    lemma_all_accepted(WriterView::empty(palette, highlighting), events, events.len());
}

} // verus!
