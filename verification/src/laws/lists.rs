//! Items of lists and their marks.

use vstd::prelude::*;

use crate::event::{EventView, TagEnd, TagView};
use crate::laws::nesting::{balanced, items_in_lists, law_lists_are_restored};
use crate::model::{item_marker, task_box, WriterView};
use crate::strings::has_suffix;
use crate::text::{blank_line, raw_span, LineView, SpanView};

verus! {

/// What the events of an item do.
pub proof fn lemma_item_events(writer: WriterView, checked: bool)
    ensures
        writer.step(EventView::Start(TagView::Item)) == writer.start_item(),
        writer.step(EventView::End(TagEnd::Item)) == writer,
        writer.step(EventView::Start(TagView::Paragraph)) == writer.start_paragraph(),
        writer.step(EventView::TaskListMarker(checked)) == writer.task_list_marker(checked),
        writer.accepts(EventView::Start(TagView::Item)) == writer.accepts_item(),
        writer.accepts(EventView::TaskListMarker(checked)) == writer.accepts_task_list_marker(),
{
    reveal(WriterView::step);
    reveal(WriterView::accepts);
}

/// An item stands on a line of its own, directly below what has been written, and starts with its
/// mark; a paragraph that it starts with stands on that same line.
pub proof fn law_item_starts_on_its_own_line(writer: WriterView)
    requires
        writer.accepts(EventView::Start(TagView::Item)),
        !writer.in_table_cell(),
    ensures
        ({
            let item = writer.step(EventView::Start(TagView::Item));
            let line = writer.decorated(blank_line());
            let mark = item_marker(writer.list_indices.len(), writer.list_indices.last());
            &&& item.lines == writer.lines.push(LineView { spans: line.spans.push(mark), ..line })
            &&& item.step(EventView::Start(TagView::Paragraph)).lines == item.lines
        }),
{
    let item = writer.start_item();
    lemma_item_events(writer, false);
    lemma_item_events(item, false);
    let line = writer.decorated(blank_line());
    let mark = item_marker(writer.list_indices.len(), writer.list_indices.last());
    assert(item.lines =~= writer.lines.push(LineView { spans: line.spans.push(mark), ..line }));
}

/// The items of an ordered list are numbered in order: whatever stands in an item, the next item of
/// the same list has the next number. The items of another list stay without numbers.
pub proof fn law_items_are_numbered_in_order(writer: WriterView, inside: Seq<EventView>)
    requires
        writer.accepts(EventView::Start(TagView::Item)),
        balanced(inside),
        items_in_lists(inside),
    ensures
        ({
            let next = writer.step(EventView::Start(TagView::Item)).run(inside).step(
                EventView::End(TagEnd::Item),
            );
            next.list_indices == writer.list_indices.drop_last().push(
                match writer.list_indices.last() {
                    Some(n) => Some((n + 1) as u64),
                    None => None,
                },
            )
        }),
{
    lemma_item_events(writer, false);
    lemma_item_events(writer.start_item().run(inside), false);
    law_lists_are_restored(writer.start_item(), inside);
}

/// The mark of an item without a number ends with a dash and a space, and that of a numbered item
/// does not.
proof fn lemma_marker_suffix(depth: nat, index: Option<u64>)
    ensures
        has_suffix(item_marker(depth, index).content, "- "@) == (index is None),
{
    reveal_strlit("- ");
    reveal_strlit(". ");
    let content = item_marker(depth, index).content;
    match index {
        None => {
            assert(content.skip(content.len() - 2) =~= "- "@);
        },
        Some(n) => {
            assert(content.skip(content.len() - 2) =~= ". "@);
            assert(". "@[0] == '.' && "- "@[0] == '-');
        },
    }
}

/// The box of a task stands directly behind the mark of its item. Items in block quotes and in
/// cells are left out: there the first thing on the line is not the mark.
pub proof fn law_task_box_follows_the_mark(writer: WriterView, checked: bool)
    requires
        writer.accepts(EventView::Start(TagView::Item)),
        !writer.in_table_cell(),
        writer.line_prefixes.len() == 0,
    ensures
        ({
            let item = writer.step(EventView::Start(TagView::Item));
            let mark = item_marker(writer.list_indices.len(), writer.list_indices.last());
            &&& item.accepts(EventView::TaskListMarker(checked))
            &&& item.step(EventView::TaskListMarker(checked)).lines.last().spans
                == match writer.list_indices.last() {
                None => seq![SpanView { content: mark.content + task_box(checked), ..mark }],
                Some(_) => seq![mark, raw_span(task_box(checked))],
            }
        }),
{
    let item = writer.start_item();
    lemma_item_events(writer, checked);
    lemma_item_events(item, checked);
    let index = writer.list_indices.last();
    let mark = item_marker(writer.list_indices.len(), index);
    law_item_starts_on_its_own_line(writer);
    lemma_marker_suffix(writer.list_indices.len(), index);
    assert(item.lines.last().spans =~= seq![mark]);
    let spans = item.task_list_marker(checked).lines.last().spans;
    match index {
        None => {
            assert(spans =~= seq![SpanView { content: mark.content + task_box(checked), ..mark }]);
        },
        Some(_) => {
            assert(spans =~= seq![mark, raw_span(task_box(checked))]);
        },
    }
}

} // verus!
