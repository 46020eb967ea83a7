//! How a document as a whole is rendered: from nothing, event by event, unless an event comes that
//! cannot come where it comes.

use vstd::prelude::*;

use crate::event::{EventView, TagEnd, TagView};
use crate::highlight::{bundled_highlighting, CodeHighlightingView};
use crate::laws::reading::{lemma_end_row, rows_with_row};
use crate::model::{rendered, WriterView};
use crate::options::Options;
use crate::parse::{parsed_events, Extensions};
use crate::rendering;
use crate::style_sheet::{Palette, StyleSheet};
use crate::table::{cell_fits, row_fits};
use crate::text::LineView;
use crate::width::spans_width;

verus! {

/// A document before anything is written: no line, no style, no prefix, no list, and nothing due.
pub open spec fn blank_document(
    palette: Palette,
    highlighting: Option<CodeHighlightingView>,
) -> WriterView {
    WriterView {
        palette,
        highlighting,
        lines: Seq::empty(),
        inline_styles: Seq::empty(),
        line_prefixes: Seq::empty(),
        line_styles: Seq::empty(),
        code_highlighter: None,
        list_indices: Seq::empty(),
        link: None,
        heading_meta: None,
        in_metadata_block: false,
        needs_newline: false,
        just_added_list_item: false,
        table: None,
    }
}

/// A document of no events is rendered as no lines, and one more event at the end of a document
/// does what it does where it comes: the lines are those after all events, if each of them can come
/// where it comes, and there are none otherwise.
pub proof fn law_document_is_rendered_event_by_event(
    palette: Palette,
    highlighting: Option<CodeHighlightingView>,
    events: Seq<EventView>,
    event: EventView,
)
    ensures
        ({
            let start = blank_document(palette, highlighting);
            let all = events + seq![event];
            &&& start.run(Seq::empty()) == start
            &&& start.run(all) == start.run(events).step(event)
            &&& rendered(palette, highlighting, Seq::empty()) == Some(Seq::<LineView>::empty())
            &&& rendered(palette, highlighting, events) matches Some(lines) ==> lines == start.run(
                events,
            ).lines
            &&& rendered(palette, highlighting, all) is Some == (rendered(
                palette,
                highlighting,
                events,
            ) is Some && start.run(events).accepts(event))
        }),
{
    assert((events + seq![event]).drop_last() =~= events);
    assert(WriterView::empty(palette, highlighting) == blank_document(palette, highlighting));
}

/// Every event can come anywhere, with three exceptions: an item comes only in a list, and not if
/// its number is the largest or its mark too wide to be counted; the box of a task does not come
/// where the last line is blank; and a table does not end if one of its cells is too wide to be
/// counted.
pub proof fn law_events_can_come_anywhere_but_for_three(writer: WriterView, event: EventView)
    ensures
        writer.accepts(event) == match event {
            EventView::Start(TagView::Item) => {
                let depth = writer.list_indices.len();
                depth > 0 && writer.list_indices[depth - 1] != Some(u64::MAX) && 4 * depth
                    <= usize::MAX
            },
            EventView::TaskListMarker(_) => writer.lines.len() == 0 || writer.lines[
                writer.lines.len() - 1
            ].spans.len() > 0,
            EventView::End(TagEnd::Table) => writer.table matches Some(table) ==> forall|
                r: int,
                k: int,
            |
                0 <= r < rows_with_row(table).len() && 0 <= k < rows_with_row(table)[r].cells.len()
                    ==> spans_width(#[trigger] rows_with_row(table)[r].cells[k]) + 2 <= usize::MAX,
            _ => true,
        },
{
    reveal(WriterView::accepts);
    if let Some(table) = writer.table {
        lemma_end_row(table);
        let rows = rows_with_row(table);
        let ended = table.end_row();
        assert(ended.rows == rows);
        let counted = forall|r: int, k: int|
            0 <= r < rows.len() && 0 <= k < rows[r].cells.len() ==> spans_width(
                #[trigger] rows[r].cells[k],
            ) + 2 <= usize::MAX;
        if ended.fits() {
            assert forall|r: int, k: int| 0 <= r < rows.len() && 0 <= k < rows[r].cells.len()
                implies spans_width(#[trigger] rows[r].cells[k]) + 2 <= usize::MAX by {
                assert(row_fits(ended.rows[r]));
                assert(cell_fits(ended.rows[r].cells[k]));
            }
        }
        if counted {
            assert forall|r: int| 0 <= r < ended.rows.len() implies row_fits(
                #[trigger] ended.rows[r],
            ) by {
                assert forall|k: int| 0 <= k < ended.rows[r].cells.len() implies cell_fits(
                    #[trigger] ended.rows[r].cells[k],
                ) by {
                    assert(spans_width(rows[r].cells[k]) + 2 <= usize::MAX);
                }
            }
        }
    }
}

/// A Markdown document is rendered as its events are, read with all extensions switched on: in the
/// styles of the options, and with highlighting that comes with the highlighter if they ask for it.
pub proof fn law_document_is_read_with_all_extensions<S: StyleSheet>(
    options: Options<S>,
    input: Seq<char>,
)
    ensures
        rendering(options, input) == rendered(
            options.styles.palette(),
            if options.highlight_code {
                Some(bundled_highlighting())
            } else {
                None
            },
            parsed_events(
                input,
                (Extensions {
                    strikethrough: true,
                    tables: true,
                    tasklists: true,
                    heading_attributes: true,
                    yaml_style_metadata_blocks: true,
                    superscript: true,
                    subscript: true,
                }),
            ),
        ),
{
}

} // verus!
