//! Tables are read cell by cell and row by row: each cell keeps its place, empty ones too.

use vstd::prelude::*;

use crate::event::{Alignment, EventView, TagEnd, TagView};
use crate::laws::frame::law_run_in_parts;
use crate::laws::notions::{
    cell_being_read, due_lines, lemma_break, lemma_decorated, line_start, line_style,
};
use crate::model::{item_marker, task_box, top, WriterView};
use crate::strings::{joined, lines_of};
use crate::table::{TableRowView, TableView};
use crate::text::{raw_span, LineView, SpanView};

verus! {

/// A table starts after the blank line that is due, with no row, and writes nothing.
pub proof fn law_table_starts_empty(writer: WriterView, alignments: Seq<Alignment>)
    ensures
        writer.step(EventView::Start(TagView::Table(alignments))) == (WriterView {
            lines: writer.lines + due_lines(writer),
            table: Some(
                TableView {
                    alignments,
                    rows: Seq::empty(),
                    current_row: None,
                    current_cell: None,
                    in_head: false,
                },
            ),
            needs_newline: false,
            just_added_list_item: false,
            ..writer
        }),
{
    let start = EventView::Start(TagView::Table(alignments));
    assert(writer.step(start) == writer.start_table(alignments)) by {
        reveal(WriterView::step);
    }
    lemma_break(writer);
}

/// The row that is being read with the cell that is being read as its last one.
pub open spec fn row_with_cell(table: TableView) -> Option<TableRowView> {
    match table.current_row {
        Some(row) => Some(
            TableRowView {
                cells: match table.current_cell {
                    Some(cell) => row.cells + seq![cell],
                    None => row.cells,
                },
                is_header: row.is_header,
            },
        ),
        None => None,
    }
}

/// The rows of the table with the row that is being read as the last one.
pub open spec fn rows_with_row(table: TableView) -> Seq<TableRowView> {
    match row_with_cell(table) {
        Some(row) => table.rows + seq![row],
        None => table.rows,
    }
}

/// What the end of a row makes of a table.
pub proof fn lemma_end_row(table: TableView)
    ensures
        table.end_cell() == (TableView {
            current_cell: None,
            current_row: row_with_cell(table),
            ..table
        }),
        table.end_row() == (TableView {
            rows: rows_with_row(table),
            current_row: None,
            current_cell: None,
            ..table
        }),
{
    if let Some(row) = table.current_row {
        if let Some(cell) = table.current_cell {
            assert(row.cells.push(cell) =~= row.cells + seq![cell]);
        }
        assert(table.end_row().rows =~= rows_with_row(table));
    }
}

/// The head, the rows and the cells of a table are read into it one after another. A cell joins its
/// row when it ends, and a row its table, whatever they hold; a row that starts in the head is a
/// header. None of this writes anything, and outside of a table nothing happens.
pub proof fn law_parts_of_a_table_are_read_in_order(writer: WriterView)
    ensures
        match writer.table {
            Some(table) => {
                let row = TableRowView { cells: Seq::empty(), is_header: table.in_head };
                &&& writer.step(EventView::Start(TagView::TableHead)) == (WriterView {
                    table: Some(TableView { in_head: true, ..table }),
                    ..writer
                })
                &&& writer.step(EventView::Start(TagView::TableRow)) == (WriterView {
                    table: Some(TableView { current_row: Some(row), ..table }),
                    ..writer
                })
                &&& writer.step(EventView::Start(TagView::TableCell)) == (WriterView {
                    table: Some(
                        TableView {
                            current_row: match table.current_row {
                                Some(row) => Some(row),
                                None => Some(row),
                            },
                            current_cell: Some(Seq::empty()),
                            ..table
                        },
                    ),
                    ..writer
                })
                &&& writer.step(EventView::End(TagEnd::TableCell)) == (WriterView {
                    table: Some(
                        TableView {
                            current_row: row_with_cell(table),
                            current_cell: None,
                            ..table
                        },
                    ),
                    ..writer
                })
                &&& writer.step(EventView::End(TagEnd::TableRow)) == (WriterView {
                    table: Some(
                        TableView {
                            rows: rows_with_row(table),
                            current_row: None,
                            current_cell: None,
                            ..table
                        },
                    ),
                    ..writer
                })
                &&& writer.step(EventView::End(TagEnd::TableHead)) == (WriterView {
                    table: Some(
                        TableView {
                            rows: rows_with_row(table),
                            current_row: None,
                            current_cell: None,
                            in_head: false,
                            ..table
                        },
                    ),
                    ..writer
                })
            },
            None => {
                &&& writer.step(EventView::Start(TagView::TableHead)) == writer
                &&& writer.step(EventView::Start(TagView::TableRow)) == writer
                &&& writer.step(EventView::Start(TagView::TableCell)) == writer
                &&& writer.step(EventView::End(TagEnd::TableCell)) == writer
                &&& writer.step(EventView::End(TagEnd::TableRow)) == writer
                &&& writer.step(EventView::End(TagEnd::TableHead)) == writer
            },
        },
{
    assert(writer.step(EventView::Start(TagView::TableHead)) == writer.start_tag(
        TagView::TableHead,
    ) && writer.step(EventView::Start(TagView::TableRow)) == writer.start_tag(TagView::TableRow)
        && writer.step(EventView::Start(TagView::TableCell)) == writer.start_tag(
        TagView::TableCell,
    )) by {
        reveal(WriterView::step);
    }
    assert(writer.step(EventView::End(TagEnd::TableHead)) == writer.end_tag(TagEnd::TableHead)
        && writer.step(EventView::End(TagEnd::TableRow)) == writer.end_tag(TagEnd::TableRow)
        && writer.step(EventView::End(TagEnd::TableCell)) == writer.end_tag(
        TagEnd::TableCell,
    )) by {
        reveal(WriterView::step);
    }
    if let Some(table) = writer.table {
        lemma_end_row(table);
    }
}

/// A table is written when it ends, all of its rows laid out, the one that is being read too. Each
/// line of it stands behind what lines start with. Then a blank line is due.
pub proof fn law_table_is_written_when_it_ends(writer: WriterView)
    ensures
        match writer.table {
            Some(table) => {
                let whole = TableView {
                    rows: rows_with_row(table),
                    current_row: None,
                    current_cell: None,
                    ..table
                };
                let shown = whole.lines(writer.palette.table_header);
                writer.step(EventView::End(TagEnd::Table)) == (WriterView {
                    lines: writer.lines + Seq::new(
                        shown.len(),
                        |i: int|
                            LineView {
                                spans: line_start(writer) + shown[i].spans,
                                style: shown[i].style.patch(line_style(writer)),
                            },
                    ),
                    table: None,
                    needs_newline: true,
                    just_added_list_item: false,
                    ..writer
                })
            },
            None => writer.step(EventView::End(TagEnd::Table)) == writer,
        },
{
    assert(writer.step(EventView::End(TagEnd::Table)) == writer.end_table()) by {
        reveal(WriterView::step);
    }
    if let Some(table) = writer.table {
        lemma_end_row(table);
        let shown = table.end_row().lines(writer.palette.table_header);
        let after = writer.end_table().lines;
        let taken = WriterView { table: None, ..writer };
        let expected = writer.lines + Seq::new(
            shown.len(),
            |i: int|
                LineView {
                    spans: line_start(writer) + shown[i].spans,
                    style: shown[i].style.patch(line_style(writer)),
                },
        );
        assert forall|i: int| 0 <= i < after.len() implies after[i] == expected[i] by {
            if i >= writer.lines.len() {
                lemma_decorated(taken, shown[i - writer.lines.len()]);
            }
        }
        assert(after =~= expected);
    }
}

/// Whether an event starts or ends a table or a part of one.
pub open spec fn is_table_event(event: EventView) -> bool {
    match event {
        EventView::Start(TagView::Table(_)) => true,
        EventView::Start(TagView::TableHead) => true,
        EventView::Start(TagView::TableRow) => true,
        EventView::Start(TagView::TableCell) => true,
        EventView::End(TagEnd::Table) => true,
        EventView::End(TagEnd::TableHead) => true,
        EventView::End(TagEnd::TableRow) => true,
        EventView::End(TagEnd::TableCell) => true,
        _ => false,
    }
}

/// Whether a table is the same but for more spans in the cell that is being read.
pub open spec fn cell_grows(before: TableView, after: TableView) -> bool {
    &&& after == (TableView { current_cell: after.current_cell, ..before })
    &&& before.current_cell matches Some(cell) && after.current_cell matches Some(longer)
        && cell.len() <= longer.len() && longer.take(cell.len() as int) == cell
}

/// A table that stays the same is one with no more spans.
proof fn lemma_cell_grows_reflexive(table: TableView)
    requires
        table.current_cell is Some,
    ensures
        cell_grows(table, table),
{
    let cell = table.current_cell->0;
    assert(cell.take(cell.len() as int) =~= cell);
}

/// A cell that has grown and grows again has grown.
proof fn lemma_cell_grows_transitive(a: TableView, b: TableView, c: TableView)
    requires
        cell_grows(a, b),
        cell_grows(b, c),
    ensures
        cell_grows(a, c),
{
    let n = a.current_cell->0.len() as int;
    assert(c.current_cell->0.take(n) =~= b.current_cell->0.take(n));
}

/// A span in a cell makes it grow.
proof fn lemma_push_span_grows(writer: WriterView, span: SpanView)
    requires
        writer.in_table_cell(),
    ensures
        writer.push_span(span).in_table_cell(),
        cell_grows(writer.table->0, writer.push_span(span).table->0),
{
    let cell = writer.table->0.current_cell->0;
    assert(cell.push(span).take(cell.len() as int) =~= cell);
}

/// The start of an element that is no part of a table makes the cell grow at most.
proof fn lemma_start_tag_grows(writer: WriterView, tag: TagView)
    requires
        writer.in_table_cell(),
        !is_table_event(EventView::Start(tag)),
    ensures
        writer.start_tag(tag).in_table_cell(),
        cell_grows(writer.table->0, writer.start_tag(tag).table->0),
{
    lemma_cell_grows_reflexive(writer.table->0);
    match tag {
        TagView::Paragraph => {},
        TagView::Heading(level, meta) => {},
        TagView::BlockQuote => {},
        TagView::CodeBlock(kind) => {},
        TagView::HtmlBlock => {},
        TagView::List(index) => {},
        TagView::Item => {
            let index = writer.list_indices.last();
            lemma_push_span_grows(
                writer,
                item_marker(writer.list_indices.len(), index),
            );
        },
        TagView::FootnoteDefinition => {},
        TagView::DefinitionList => {},
        TagView::DefinitionListTitle => {},
        TagView::DefinitionListDefinition => {},
        TagView::Table(alignments) => {},
        TagView::TableHead => {},
        TagView::TableRow => {},
        TagView::TableCell => {},
        TagView::Emphasis => {},
        TagView::Strong => {},
        TagView::Strikethrough => {},
        TagView::Superscript => {},
        TagView::Subscript => {},
        TagView::Link(url) => {},
        TagView::Image => {},
        TagView::MetadataBlock => {},
    }
}

/// The end of a link or of a heading makes the cell grow at most.
proof fn lemma_end_with_span_grows(writer: WriterView)
    requires
        writer.in_table_cell(),
    ensures
        writer.pop_link().in_table_cell(),
        cell_grows(writer.table->0, writer.pop_link().table->0),
        writer.end_heading().in_table_cell(),
        cell_grows(writer.table->0, writer.end_heading().table->0),
{
    let table = writer.table->0;
    lemma_cell_grows_reflexive(table);
    if let Some(url) = writer.link {
        let first = WriterView { link: None, ..writer };
        let open = raw_span(" ("@);
        let address = SpanView { content: url, style: writer.palette.link };
        let close = raw_span(")"@);
        let second = first.push_span(open);
        let third = second.push_span(address);
        lemma_push_span_grows(first, open);
        lemma_push_span_grows(second, address);
        lemma_push_span_grows(third, close);
        lemma_cell_grows_transitive(table, second.table->0, third.table->0);
        lemma_cell_grows_transitive(table, third.table->0, third.push_span(close).table->0);
    }
    if let Some(meta) = writer.heading_meta {
        if let Some(suffix) = meta.suffix() {
            lemma_push_span_grows(
                WriterView { heading_meta: None, ..writer },
                SpanView { content: suffix, style: writer.palette.heading_meta },
            );
        }
    }
}

/// The end of an element that is no part of a table makes the cell grow at most.
proof fn lemma_end_tag_grows(writer: WriterView, kind: TagEnd)
    requires
        writer.in_table_cell(),
        !is_table_event(EventView::End(kind)),
    ensures
        writer.end_tag(kind).in_table_cell(),
        cell_grows(writer.table->0, writer.end_tag(kind).table->0),
{
    lemma_cell_grows_reflexive(writer.table->0);
    lemma_end_with_span_grows(writer);
    match kind {
        TagEnd::Paragraph => {},
        TagEnd::Heading => {},
        TagEnd::BlockQuote => {},
        TagEnd::CodeBlock => {},
        TagEnd::HtmlBlock => {},
        TagEnd::List => {},
        TagEnd::Item => {},
        TagEnd::FootnoteDefinition => {},
        TagEnd::DefinitionList => {},
        TagEnd::DefinitionListTitle => {},
        TagEnd::DefinitionListDefinition => {},
        TagEnd::Table => {},
        TagEnd::TableHead => {},
        TagEnd::TableRow => {},
        TagEnd::TableCell => {},
        TagEnd::Emphasis => {},
        TagEnd::Strong => {},
        TagEnd::Strikethrough => {},
        TagEnd::Superscript => {},
        TagEnd::Subscript => {},
        TagEnd::Link => {},
        TagEnd::Image => {},
        TagEnd::MetadataBlock => {},
    }
}

/// An event that neither starts nor ends an element makes the cell grow at most.
proof fn lemma_leaf_grows(writer: WriterView, event: EventView)
    requires
        writer.in_table_cell(),
        !(event is Start),
        !(event is End),
    ensures
        writer.step(event).in_table_cell(),
        cell_grows(writer.table->0, writer.step(event).table->0),
{
    reveal(WriterView::step);
    lemma_cell_grows_reflexive(writer.table->0);
    lemma_push_span_grows(writer, raw_span(" "@));
    match event {
        EventView::Start(tag) => {},
        EventView::End(kind) => {},
        EventView::Text(text) => {
            lemma_push_span_grows(
                writer,
                SpanView {
                    content: joined(lines_of(text), " "@),
                    style: top(writer.inline_styles),
                },
            );
        },
        EventView::Code(code) => {
            lemma_push_span_grows(writer, SpanView { content: code, style: writer.palette.code });
        },
        EventView::InlineMath => {},
        EventView::DisplayMath => {},
        EventView::Html => {},
        EventView::InlineHtml => {},
        EventView::FootnoteReference => {},
        EventView::SoftBreak => {},
        EventView::HardBreak => {},
        EventView::Rule => {},
        EventView::TaskListMarker(checked) => {
            lemma_push_span_grows(
                writer,
                raw_span(task_box(checked)),
            );
        },
    }
}

/// What stands in a cell makes the cell grow at most, and leaves the rest of the table as it is.
proof fn lemma_run_grows(writer: WriterView, events: Seq<EventView>)
    requires
        writer.in_table_cell(),
        forall|i: int| 0 <= i < events.len() ==> !is_table_event(#[trigger] events[i]),
    ensures
        writer.run(events).in_table_cell(),
        cell_grows(writer.table->0, writer.run(events).table->0),
    decreases events.len(),
{
    if events.len() == 0 {
        lemma_cell_grows_reflexive(writer.table->0);
    } else {
        let before = events.drop_last();
        let event = events.last();
        assert forall|i: int| 0 <= i < before.len() implies !is_table_event(
            #[trigger] before[i],
        ) by {
            assert(before[i] == events[i]);
        }
        lemma_run_grows(writer, before);
        let read = writer.run(before);
        assert(!is_table_event(events[events.len() - 1]));
        match event {
            EventView::Start(tag) => {
                assert(read.step(event) == read.start_tag(tag)) by {
                    reveal(WriterView::step);
                }
                lemma_start_tag_grows(read, tag);
            },
            EventView::End(kind) => {
                assert(read.step(event) == read.end_tag(kind)) by {
                    reveal(WriterView::step);
                }
                lemma_end_tag_grows(read, kind);
            },
            _ => {
                lemma_leaf_grows(read, event);
            },
        }
        lemma_cell_grows_transitive(
            writer.table->0,
            read.table->0,
            writer.run(events).table->0,
        );
    }
}

/// The events of cells that hold the given events each.
pub open spec fn cell_events(cells: Seq<Seq<EventView>>) -> Seq<EventView>
    decreases cells.len(),
{
    if cells.len() == 0 {
        Seq::empty()
    } else {
        cell_events(cells.drop_last()) + (seq![EventView::Start(TagView::TableCell)] + cells.last()
            + seq![EventView::End(TagEnd::TableCell)])
    }
}

/// What has been written into the `k`-th of the cells when it ends.
pub open spec fn cell_written(
    writer: WriterView,
    cells: Seq<Seq<EventView>>,
    k: int,
) -> Option<Seq<SpanView>> {
    cell_being_read(
        writer.run(cell_events(cells.take(k))).step(EventView::Start(TagView::TableCell)).run(
            cells[k],
        ),
    )
}

/// Running one event.
proof fn lemma_run_one(writer: WriterView, event: EventView)
    ensures
        writer.run(seq![event]) == writer.step(event),
{
    assert(seq![event].drop_last() =~= Seq::empty());
    assert(writer.run(seq![event].drop_last()) == writer);
}

/// The cells that are read into a row.
proof fn lemma_cells_join_their_row(writer: WriterView, cells: Seq<Seq<EventView>>)
    requires
        writer.table is Some,
        writer.table->0.current_cell is None,
        writer.table->0.current_row is Some,
        forall|k: int, i: int|
            0 <= k < cells.len() && 0 <= i < cells[k].len() ==> !is_table_event(
                #[trigger] cells[k][i],
            ),
    ensures
        ({
            let before = writer.table->0;
            let after = writer.run(cell_events(cells));
            let row = before.current_row->0;
            &&& after.table is Some
            &&& after.table->0 == (TableView {
                current_row: after.table->0.current_row,
                ..before
            })
            &&& after.table->0.current_row matches Some(read) && read.is_header == row.is_header
                && read.cells.len() == row.cells.len() + cells.len() && read.cells.take(
                row.cells.len() as int,
            ) == row.cells && forall|k: int|
                0 <= k < cells.len() ==> Some(#[trigger] read.cells[row.cells.len() + k])
                    == cell_written(writer, cells, k)
        }),
    decreases cells.len(),
{
    let table = writer.table->0;
    let row = table.current_row->0;
    if cells.len() == 0 {
        assert(row.cells.take(row.cells.len() as int) =~= row.cells);
    } else {
        let init = cells.drop_last();
        let n = init.len() as int;
        assert forall|k: int, i: int| 0 <= k < init.len() && 0 <= i < init[k].len() implies
            !is_table_event(#[trigger] init[k][i]) by {
            assert(init[k] == cells[k]);
            assert(!is_table_event(cells[k][i]));
        }
        lemma_cells_join_their_row(writer, init);
        let start = EventView::Start(TagView::TableCell);
        let end = EventView::End(TagEnd::TableCell);
        let one = writer.run(cell_events(init));
        let two = one.step(start);
        let inside = cells.last();
        assert forall|i: int| 0 <= i < inside.len() implies !is_table_event(
            #[trigger] inside[i],
        ) by {
            assert(cells[n][i] == inside[i]);
            assert(!is_table_event(cells[n][i]));
        }
        law_parts_of_a_table_are_read_in_order(one);
        lemma_run_grows(two, inside);
        let three = two.run(inside);
        law_parts_of_a_table_are_read_in_order(three);
        law_run_in_parts(writer, cell_events(init), seq![start] + inside + seq![end]);
        law_run_in_parts(one, seq![start] + inside, seq![end]);
        law_run_in_parts(one, seq![start], inside);
        lemma_run_one(one, start);
        lemma_run_one(three, end);
        assert(writer.run(cell_events(cells)) == three.step(end));
        assert(cells.take(n) =~= init);
        let so_far = one.table->0.current_row->0;
        let read = three.step(end).table->0.current_row->0;
        assert(read.cells == so_far.cells + seq![three.table->0.current_cell->0]);
        assert(read.cells.take(row.cells.len() as int) =~= so_far.cells.take(
            row.cells.len() as int,
        ));
        assert forall|k: int| 0 <= k < cells.len() implies Some(
            #[trigger] read.cells[row.cells.len() + k],
        ) == cell_written(writer, cells, k) by {
            if k < n {
                assert(cells.take(k) =~= init.take(k));
                assert(init[k] == cells[k]);
                assert(read.cells[row.cells.len() + k] == so_far.cells[row.cells.len() + k]);
            }
        }
    }
}

/// Each cell keeps its place in its row, whatever it holds and also if it holds nothing: a row that
/// is read from cells becomes one more row of the table, it has as many cells as were read, and
/// each of them is what was written while it was read.
pub proof fn law_cells_keep_their_places(writer: WriterView, cells: Seq<Seq<EventView>>)
    requires
        writer.table is Some,
        writer.table->0.current_cell is None,
        forall|k: int, i: int|
            0 <= k < cells.len() && 0 <= i < cells[k].len() ==> !is_table_event(
                #[trigger] cells[k][i],
            ),
    ensures
        ({
            let started = writer.step(EventView::Start(TagView::TableRow));
            let after = started.run(cell_events(cells)).step(EventView::End(TagEnd::TableRow));
            let rows = writer.table->0.rows;
            &&& after.table matches Some(table) && table.rows.len() == rows.len() + 1
                && table.rows.take(rows.len() as int) == rows && table.current_row is None
                && table.current_cell is None && table.alignments == writer.table->0.alignments && {
                let row = table.rows[rows.len() as int];
                &&& row.is_header == writer.table->0.in_head
                &&& row.cells.len() == cells.len()
                &&& forall|k: int|
                    0 <= k < cells.len() ==> Some(#[trigger] row.cells[k]) == cell_written(
                        started,
                        cells,
                        k,
                    )
            }
        }),
{
    law_parts_of_a_table_are_read_in_order(writer);
    let started = writer.step(EventView::Start(TagView::TableRow));
    lemma_cells_join_their_row(started, cells);
    let read = started.run(cell_events(cells));
    law_parts_of_a_table_are_read_in_order(read);
    let rows = writer.table->0.rows;
    let after = read.step(EventView::End(TagEnd::TableRow)).table->0;
    assert(after.rows.take(rows.len() as int) =~= rows);
    let row = after.rows[rows.len() as int];
    assert forall|k: int| 0 <= k < cells.len() implies Some(#[trigger] row.cells[k])
        == cell_written(started, cells, k) by {
        let empty: int = 0;
        assert(row.cells[empty + k] == row.cells[k]);
    }
}

} // verus!
