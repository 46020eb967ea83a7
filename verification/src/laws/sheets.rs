//! A style sheet changes styles and nothing else.

use vstd::prelude::*;

use crate::event::{Alignment, CodeBlockKindView, EventView, TagEnd, TagView};
use crate::highlight::CodeHighlightingView;
use crate::model::{item_marker, rendered, task_box, top, WriterView};
use crate::strings::{has_suffix, joined, lines_of, lines_with_endings, repeated};
use crate::style::Style;
use crate::style_sheet::Palette;
use crate::table::{
    cell_fits, cell_spans, cell_width, column_alignment, column_width, longest_row, padding,
    padding_spans, row_fits, row_spans, slot_spans, TableRowView, TableView,
};
use crate::text::{blank_line, raw_line, raw_span, LineView, SpanView};
use crate::width::spans_width;

verus! {

/// What the spans hold, whatever their styles.
pub open spec fn contents(spans: Seq<SpanView>) -> Seq<Seq<char>> {
    spans.map_values(|span: SpanView| span.content)
}

/// What the spans of the lines hold, whatever their styles.
pub open spec fn line_contents(lines: Seq<LineView>) -> Seq<Seq<Seq<char>>> {
    lines.map_values(|line: LineView| contents(line.spans))
}

/// What the cells hold, whatever the styles of their spans.
pub open spec fn cell_contents(cells: Seq<Seq<SpanView>>) -> Seq<Seq<Seq<char>>> {
    cells.map_values(|cell: Seq<SpanView>| contents(cell))
}

/// Whether two rows hold the same.
pub open spec fn same_row(one: TableRowView, other: TableRowView) -> bool {
    &&& one.is_header == other.is_header
    &&& cell_contents(one.cells) == cell_contents(other.cells)
}

/// Whether rows hold the same, one by one.
pub open spec fn same_rows(one: Seq<TableRowView>, other: Seq<TableRowView>) -> bool {
    &&& one.len() == other.len()
    &&& forall|i: int| 0 <= i < one.len() ==> same_row(#[trigger] one[i], other[i])
}

/// Whether two tables hold the same.
pub open spec fn same_table(one: TableView, other: TableView) -> bool {
    &&& one.alignments == other.alignments
    &&& one.in_head == other.in_head
    &&& same_rows(one.rows, other.rows)
    &&& match (one.current_row, other.current_row) {
        (Some(row), Some(other_row)) => same_row(row, other_row),
        (None, None) => true,
        _ => false,
    }
    &&& match (one.current_cell, other.current_cell) {
        (Some(cell), Some(other_cell)) => contents(cell) == contents(other_cell),
        (None, None) => true,
        _ => false,
    }
}

/// Whether two documents that are being written are the same but for styles that come from style
/// sheets.
pub open spec fn alike(one: WriterView, other: WriterView) -> bool {
    &&& one.highlighting == other.highlighting
    &&& line_contents(one.lines) == line_contents(other.lines)
    &&& one.inline_styles == other.inline_styles
    &&& one.line_prefixes == other.line_prefixes
    &&& one.code_highlighter == other.code_highlighter
    &&& one.list_indices == other.list_indices
    &&& one.link == other.link
    &&& one.heading_meta == other.heading_meta
    &&& one.in_metadata_block == other.in_metadata_block
    &&& one.needs_newline == other.needs_newline
    &&& one.just_added_list_item == other.just_added_list_item
    &&& match (one.table, other.table) {
        (Some(table), Some(other_table)) => same_table(table, other_table),
        (None, None) => true,
        _ => false,
    }
}

/// What spans hold is what the first ones and the others hold.
proof fn lemma_contents_concat(a: Seq<SpanView>, b: Seq<SpanView>)
    ensures
        contents(a + b) == contents(a) + contents(b),
{
    assert(contents(a + b) =~= contents(a) + contents(b));
}

/// A span adds what it holds.
proof fn lemma_contents_push(a: Seq<SpanView>, span: SpanView)
    ensures
        contents(a.push(span)) == contents(a).push(span.content),
{
    assert(contents(a.push(span)) =~= contents(a).push(span.content));
}

/// A line adds what it holds.
proof fn lemma_line_contents_push(a: Seq<LineView>, line: LineView)
    ensures
        line_contents(a.push(line)) == line_contents(a).push(contents(line.spans)),
{
    assert(line_contents(a.push(line)) =~= line_contents(a).push(contents(line.spans)));
}

/// Lines that hold the same have as many spans each, and as many they are.
proof fn lemma_same_last(one: Seq<LineView>, other: Seq<LineView>)
    requires
        line_contents(one) == line_contents(other),
    ensures
        one.len() == other.len(),
        one.len() > 0 ==> {
            &&& line_contents(one.drop_last()) == line_contents(other.drop_last())
            &&& contents(one.last().spans) == contents(other.last().spans)
            &&& one.last().spans.len() == other.last().spans.len()
        },
{
    assert(line_contents(one).len() == one.len());
    assert(line_contents(other).len() == other.len());
    if one.len() > 0 {
        assert(line_contents(one.drop_last()) =~= line_contents(one).drop_last());
        assert(line_contents(other.drop_last()) =~= line_contents(other).drop_last());
        assert(line_contents(one).last() == contents(one.last().spans));
        assert(line_contents(other).last() == contents(other.last().spans));
        assert(contents(one.last().spans).len() == one.last().spans.len());
        assert(contents(other.last().spans).len() == other.last().spans.len());
    }
}

/// A line as it is written holds the same in documents that are alike.
proof fn lemma_decorated_alike(one: WriterView, other: WriterView, a: LineView, b: LineView)
    requires
        one.line_prefixes == other.line_prefixes,
        contents(a.spans) == contents(b.spans),
    ensures
        contents(one.decorated(a).spans) == contents(other.decorated(b).spans),
        contents(one.prefixed(a).spans) == contents(other.prefixed(b).spans),
{
    let prefix = one.line_prefixes + seq![raw_span(" "@)];
    lemma_contents_concat(prefix, a.spans);
    lemma_contents_concat(prefix, b.spans);
}

/// Lines that hold the same keep documents alike.
proof fn lemma_push_line_alike(one: WriterView, other: WriterView, a: LineView, b: LineView)
    requires
        alike(one, other),
        contents(a.spans) == contents(b.spans),
    ensures
        alike(one.push_line(a), other.push_line(b)),
{
    lemma_decorated_alike(one, other, a, b);
    lemma_line_contents_push(one.lines, one.decorated(a));
    lemma_line_contents_push(other.lines, other.decorated(b));
}

/// Lines that hold the same keep documents alike.
proof fn lemma_push_lines_alike(
    one: WriterView,
    other: WriterView,
    a: Seq<LineView>,
    b: Seq<LineView>,
)
    requires
        alike(one, other),
        line_contents(a) == line_contents(b),
    ensures
        alike(one.push_lines(a), other.push_lines(b)),
{
    let after = one.push_lines(a).lines;
    let other_after = other.push_lines(b).lines;
    lemma_same_last(one.lines, other.lines);
    lemma_same_last(a, b);
    assert forall|i: int| 0 <= i < after.len() implies #[trigger] line_contents(after)[i]
        == line_contents(other_after)[i] by {
        if i < one.lines.len() {
            assert(line_contents(one.lines)[i] == line_contents(other.lines)[i]);
        } else {
            let k = i - one.lines.len();
            assert(line_contents(a)[k] == line_contents(b)[k]);
            lemma_decorated_alike(one, other, a[k], b[k]);
        }
    }
    assert(line_contents(after) =~= line_contents(other_after));
}

/// Lines that hold the same and have styles of their own keep documents alike.
proof fn lemma_push_styled_lines_alike(
    one: WriterView,
    other: WriterView,
    lines: Seq<LineView>,
)
    requires
        alike(one, other),
    ensures
        alike(one.push_styled_lines(lines), other.push_styled_lines(lines)),
{
    let after = one.push_styled_lines(lines).lines;
    let other_after = other.push_styled_lines(lines).lines;
    lemma_same_last(one.lines, other.lines);
    assert forall|i: int| 0 <= i < after.len() implies #[trigger] line_contents(after)[i]
        == line_contents(other_after)[i] by {
        if i < one.lines.len() {
            assert(line_contents(one.lines)[i] == line_contents(other.lines)[i]);
        } else {
            let k = i - one.lines.len();
            lemma_decorated_alike(one, other, lines[k], lines[k]);
        }
    }
    assert(line_contents(after) =~= line_contents(other_after));
}

/// A blank line that is due keeps documents alike.
proof fn lemma_break_alike(one: WriterView, other: WriterView)
    requires
        alike(one, other),
    ensures
        alike(one.break_if_due(), other.break_if_due()),
{
    lemma_push_line_alike(one, other, blank_line(), blank_line());
}

/// Spans that hold the same keep documents alike.
proof fn lemma_push_span_alike(one: WriterView, other: WriterView, a: SpanView, b: SpanView)
    requires
        alike(one, other),
        a.content == b.content,
    ensures
        alike(one.push_span(a), other.push_span(b)),
{
    lemma_same_last(one.lines, other.lines);
    if one.in_table_cell() {
        let cell = one.table->0.current_cell->0;
        let other_cell = other.table->0.current_cell->0;
        lemma_contents_push(cell, a);
        lemma_contents_push(other_cell, b);
    } else if one.lines.len() > 0 {
        let last = one.lines.last();
        let other_last = other.lines.last();
        lemma_contents_push(last.spans, a);
        lemma_contents_push(other_last.spans, b);
        lemma_line_contents_push(
            one.lines.drop_last(),
            LineView { spans: last.spans.push(a), ..last },
        );
        lemma_line_contents_push(
            other.lines.drop_last(),
            LineView { spans: other_last.spans.push(b), ..other_last },
        );
    } else {
        let line = LineView { spans: seq![a], style: Style::new() };
        let other_line = LineView { spans: seq![b], style: Style::new() };
        assert(contents(line.spans) =~= contents(other_line.spans));
        lemma_push_line_alike(one, other, line, other_line);
    }
}

/// Lines of text keep documents alike.
proof fn lemma_write_lines_alike(one: WriterView, other: WriterView, lines: Seq<Seq<char>>)
    requires
        alike(one, other),
    ensures
        alike(one.write_lines(lines), other.write_lines(lines)),
    decreases lines.len(),
{
    if lines.len() > 0 {
        let before = one.write_lines(lines.drop_last());
        let other_before = other.write_lines(lines.drop_last());
        lemma_write_lines_alike(one, other, lines.drop_last());
        lemma_break_alike(before, other_before);
        let broken = WriterView { needs_newline: false, ..before.break_if_due() };
        let other_broken = WriterView { needs_newline: false, ..other_before.break_if_due() };
        lemma_push_line_alike(broken, other_broken, blank_line(), blank_line());
        let started = if lines.len() > 1 {
            broken.push_line(blank_line())
        } else {
            broken
        };
        let other_started = if lines.len() > 1 {
            other_broken.push_line(blank_line())
        } else {
            other_broken
        };
        let span = SpanView { content: lines.last(), style: top(one.inline_styles) };
        lemma_push_span_alike(started, other_started, span, span);
    }
}

/// Text keeps documents alike.
proof fn lemma_text_alike(one: WriterView, other: WriterView, text: Seq<char>)
    requires
        alike(one, other),
    ensures
        alike(one.text(text), other.text(text)),
{
    if one.in_table_cell() {
        let span = SpanView {
            content: joined(lines_of(text), " "@),
            style: top(one.inline_styles),
        };
        lemma_push_span_alike(one, other, span, span);
    } else {
        match one.code_highlighter {
            Some(highlighter) => {
                let shown = highlighter.shown_lines(lines_with_endings(text));
                lemma_push_styled_lines_alike(one, other, shown);
            },
            None => {
                lemma_write_lines_alike(one, other, lines_of(text));
            },
        }
    }
}

/// The start of a paragraph, a heading, a code block or a metadata block keeps documents alike.
proof fn lemma_start_block_alike(one: WriterView, other: WriterView, tag: TagView)
    requires
        alike(one, other),
        tag is Paragraph || tag is Heading || tag is CodeBlock || tag is MetadataBlock,
    ensures
        alike(one.start_tag(tag), other.start_tag(tag)),
{
    lemma_break_alike(one, other);
    lemma_push_line_alike(one, other, blank_line(), blank_line());
    lemma_same_last(one.lines, other.lines);
    let broken = one.break_if_due();
    let other_broken = other.break_if_due();
    match tag {
        TagView::Paragraph => {
            lemma_push_line_alike(broken, other_broken, blank_line(), blank_line());
        },
        TagView::Heading(level, meta) => {
            let spans = seq![raw_span(repeated('#', level.number() as nat) + " "@)];
            lemma_push_line_alike(
                broken,
                other_broken,
                LineView { spans, style: (one.palette.heading)(level.number()) },
                LineView { spans, style: (other.palette.heading)(level.number()) },
            );
        },
        TagView::CodeBlock(kind) => {
            let apart = if one.lines.len() > 0 {
                one.push_line(blank_line())
            } else {
                one
            };
            let other_apart = if other.lines.len() > 0 {
                other.push_line(blank_line())
            } else {
                other
            };
            let lang = match kind {
                CodeBlockKindView::Fenced(lang) => lang,
                CodeBlockKindView::Indented => Seq::empty(),
            };
            let styled = WriterView {
                line_styles: one.start_tag(tag).line_styles,
                code_highlighter: one.start_tag(tag).code_highlighter,
                ..apart
            };
            let other_styled = WriterView {
                line_styles: other.start_tag(tag).line_styles,
                code_highlighter: other.start_tag(tag).code_highlighter,
                ..other_apart
            };
            let fence = raw_line("```"@ + lang);
            lemma_push_line_alike(styled, other_styled, fence, fence);
        },
        TagView::MetadataBlock => {
            let styled = WriterView {
                line_styles: broken.line_styles.push(one.palette.metadata_block),
                ..broken
            };
            let other_styled = WriterView {
                line_styles: other_broken.line_styles.push(other.palette.metadata_block),
                ..other_broken
            };
            let dashes = raw_line("---"@);
            lemma_push_line_alike(styled, other_styled, dashes, dashes);
            lemma_push_line_alike(
                styled.push_line(dashes),
                other_styled.push_line(dashes),
                blank_line(),
                blank_line(),
            );
        },
        _ => {},
    }
}

/// The start of an item keeps documents alike.
proof fn lemma_start_item_alike(one: WriterView, other: WriterView)
    requires
        alike(one, other),
    ensures
        alike(one.start_item(), other.start_item()),
{
    lemma_push_line_alike(one, other, blank_line(), blank_line());
    let mark = item_marker(one.list_indices.len(), one.list_indices.last());
    let numbered = WriterView {
        list_indices: one.start_item().list_indices,
        ..one.push_line(blank_line())
    };
    let other_numbered = WriterView {
        list_indices: other.start_item().list_indices,
        ..other.push_line(blank_line())
    };
    lemma_push_span_alike(numbered, other_numbered, mark, mark);
}

/// The start of a row and of a cell keep tables the same.
proof fn lemma_start_parts_same(one: TableView, other: TableView)
    requires
        same_table(one, other),
    ensures
        same_table(one.start_head(), other.start_head()),
        same_table(one.start_row(), other.start_row()),
        same_table(one.start_cell(), other.start_cell()),
{
}

/// The end of a cell keeps tables the same.
proof fn lemma_end_cell_same(one: TableView, other: TableView)
    requires
        same_table(one, other),
    ensures
        same_table(one.end_cell(), other.end_cell()),
{
    if one.current_cell is Some && one.current_row is Some {
        let cells = one.current_row->0.cells;
        let other_cells = other.current_row->0.cells;
        let cell = one.current_cell->0;
        let other_cell = other.current_cell->0;
        assert(cell_contents(cells.push(cell)) =~= cell_contents(cells).push(contents(cell)));
        assert(cell_contents(other_cells.push(other_cell)) =~= cell_contents(other_cells).push(
            contents(other_cell),
        ));
    }
}

/// The end of a row and of the head keep tables the same.
proof fn lemma_end_row_same(one: TableView, other: TableView)
    requires
        same_table(one, other),
    ensures
        same_table(one.end_row(), other.end_row()),
        same_table(one.end_head(), other.end_head()),
{
    lemma_end_cell_same(one, other);
}

/// Spans that hold the same take the same columns.
proof fn lemma_same_width(a: Seq<SpanView>, b: Seq<SpanView>)
    requires
        contents(a) == contents(b),
    ensures
        spans_width(a) == spans_width(b),
    decreases a.len(),
{
    assert(contents(a).len() == a.len() && contents(b).len() == b.len());
    if a.len() > 0 {
        assert(contents(a.drop_last()) =~= contents(a).drop_last());
        assert(contents(b.drop_last()) =~= contents(b).drop_last());
        assert(contents(a).last() == a.last().content && contents(b).last() == b.last().content);
        lemma_same_width(a.drop_last(), b.drop_last());
    }
}

/// Cells of rows that hold the same hold the same and take the same columns.
proof fn lemma_same_cell(one: TableRowView, other: TableRowView, column: int)
    requires
        same_row(one, other),
    ensures
        one.cells.len() == other.cells.len(),
        0 <= column < one.cells.len() ==> contents(one.cells[column]) == contents(
            other.cells[column],
        ),
        cell_width(one, column) == cell_width(other, column),
{
    assert(cell_contents(one.cells).len() == one.cells.len());
    assert(cell_contents(other.cells).len() == other.cells.len());
    if 0 <= column < one.cells.len() {
        assert(cell_contents(one.cells)[column] == contents(one.cells[column]));
        assert(cell_contents(other.cells)[column] == contents(other.cells[column]));
        lemma_same_width(one.cells[column], other.cells[column]);
    }
}

/// Rows that hold the same make columns of the same widths.
proof fn lemma_same_columns(one: Seq<TableRowView>, other: Seq<TableRowView>, column: int)
    requires
        same_rows(one, other),
    ensures
        longest_row(one) == longest_row(other),
        column_width(one, column) == column_width(other, column),
    decreases one.len(),
{
    if one.len() > 0 {
        lemma_same_columns(one.drop_last(), other.drop_last(), column);
        assert(same_row(one[one.len() - 1], other[one.len() - 1]));
        lemma_same_cell(one.last(), other.last(), column);
    }
}

/// A cell holds the same as it is shown, in a header too.
proof fn lemma_cell_spans_same(
    one: TableRowView,
    other: TableRowView,
    column: int,
    style: Style,
    other_style: Style,
)
    requires
        same_row(one, other),
    ensures
        contents(cell_spans(one, column, style)) == contents(
            cell_spans(other, column, other_style),
        ),
{
    lemma_same_cell(one, other, column);
    if 0 <= column < one.cells.len() {
        assert(contents(cell_spans(one, column, style)) =~= contents(one.cells[column]));
        assert(contents(cell_spans(other, column, other_style)) =~= contents(
            other.cells[column],
        ));
    }
}

/// A cell in the frame holds the same.
proof fn lemma_slot_same(
    one: TableRowView,
    other: TableRowView,
    alignment: Alignment,
    column: int,
    width: nat,
    style: Style,
    other_style: Style,
)
    requires
        same_row(one, other),
    ensures
        contents(slot_spans(one, alignment, column, width, style)) == contents(
            slot_spans(other, alignment, column, width, other_style),
        ),
{
    lemma_same_cell(one, other, column);
    lemma_cell_spans_same(one, other, column, style, other_style);
    let used = cell_width(one, column);
    let remaining = if used < width {
        (width - used) as nat
    } else {
        0
    };
    let (left, right) = padding(alignment, remaining);
    let head = seq![raw_span(" "@)] + padding_spans(left);
    let tail = seq![raw_span(" "@), raw_span("│"@)];
    let cell = cell_spans(one, column, style);
    let other_cell = cell_spans(other, column, other_style);
    lemma_contents_concat(head, cell);
    lemma_contents_concat(head + cell, padding_spans(right));
    lemma_contents_concat(head + cell + padding_spans(right), tail);
    lemma_contents_concat(head, other_cell);
    lemma_contents_concat(head + other_cell, padding_spans(right));
    lemma_contents_concat(head + other_cell + padding_spans(right), tail);
}

/// A row in the frame holds the same.
proof fn lemma_row_same(
    one: TableRowView,
    other: TableRowView,
    alignments: Seq<Alignment>,
    widths: Seq<nat>,
    style: Style,
    other_style: Style,
    count: nat,
)
    requires
        same_row(one, other),
    ensures
        contents(row_spans(one, alignments, widths, style, count)) == contents(
            row_spans(other, alignments, widths, other_style, count),
        ),
    decreases count,
{
    if count > 0 {
        let column = count - 1;
        let alignment = column_alignment(alignments, column);
        let before = (count - 1) as nat;
        lemma_row_same(one, other, alignments, widths, style, other_style, before);
        lemma_slot_same(one, other, alignment, column, widths[column], style, other_style);
        lemma_contents_concat(
            row_spans(one, alignments, widths, style, before),
            slot_spans(one, alignment, column, widths[column], style),
        );
        lemma_contents_concat(
            row_spans(other, alignments, widths, other_style, before),
            slot_spans(other, alignment, column, widths[column], other_style),
        );
    }
}

/// Tables that hold the same have the same columns and fit alike.
proof fn lemma_same_layout(one: TableView, other: TableView)
    requires
        same_table(one, other),
    ensures
        one.column_count() == other.column_count(),
        one.widths() == other.widths(),
        one.fits() == other.fits(),
{
    lemma_same_columns(one.rows, other.rows, 0);
    assert forall|column: int| 0 <= column < one.column_count() implies one.widths()[column]
        == #[trigger] other.widths()[column] by {
        lemma_same_columns(one.rows, other.rows, column);
    }
    assert(one.widths() =~= other.widths());
    assert forall|i: int| 0 <= i < one.rows.len() implies row_fits(#[trigger] one.rows[i])
        == row_fits(other.rows[i]) by {
        lemma_row_fits_same(one.rows[i], other.rows[i]);
    }
    if one.fits() {
        assert forall|i: int| 0 <= i < other.rows.len() implies row_fits(
            #[trigger] other.rows[i],
        ) by {
            assert(row_fits(one.rows[i]));
        }
    }
}

/// Rows that hold the same fit alike.
proof fn lemma_row_fits_same(one: TableRowView, other: TableRowView)
    requires
        same_row(one, other),
    ensures
        row_fits(one) == row_fits(other),
{
    lemma_same_cell(one, other, 0);
    assert forall|j: int| 0 <= j < one.cells.len() implies cell_fits(#[trigger] one.cells[j])
        == cell_fits(other.cells[j]) by {
        lemma_same_cell(one, other, j);
        lemma_same_width(one.cells[j], other.cells[j]);
    }
    if row_fits(one) {
        assert forall|j: int| 0 <= j < other.cells.len() implies cell_fits(
            #[trigger] other.cells[j],
        ) by {
            assert(cell_fits(one.cells[j]));
        }
    }
}

/// Tables that hold the same are shown with the same contents.
proof fn lemma_table_lines_same(
    one: TableView,
    other: TableView,
    style: Style,
    other_style: Style,
)
    requires
        same_table(one, other),
    ensures
        line_contents(one.lines(style)) == line_contents(other.lines(other_style)),
{
    lemma_same_layout(one, other);
    let lines = one.lines(style);
    let other_lines = other.lines(other_style);
    assert forall|i: int| 0 <= i < lines.len() implies #[trigger] line_contents(lines)[i]
        == line_contents(other_lines)[i] by {
        if i % 2 == 1 {
            assert(same_row(one.rows[i / 2], other.rows[i / 2]));
            lemma_row_same(
                one.rows[i / 2],
                other.rows[i / 2],
                one.alignments,
                one.widths(),
                style,
                other_style,
                one.widths().len(),
            );
        }
    }
    assert(line_contents(lines) =~= line_contents(other_lines));
}

/// The end of a table keeps documents alike.
proof fn lemma_end_table_alike(one: WriterView, other: WriterView)
    requires
        alike(one, other),
    ensures
        alike(one.end_table(), other.end_table()),
{
    if let Some(table) = one.table {
        let other_table = other.table->0;
        lemma_end_row_same(table, other_table);
        lemma_table_lines_same(
            table.end_row(),
            other_table.end_row(),
            one.palette.table_header,
            other.palette.table_header,
        );
        lemma_push_lines_alike(
            WriterView { table: None, ..one },
            WriterView { table: None, ..other },
            table.end_row().lines(one.palette.table_header),
            other_table.end_row().lines(other.palette.table_header),
        );
    }
}

/// The start of an element keeps documents alike.
proof fn lemma_start_tag_alike(one: WriterView, other: WriterView, tag: TagView)
    requires
        alike(one, other),
    ensures
        alike(one.start_tag(tag), other.start_tag(tag)),
{
    if one.table is Some {
        lemma_start_parts_same(one.table->0, other.table->0);
    }
    lemma_break_alike(one, other);
    match tag {
        TagView::Paragraph => {
            lemma_start_block_alike(one, other, tag);
        },
        TagView::Heading(level, meta) => {
            lemma_start_block_alike(one, other, tag);
        },
        TagView::BlockQuote => {},
        TagView::CodeBlock(kind) => {
            lemma_start_block_alike(one, other, tag);
        },
        TagView::HtmlBlock => {},
        TagView::List(index) => {},
        TagView::Item => {
            lemma_start_item_alike(one, other);
        },
        TagView::FootnoteDefinition => {},
        TagView::DefinitionList => {},
        TagView::DefinitionListTitle => {},
        TagView::DefinitionListDefinition => {},
        TagView::Table(alignments) => {},
        TagView::TableHead => {},
        TagView::TableRow => {},
        TagView::TableCell => {},
        TagView::Emphasis => {},
        TagView::Strong => {},
        TagView::Strikethrough => {},
        TagView::Superscript => {},
        TagView::Subscript => {},
        TagView::Link(url) => {},
        TagView::Image => {},
        TagView::MetadataBlock => {
            lemma_start_block_alike(one, other, tag);
        },
    }
}

/// The end of a heading keeps documents alike.
proof fn lemma_end_heading_alike(one: WriterView, other: WriterView)
    requires
        alike(one, other),
    ensures
        alike(one.end_heading(), other.end_heading()),
{
    if let Some(meta) = one.heading_meta {
        if let Some(suffix) = meta.suffix() {
            lemma_push_span_alike(
                WriterView { heading_meta: None, ..one },
                WriterView { heading_meta: None, ..other },
                SpanView { content: suffix, style: one.palette.heading_meta },
                SpanView { content: suffix, style: other.palette.heading_meta },
            );
        }
    }
}

/// The end of a link keeps documents alike.
proof fn lemma_pop_link_alike(one: WriterView, other: WriterView)
    requires
        alike(one, other),
    ensures
        alike(one.pop_link(), other.pop_link()),
{
    if let Some(url) = one.link {
        let bracket = raw_span(" ("@);
        let a = SpanView { content: url, style: one.palette.link };
        let b = SpanView { content: url, style: other.palette.link };
        let first = WriterView { link: None, ..one };
        let other_first = WriterView { link: None, ..other };
        lemma_push_span_alike(first, other_first, bracket, bracket);
        let second = first.push_span(bracket);
        let other_second = other_first.push_span(bracket);
        lemma_push_span_alike(second, other_second, a, b);
        lemma_push_span_alike(
            second.push_span(a),
            other_second.push_span(b),
            raw_span(")"@),
            raw_span(")"@),
        );
    }
}

/// The end of a code block or of a metadata block keeps documents alike.
proof fn lemma_end_block_alike(one: WriterView, other: WriterView)
    requires
        alike(one, other),
    ensures
        alike(one.end_codeblock(), other.end_codeblock()),
        alike(one.end_metadata_block(), other.end_metadata_block()),
{
    lemma_push_line_alike(one, other, raw_line("```"@), raw_line("```"@));
    lemma_push_line_alike(one, other, raw_line("---"@), raw_line("---"@));
}

/// The end of an element keeps documents alike.
proof fn lemma_end_tag_alike(one: WriterView, other: WriterView, kind: TagEnd)
    requires
        alike(one, other),
    ensures
        alike(one.end_tag(kind), other.end_tag(kind)),
{
    if one.table is Some {
        lemma_end_row_same(one.table->0, other.table->0);
        lemma_end_cell_same(one.table->0, other.table->0);
    }
    match kind {
        TagEnd::Paragraph => {},
        TagEnd::Heading => {
            lemma_end_heading_alike(one, other);
        },
        TagEnd::BlockQuote => {},
        TagEnd::CodeBlock => {
            lemma_end_block_alike(one, other);
        },
        TagEnd::HtmlBlock => {},
        TagEnd::List => {},
        TagEnd::Item => {},
        TagEnd::FootnoteDefinition => {},
        TagEnd::DefinitionList => {},
        TagEnd::DefinitionListTitle => {},
        TagEnd::DefinitionListDefinition => {},
        TagEnd::Table => {
            lemma_end_table_alike(one, other);
        },
        TagEnd::TableHead => {},
        TagEnd::TableRow => {},
        TagEnd::TableCell => {},
        TagEnd::Emphasis => {},
        TagEnd::Strong => {},
        TagEnd::Strikethrough => {},
        TagEnd::Superscript => {},
        TagEnd::Subscript => {},
        TagEnd::Link => {
            lemma_pop_link_alike(one, other);
        },
        TagEnd::Image => {},
        TagEnd::MetadataBlock => {
            lemma_end_block_alike(one, other);
        },
    }
}

/// The box of a task keeps documents alike.
proof fn lemma_box_alike(one: WriterView, other: WriterView, checked: bool)
    requires
        alike(one, other),
        one.accepts_task_list_marker(),
    ensures
        alike(one.task_list_marker(checked), other.task_list_marker(checked)),
{
    let mark = raw_span(task_box(checked));
    lemma_same_last(one.lines, other.lines);
    if one.lines.len() == 0 {
        lemma_push_span_alike(one, other, mark, mark);
    } else {
        let last = one.lines.last();
        let other_last = other.lines.last();
        assert(contents(last.spans)[0] == last.spans[0].content);
        assert(contents(other_last.spans)[0] == other_last.spans[0].content);
        let boxed = one.task_list_marker(checked).lines.last();
        let other_boxed = other.task_list_marker(checked).lines.last();
        if has_suffix(last.spans[0].content, "- "@) {
            let content = last.spans[0].content + task_box(checked);
            assert(contents(boxed.spans) =~= contents(last.spans).update(0, content));
            assert(contents(other_boxed.spans) =~= contents(other_last.spans).update(0, content));
        } else {
            assert(contents(boxed.spans) =~= contents(last.spans).insert(1, task_box(checked)));
            assert(contents(other_boxed.spans) =~= contents(other_last.spans).insert(
                1,
                task_box(checked),
            ));
        }
        lemma_line_contents_push(one.lines.drop_last(), boxed);
        lemma_line_contents_push(other.lines.drop_last(), other_boxed);
    }
}

/// An event that neither starts nor ends an element keeps documents alike.
proof fn lemma_leaf_alike(one: WriterView, other: WriterView, event: EventView)
    requires
        alike(one, other),
        !(event is Start),
        !(event is End),
        event is TaskListMarker ==> one.accepts_task_list_marker(),
    ensures
        alike(one.step(event), other.step(event)),
{
    reveal(WriterView::step);
    lemma_push_span_alike(one, other, raw_span(" "@), raw_span(" "@));
    lemma_push_line_alike(one, other, blank_line(), blank_line());
    match event {
        EventView::Start(tag) => {},
        EventView::End(kind) => {},
        EventView::Text(text) => {
            lemma_text_alike(one, other, text);
        },
        EventView::Code(code) => {
            lemma_push_span_alike(
                one,
                other,
                SpanView { content: code, style: one.palette.code },
                SpanView { content: code, style: other.palette.code },
            );
        },
        EventView::InlineMath => {},
        EventView::DisplayMath => {},
        EventView::Html => {},
        EventView::InlineHtml => {},
        EventView::FootnoteReference => {},
        EventView::SoftBreak => {},
        EventView::HardBreak => {},
        EventView::Rule => {
            lemma_break_alike(one, other);
            lemma_push_line_alike(
                one.break_if_due(),
                other.break_if_due(),
                raw_line("---"@),
                raw_line("---"@),
            );
        },
        EventView::TaskListMarker(checked) => {
            lemma_box_alike(one, other, checked);
        },
    }
}

/// An event that can come keeps documents alike.
proof fn lemma_step_alike(one: WriterView, other: WriterView, event: EventView)
    requires
        alike(one, other),
        one.accepts(event),
    ensures
        alike(one.step(event), other.step(event)),
{
    match event {
        EventView::Start(tag) => {
            assert(one.step(event) == one.start_tag(tag) && other.step(event) == other.start_tag(
                tag,
            )) by {
                reveal(WriterView::step);
            }
            lemma_start_tag_alike(one, other, tag);
        },
        EventView::End(kind) => {
            assert(one.step(event) == one.end_tag(kind) && other.step(event) == other.end_tag(
                kind,
            )) by {
                reveal(WriterView::step);
            }
            lemma_end_tag_alike(one, other, kind);
        },
        _ => {
            assert(event is TaskListMarker ==> one.accepts_task_list_marker()) by {
                reveal(WriterView::accepts);
            }
            lemma_leaf_alike(one, other, event);
        },
    }
}

/// An event can come in both of two documents that are alike, or in neither.
proof fn lemma_accepts_alike(one: WriterView, other: WriterView, event: EventView)
    requires
        alike(one, other),
    ensures
        one.accepts(event) == other.accepts(event),
{
    reveal(WriterView::accepts);
    lemma_same_last(one.lines, other.lines);
    if one.table is Some {
        lemma_end_row_same(one.table->0, other.table->0);
        lemma_same_layout(one.table->0.end_row(), other.table->0.end_row());
    }
}

/// Events keep documents alike as long as they can come, and can come in both or in neither.
proof fn lemma_run_alike(one: WriterView, other: WriterView, events: Seq<EventView>)
    requires
        alike(one, other),
    ensures
        one.accepts_all(events) == other.accepts_all(events),
        one.accepts_all(events) ==> alike(one.run(events), other.run(events)),
    decreases events.len(),
{
    if events.len() > 0 {
        let before = events.drop_last();
        lemma_run_alike(one, other, before);
        if one.accepts_all(before) {
            lemma_accepts_alike(one.run(before), other.run(before), events.last());
            if one.run(before).accepts(events.last()) {
                lemma_step_alike(one.run(before), other.run(before), events.last());
            }
        }
    }
}

/// A style sheet changes styles and nothing else: with any two of them a document can be rendered
/// or not, and has the same lines, the same spans in each of them and the same text in each span.
pub proof fn law_style_sheet_changes_styles_alone(
    one: Palette,
    other: Palette,
    highlighting: Option<CodeHighlightingView>,
    events: Seq<EventView>,
)
    ensures
        match (rendered(one, highlighting, events), rendered(other, highlighting, events)) {
            (Some(lines), Some(other_lines)) => line_contents(lines) == line_contents(other_lines),
            (None, None) => true,
            _ => false,
        },
{
    lemma_run_alike(
        WriterView::empty(one, highlighting),
        WriterView::empty(other, highlighting),
        events,
    );
}

/// Whether two style sheets give the same style whatever they are asked for.
pub open spec fn same_styles(one: Palette, other: Palette) -> bool {
    &&& forall|level: u8| #[trigger] (one.heading)(level) == (other.heading)(level)
    &&& one.code == other.code
    &&& one.link == other.link
    &&& one.blockquote == other.blockquote
    &&& one.heading_meta == other.heading_meta
    &&& one.metadata_block == other.metadata_block
    &&& one.table_header == other.table_header
}

/// Style sheets that give the same styles render documents alike, styles and all.
pub proof fn law_same_styles_render_alike(
    one: Palette,
    other: Palette,
    highlighting: Option<CodeHighlightingView>,
    events: Seq<EventView>,
)
    requires
        same_styles(one, other),
    ensures
        rendered(one, highlighting, events) == rendered(other, highlighting, events),
{
    assert(one.heading =~= other.heading);
}

} // verus!
