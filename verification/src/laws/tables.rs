//! The frame of a table is a rectangle.

use vstd::prelude::*;

use crate::event::Alignment;
use crate::strings::repeated;
use crate::style::Style;
use crate::table::{
    border_line, cell_spans, cell_width, column_alignment, column_width, longest_row, padding,
    padding_spans, row_spans, slot_spans, TableRowView, TableView,
};
use crate::text::{raw_span, SpanView};
use crate::width::{columns, lemma_spans_width_concat, spans_width, text_width};

verus! {

/// The columns that the frame of a table takes: for each column of the table its width, a space on
/// either side and the line after it, and the line before the first one.
pub open spec fn frame_width(widths: Seq<nat>) -> nat
    decreases widths.len(),
{
    if widths.len() == 0 {
        1
    } else {
        frame_width(widths.drop_last()) + widths.last() + 3
    }
}

/// A narrow character repeated takes as many columns as it is repeated.
proof fn lemma_repeated_width(c: char, count: nat)
    requires
        columns(c) == 1,
    ensures
        text_width(repeated(c, count)) == count,
    decreases count,
{
    if count > 0 {
        lemma_repeated_width(c, (count - 1) as nat);
        assert(repeated(c, count).drop_last() =~= repeated(c, (count - 1) as nat));
    }
}

/// A text of one character takes the columns of that character.
proof fn lemma_single_width(s: Seq<char>, c: char)
    requires
        s.len() == 1,
        s[0] == c,
    ensures
        text_width(s) == columns(c),
{
    assert(s.drop_last() =~= Seq::empty());
    assert(text_width(s.drop_last()) == 0);
}

/// A span alone takes the columns of its text.
proof fn lemma_single_span_width(span: SpanView)
    ensures
        spans_width(seq![span]) == text_width(span.content),
{
    assert(seq![span].drop_last() =~= Seq::empty());
    assert(spans_width(seq![span].drop_last()) == 0);
}

/// Padding takes as many columns as there are spaces.
proof fn lemma_padding_width(count: nat)
    ensures
        spans_width(padding_spans(count)) == count,
{
    if count > 0 {
        lemma_repeated_width(' ', count);
        lemma_single_span_width(raw_span(repeated(' ', count)));
    }
}

/// Other styles take no other columns.
proof fn lemma_restyled_width(spans: Seq<SpanView>, style: Style)
    ensures
        spans_width(
            spans.map_values(|span: SpanView| SpanView { style: style.patch(span.style), ..span }),
        ) == spans_width(spans),
    decreases spans.len(),
{
    let restyled = spans.map_values(
        |span: SpanView| SpanView { style: style.patch(span.style), ..span },
    );
    if spans.len() > 0 {
        lemma_restyled_width(spans.drop_last(), style);
        assert(restyled.drop_last() =~= spans.drop_last().map_values(
            |span: SpanView| SpanView { style: style.patch(span.style), ..span },
        ));
    }
}

/// A cell takes as many columns as its text, in a header too.
proof fn lemma_cell_spans_width(row: TableRowView, column: int, header_style: Style)
    ensures
        spans_width(cell_spans(row, column, header_style)) == cell_width(row, column),
{
    if 0 <= column < row.cells.len() && row.is_header {
        lemma_restyled_width(row.cells[column], header_style);
    }
}

/// A cell with what stands around it takes the width of its column and three columns more.
proof fn lemma_slot_width(
    row: TableRowView,
    alignment: Alignment,
    column: int,
    width: nat,
    header_style: Style,
)
    requires
        cell_width(row, column) <= width,
    ensures
        spans_width(slot_spans(row, alignment, column, width, header_style)) == width + 3,
{
    let (left, right) = padding(alignment, (width - cell_width(row, column)) as nat);
    let space = seq![raw_span(" "@)];
    let cell = cell_spans(row, column, header_style);
    let end = seq![raw_span(" "@), raw_span("│"@)];
    reveal_strlit(" ");
    reveal_strlit("│");
    lemma_single_width(" "@, ' ');
    lemma_single_width("│"@, '\u{2502}');
    lemma_single_span_width(raw_span(" "@));
    lemma_single_span_width(raw_span("│"@));
    lemma_padding_width(left);
    lemma_padding_width(right);
    lemma_cell_spans_width(row, column, header_style);
    lemma_spans_width_concat(space, padding_spans(left));
    lemma_spans_width_concat(space + padding_spans(left), cell);
    lemma_spans_width_concat(space + padding_spans(left) + cell, padding_spans(right));
    lemma_spans_width_concat(
        space + padding_spans(left) + cell + padding_spans(right),
        end,
    );
    lemma_spans_width_concat(space, seq![raw_span("│"@)]);
    assert(end =~= space + seq![raw_span("│"@)]);
}

/// A row takes the columns of the frame.
pub proof fn lemma_row_width(
    row: TableRowView,
    alignments: Seq<Alignment>,
    widths: Seq<nat>,
    header_style: Style,
    count: nat,
)
    requires
        count <= widths.len(),
        forall|j: int| 0 <= j < widths.len() ==> cell_width(row, j) <= #[trigger] widths[j],
    ensures
        spans_width(row_spans(row, alignments, widths, header_style, count)) == frame_width(
            widths.take(count as int),
        ),
    decreases count,
{
    if count == 0 {
        reveal_strlit("│");
        lemma_single_width("│"@, '\u{2502}');
        lemma_single_span_width(raw_span("│"@));
    } else {
        let column = count - 1;
        lemma_row_width(row, alignments, widths, header_style, (count - 1) as nat);
        assert(widths.take(count as int).drop_last() =~= widths.take(column));
        lemma_slot_width(
            row,
            column_alignment(alignments, column),
            column,
            widths[column],
            header_style,
        );
        lemma_spans_width_concat(
            row_spans(row, alignments, widths, header_style, (count - 1) as nat),
            slot_spans(
                row,
                column_alignment(alignments, column),
                column,
                widths[column],
                header_style,
            ),
        );
    }
}

/// A part of a horizontal line takes the columns of that part of the frame.
proof fn lemma_border_part_width(
    widths: Seq<nat>,
    left: Seq<char>,
    mid: Seq<char>,
    right: Seq<char>,
    count: nat,
)
    requires
        count <= widths.len(),
        text_width(left) == 1,
        text_width(mid) == 1,
        text_width(right) == 1,
    ensures
        spans_width(border_line(widths, left, mid, right).spans.take((2 * count + 1) as int))
            == frame_width(widths.take(count as int)),
    decreases count,
{
    let spans = border_line(widths, left, mid, right).spans;
    if count == 0 {
        lemma_single_span_width(raw_span(left));
        assert(spans.take(1) =~= seq![raw_span(left)]);
        assert(frame_width(widths.take(0)) == 1);
    } else {
        let column = count - 1;
        lemma_border_part_width(widths, left, mid, right, (count - 1) as nat);
        assert(widths.take(count as int).drop_last() =~= widths.take(column));
        let all = spans.take((2 * count + 1) as int);
        let bar = spans.take((2 * count) as int);
        assert(all.drop_last() =~= bar);
        assert(bar.drop_last() =~= spans.take(2 * column + 1));
        assert(bar.last() == raw_span(repeated('\u{2500}', widths[column] + 2)));
        lemma_repeated_width('\u{2500}', widths[column] + 2);
        assert(text_width(all.last().content) == 1);
        assert(spans_width(all) == spans_width(bar) + 1);
        assert(spans_width(bar) == spans_width(spans.take(2 * column + 1)) + widths[column] + 2);
        assert(frame_width(widths.take(count as int)) == frame_width(widths.take(column))
            + widths[column] + 3);
    }
}

/// A horizontal line takes the columns of the frame.
proof fn lemma_border_width(widths: Seq<nat>, left: Seq<char>, mid: Seq<char>, right: Seq<char>)
    requires
        text_width(left) == 1,
        text_width(mid) == 1,
        text_width(right) == 1,
    ensures
        spans_width(border_line(widths, left, mid, right).spans) == frame_width(widths),
{
    let spans = border_line(widths, left, mid, right).spans;
    lemma_border_part_width(widths, left, mid, right, widths.len());
    assert(spans.take((2 * widths.len() + 1) as int) =~= spans);
    assert(widths.take(widths.len() as int) =~= widths);
}

/// The corners and crossings of the frame take one column each.
proof fn lemma_corner_widths()
    ensures
        text_width("┌"@) == 1,
        text_width("┬"@) == 1,
        text_width("┐"@) == 1,
        text_width("└"@) == 1,
        text_width("┴"@) == 1,
        text_width("┘"@) == 1,
        text_width("├"@) == 1,
        text_width("┼"@) == 1,
        text_width("┤"@) == 1,
{
    reveal_strlit("┌");
    reveal_strlit("┬");
    reveal_strlit("┐");
    reveal_strlit("└");
    reveal_strlit("┴");
    reveal_strlit("┘");
    reveal_strlit("├");
    reveal_strlit("┼");
    reveal_strlit("┤");
    lemma_single_width("┌"@, '\u{250c}');
    lemma_single_width("┬"@, '\u{252c}');
    lemma_single_width("┐"@, '\u{2510}');
    lemma_single_width("└"@, '\u{2514}');
    lemma_single_width("┴"@, '\u{2534}');
    lemma_single_width("┘"@, '\u{2518}');
    lemma_single_width("├"@, '\u{251c}');
    lemma_single_width("┼"@, '\u{253c}');
    lemma_single_width("┤"@, '\u{2524}');
}

/// A column is at least as wide as each of its cells.
pub proof fn lemma_column_width_covers(rows: Seq<TableRowView>, i: int, column: int)
    requires
        0 <= i < rows.len(),
    ensures
        cell_width(rows[i], column) <= column_width(rows, column),
    decreases rows.len(),
{
    if i < rows.len() - 1 {
        lemma_column_width_covers(rows.drop_last(), i, column);
        assert(rows.drop_last()[i] == rows[i]);
    }
}

/// The frame of a table is a rectangle: every line of it takes the same number of columns, whatever
/// stands in the cells.
pub proof fn law_table_lines_are_equally_wide(table: TableView, header_style: Style, i: int)
    requires
        0 <= i < table.lines(header_style).len(),
    ensures
        spans_width(table.lines(header_style)[i].spans) == frame_width(table.widths()),
{
    let widths = table.widths();
    lemma_corner_widths();
    if i == 0 {
        lemma_border_width(widths, "┌"@, "┬"@, "┐"@);
    } else if i % 2 == 1 {
        let row = table.rows[i / 2];
        assert forall|j: int| 0 <= j < widths.len() implies cell_width(row, j)
            <= #[trigger] widths[j] by {
            lemma_column_width_covers(table.rows, i / 2, j);
        }
        lemma_row_width(row, table.alignments, widths, header_style, widths.len());
        assert(widths.take(widths.len() as int) =~= widths);
    } else if i == 2 * table.rows.len() {
        lemma_border_width(widths, "└"@, "┴"@, "┘"@);
    } else {
        lemma_border_width(widths, "├"@, "┼"@, "┤"@);
    }
}

/// No column is narrower than one of its cells, and none is empty.
pub proof fn law_columns_are_wide_enough(table: TableView, i: int, column: int)
    requires
        0 <= i < table.rows.len(),
        0 <= column < table.rows[i].cells.len(),
    ensures
        column < table.widths().len(),
        spans_width(table.rows[i].cells[column]) <= table.widths()[column],
        1 <= table.widths()[column],
{
    lemma_longest_row(table.rows, i);
    lemma_column_width_covers(table.rows, i, column);
    lemma_column_width_positive(table.rows, column);
}

/// No row has more cells than the longest.
pub proof fn lemma_longest_row(rows: Seq<TableRowView>, i: int)
    requires
        0 <= i < rows.len(),
    ensures
        rows[i].cells.len() <= longest_row(rows),
    decreases rows.len(),
{
    if i < rows.len() - 1 {
        lemma_longest_row(rows.drop_last(), i);
        assert(rows.drop_last()[i] == rows[i]);
    }
}

/// A column takes at least one terminal column.
pub proof fn lemma_column_width_positive(rows: Seq<TableRowView>, column: int)
    ensures
        1 <= column_width(rows, column),
    decreases rows.len(),
{
    if rows.len() > 0 {
        lemma_column_width_positive(rows.drop_last(), column);
    }
}

} // verus!
