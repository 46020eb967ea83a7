//! How a table is laid out: its columns, its frame, and the cells in it.

use vstd::prelude::*;

use crate::event::Alignment;
use crate::laws::notions::{lemma_literals, plain, unstyled};
use crate::laws::tables::{
    frame_width, law_columns_are_wide_enough, lemma_column_width_covers,
    lemma_column_width_positive, lemma_longest_row, lemma_row_width,
};
use crate::laws::written::times;
use crate::strings::repeated;
use crate::style::Style;
use crate::table::{
    border_line, cell_spans, cell_width, column_alignment, column_width, longest_row, padding,
    padding_spans, row_spans, slot_spans, TableRowView, TableView,
};
use crate::text::{raw_span, LineView, SpanView};
use crate::width::spans_width;

verus! {

/// The longest row has as many cells as one of the rows.
proof fn lemma_longest_row_attained(rows: Seq<TableRowView>)
    ensures
        longest_row(rows) == 0 || exists|i: int|
            0 <= i < rows.len() && (#[trigger] rows[i]).cells.len() == longest_row(rows),
    decreases rows.len(),
{
    if rows.len() > 0 {
        let init = rows.drop_last();
        lemma_longest_row_attained(init);
        if longest_row(rows) == rows.last().cells.len() {
            assert(rows[rows.len() - 1].cells.len() == longest_row(rows));
        } else if longest_row(init) > 0 {
            let i = choose|i: int|
                0 <= i < init.len() && (#[trigger] init[i]).cells.len() == longest_row(init);
            assert(rows[i] == init[i]);
        }
    }
}

/// A column is as wide as one of its cells, or one terminal column.
proof fn lemma_column_width_attained(rows: Seq<TableRowView>, column: int)
    requires
        0 <= column,
    ensures
        column_width(rows, column) == 1 || exists|i: int|
            0 <= i < rows.len() && column < (#[trigger] rows[i]).cells.len() && spans_width(
                rows[i].cells[column],
            ) == column_width(rows, column),
    decreases rows.len(),
{
    if rows.len() > 0 {
        let init = rows.drop_last();
        lemma_column_width_attained(init, column);
        lemma_column_width_positive(init, column);
        if column_width(rows, column) == column_width(init, column) {
            if column_width(init, column) != 1 {
                let i = choose|i: int|
                    0 <= i < init.len() && column < (#[trigger] init[i]).cells.len()
                        && spans_width(init[i].cells[column]) == column_width(init, column);
                assert(rows[i] == init[i]);
            }
        } else {
            assert(rows[rows.len() - 1] == rows.last());
        }
    }
}

/// A table has as many columns as it has alignments, or as its longest row has cells, whichever is
/// more.
pub proof fn law_table_has_a_column_for_each_cell(table: TableView)
    ensures
        table.alignments.len() <= table.column_count(),
        forall|i: int|
            0 <= i < table.rows.len() ==> (#[trigger] table.rows[i]).cells.len()
                <= table.column_count(),
        table.column_count() == table.alignments.len() || exists|i: int|
            0 <= i < table.rows.len() && (#[trigger] table.rows[i]).cells.len()
                == table.column_count(),
        table.widths().len() == table.column_count(),
{
    assert forall|i: int| 0 <= i < table.rows.len() implies (#[trigger] table.rows[i]).cells.len()
        <= table.column_count() by {
        lemma_longest_row(table.rows, i);
    }
    lemma_longest_row_attained(table.rows);
}

/// A column is no wider than it must be: it is as wide as one of its cells, or one terminal column.
pub proof fn law_columns_are_no_wider_than_needed(table: TableView, column: int)
    requires
        0 <= column < table.widths().len(),
    ensures
        1 <= table.widths()[column],
        table.widths()[column] == 1 || exists|i: int|
            0 <= i < table.rows.len() && column < (#[trigger] table.rows[i]).cells.len()
                && spans_width(table.rows[i].cells[column]) == table.widths()[column],
        forall|i: int|
            0 <= i < table.rows.len() && column < (#[trigger] table.rows[i]).cells.len()
                ==> spans_width(table.rows[i].cells[column]) <= table.widths()[column],
{
    lemma_column_width_attained(table.rows, column);
    lemma_column_width_positive(table.rows, column);
    assert forall|i: int|
        0 <= i < table.rows.len() && column < (#[trigger] table.rows[i]).cells.len() implies spans_width(
        table.rows[i].cells[column],
    ) <= table.widths()[column] by {
        law_columns_are_wide_enough(table, i, column);
    }
}

/// A table is shown as one line for each row and one line of the frame before, between and after
/// them. One without rows or without columns is not shown.
pub proof fn law_table_has_a_line_for_each_row(table: TableView, header_style: Style)
    ensures
        table.lines(header_style).len() == if table.rows.len() == 0 || table.widths().len() == 0 {
            0
        } else {
            2 * table.rows.len() + 1
        },
{
}

/// Whether a line is a horizontal line of the frame, made of the given characters where lines meet.
pub open spec fn is_border(
    line: LineView,
    widths: Seq<nat>,
    left: char,
    mid: char,
    right: char,
) -> bool {
    &&& line.style == unstyled()
    &&& line.spans.len() == 2 * widths.len() + 1
    &&& line.spans[0] == plain(seq![left])
    &&& forall|k: int|
        0 <= k < widths.len() ==> {
            &&& #[trigger] line.spans[2 * k + 1] == plain(times('\u{2500}', widths[k] + 2))
            &&& line.spans[2 * k + 2] == plain(
                seq![
                    if k == widths.len() - 1 {
                        right
                    } else {
                        mid
                    },
                ],
            )
        }
}

/// A line of the frame is one.
proof fn lemma_is_border(
    widths: Seq<nat>,
    left: Seq<char>,
    mid: Seq<char>,
    right: Seq<char>,
    l: char,
    m: char,
    r: char,
)
    requires
        left == seq![l],
        mid == seq![m],
        right == seq![r],
    ensures
        is_border(border_line(widths, left, mid, right), widths, l, m, r),
{
    let line = border_line(widths, left, mid, right);
    assert forall|k: int| 0 <= k < widths.len() implies {
        &&& #[trigger] line.spans[2 * k + 1] == plain(times('\u{2500}', widths[k] + 2))
        &&& line.spans[2 * k + 2] == plain(
            seq![
                if k == widths.len() - 1 {
                    r
                } else {
                    m
                },
            ],
        )
    } by {
        assert((2 * k + 1) % 2 == 1 && (2 * k + 1) / 2 == k && (2 * k + 2) % 2 == 0);
        assert(repeated('\u{2500}', widths[k] + 2) =~= times('\u{2500}', widths[k] + 2));
    }
}

/// The frame of a table has a line above its rows, one between each two, and one below, each with
/// the corners and crossings that belong there and as long as the columns are wide.
pub proof fn law_rows_stand_between_lines_of_the_frame(
    table: TableView,
    header_style: Style,
    i: int,
)
    requires
        0 <= i < table.lines(header_style).len(),
        i % 2 == 0,
    ensures
        ({
            let lines = table.lines(header_style);
            let widths = table.widths();
            if i == 0 {
                is_border(lines[i], widths, '┌', '┬', '┐')
            } else if i == lines.len() - 1 {
                is_border(lines[i], widths, '└', '┴', '┘')
            } else {
                is_border(lines[i], widths, '├', '┼', '┤')
            }
        }),
{
    reveal_strlit("┌");
    reveal_strlit("┬");
    reveal_strlit("┐");
    reveal_strlit("└");
    reveal_strlit("┴");
    reveal_strlit("┘");
    reveal_strlit("├");
    reveal_strlit("┼");
    reveal_strlit("┤");
    assert("┌"@ =~= seq!['┌']);
    assert("┬"@ =~= seq!['┬']);
    assert("┐"@ =~= seq!['┐']);
    assert("└"@ =~= seq!['└']);
    assert("┴"@ =~= seq!['┴']);
    assert("┘"@ =~= seq!['┘']);
    assert("├"@ =~= seq!['├']);
    assert("┼"@ =~= seq!['┼']);
    assert("┤"@ =~= seq!['┤']);
    let widths = table.widths();
    lemma_is_border(widths, "┌"@, "┬"@, "┐"@, '┌', '┬', '┐');
    lemma_is_border(widths, "└"@, "┴"@, "┘"@, '└', '┴', '┘');
    lemma_is_border(widths, "├"@, "┼"@, "┤"@, '├', '┼', '┤');
}

/// A run of spaces, or nothing.
pub open spec fn spaces(count: nat) -> Seq<SpanView> {
    if count == 0 {
        Seq::empty()
    } else {
        seq![plain(times(' ', count))]
    }
}

/// The cell of a row in a column; an empty one behind the last.
pub open spec fn cell_at(row: TableRowView, column: int) -> Seq<SpanView> {
    if 0 <= column < row.cells.len() {
        row.cells[column]
    } else {
        Seq::empty()
    }
}

/// What stands in a column of a row: the cell between spaces, as the column is aligned, and the
/// line of the frame behind it. What a cell of a header holds has the style of headers under its
/// own.
pub open spec fn slot(
    row: TableRowView,
    column: int,
    alignments: Seq<Alignment>,
    width: nat,
    header_style: Style,
) -> Seq<SpanView> {
    let cell = cell_at(row, column);
    let room = (width - spans_width(cell)) as nat;
    let before = if column < alignments.len() {
        match alignments[column] {
            Alignment::Right => room,
            Alignment::Center => room / 2,
            _ => 0,
        }
    } else {
        0
    };
    seq![plain(seq![' '])] + spaces(before) + Seq::new(
        cell.len(),
        |i: int|
            SpanView {
                content: cell[i].content,
                style: if row.is_header {
                    header_style.patch(cell[i].style)
                } else {
                    cell[i].style
                },
            },
    ) + spaces((room - before) as nat) + seq![plain(seq![' ']), plain(seq!['│'])]
}

/// What stands in a column of a row is that.
proof fn lemma_slot(
    row: TableRowView,
    column: int,
    alignments: Seq<Alignment>,
    width: nat,
    header_style: Style,
)
    requires
        0 <= column,
        cell_width(row, column) <= width,
    ensures
        slot_spans(row, column_alignment(alignments, column), column, width, header_style) == slot(
            row,
            column,
            alignments,
            width,
            header_style,
        ),
{
    lemma_literals();
    reveal_strlit("│");
    assert("│"@ =~= seq!['│']);
    let cell = cell_at(row, column);
    assert(spans_width(cell) == cell_width(row, column));
    let room = (width - spans_width(cell)) as nat;
    let (left, right) = padding(column_alignment(alignments, column), room);
    assert(repeated(' ', left) =~= times(' ', left));
    assert(repeated(' ', right) =~= times(' ', right));
    assert(padding_spans(left) == spaces(left));
    assert(padding_spans(right) == spaces(right));
    assert(cell_spans(row, column, header_style) =~= Seq::new(
        cell.len(),
        |i: int|
            SpanView {
                content: cell[i].content,
                style: if row.is_header {
                    header_style.patch(cell[i].style)
                } else {
                    cell[i].style
                },
            },
    ));
    assert(seq![raw_span(" "@), raw_span("│"@)] =~= seq![plain(seq![' ']), plain(seq!['│'])]);
    assert(seq![raw_span(" "@)] =~= seq![plain(seq![' '])]);
}

/// Slots one after another behind the line of the frame that a row starts with.
pub open spec fn framed(slots: Seq<Seq<SpanView>>) -> Seq<SpanView>
    decreases slots.len(),
{
    if slots.len() == 0 {
        seq![plain(seq!['│'])]
    } else {
        framed(slots.drop_last()) + slots.last()
    }
}

/// The slots of a row.
pub open spec fn slots(
    row: TableRowView,
    alignments: Seq<Alignment>,
    widths: Seq<nat>,
    header_style: Style,
) -> Seq<Seq<SpanView>> {
    Seq::new(
        widths.len(),
        |k: int| slot(row, k, alignments, widths[k], header_style),
    )
}

/// The first slots of a row.
proof fn lemma_row_framed(
    row: TableRowView,
    alignments: Seq<Alignment>,
    widths: Seq<nat>,
    header_style: Style,
    count: nat,
)
    requires
        count <= widths.len(),
        forall|j: int| 0 <= j < widths.len() ==> cell_width(row, j) <= #[trigger] widths[j],
    ensures
        row_spans(row, alignments, widths, header_style, count) == framed(
            slots(row, alignments, widths, header_style).take(count as int),
        ),
    decreases count,
{
    let all = slots(row, alignments, widths, header_style);
    reveal_strlit("│");
    assert("│"@ =~= seq!['│']);
    if count > 0 {
        lemma_row_framed(row, alignments, widths, header_style, (count - 1) as nat);
        assert(all.take(count as int).drop_last() =~= all.take(count - 1));
        lemma_slot(row, count - 1, alignments, widths[count - 1], header_style);
    }
}

/// A part of the slots of a row is found in the whole.
proof fn lemma_framed_split(all: Seq<Seq<SpanView>>, k: int) -> (rest: Seq<SpanView>)
    requires
        0 <= k < all.len(),
    ensures
        framed(all) == framed(all.take(k)) + all[k] + rest,
    decreases all.len(),
{
    if k == all.len() - 1 {
        assert(all.take(k) =~= all.drop_last());
        assert(framed(all) =~= framed(all.take(k)) + all[k] + Seq::<SpanView>::empty());
        Seq::empty()
    } else {
        let rest = lemma_framed_split(all.drop_last(), k);
        assert(all.drop_last().take(k) =~= all.take(k));
        assert(framed(all) =~= framed(all.take(k)) + all[k] + (rest + all.last()));
        rest + all.last()
    }
}

/// Each cell of a row is shown under its column: a row is the slots of its cells one after another,
/// and the slot of a cell starts behind as many terminal columns as the columns before it take,
/// whatever stands in the other cells.
pub proof fn law_cells_are_shown_under_their_columns(
    table: TableView,
    header_style: Style,
    r: int,
    column: int,
)
    requires
        0 <= r < table.rows.len(),
        0 <= column < table.widths().len(),
    ensures
        ({
            let line = table.lines(header_style)[2 * r + 1];
            let widths = table.widths();
            let all = slots(table.rows[r], table.alignments, widths, header_style);
            &&& line.style == unstyled()
            &&& line.spans == framed(all)
            &&& exists|before: Seq<SpanView>, after: Seq<SpanView>|
                line.spans == #[trigger] (before + all[column] + after) && spans_width(before)
                    == frame_width(widths.take(column))
        }),
{
    let row = table.rows[r];
    let widths = table.widths();
    let all = slots(row, table.alignments, widths, header_style);
    assert((2 * r + 1) % 2 == 1 && (2 * r + 1) / 2 == r);
    assert forall|j: int| 0 <= j < widths.len() implies cell_width(row, j)
        <= #[trigger] widths[j] by {
        lemma_column_width_covers(table.rows, r, j);
    }
    lemma_row_framed(row, table.alignments, widths, header_style, widths.len());
    assert(all.take(widths.len() as int) =~= all);
    let line = table.lines(header_style)[2 * r + 1];
    assert(line.spans == framed(all));
    lemma_row_framed(row, table.alignments, widths, header_style, column as nat);
    lemma_row_width(row, table.alignments, widths, header_style, column as nat);
    let rest = lemma_framed_split(all, column);
    assert(line.spans == framed(all.take(column)) + all[column] + rest);
}

} // verus!
