//! Tables: cells are collected row by row, and laid out in a frame once all of them are known.

use vstd::prelude::*;

use crate::event::Alignment;
use crate::strings::{repeat_char, repeated};
use crate::style::Style;
use crate::text::{
    clone_spans, lemma_lines_view_push, lemma_spans_view_concat, lemma_spans_view_push, lines_view,
    raw_span, spans_view, Line, LineView, Span, SpanView,
};
use crate::width::{checked_display_width_spans, display_width_spans, spans_width};

verus! {

broadcast use {lemma_spans_view_push, lemma_lines_view_push};

/// A cell of a table.
#[derive(Debug, PartialEq, Eq)]
pub struct TableCell {
    pub spans: Vec<Span>,
}

/// A row of a table.
#[derive(Debug, PartialEq, Eq)]
pub struct TableRow {
    pub cells: Vec<TableCell>,
    pub is_header: bool,
}

/// What a [`TableRow`] holds: its cells, each as its spans.
pub struct TableRowView {
    pub cells: Seq<Seq<SpanView>>,
    pub is_header: bool,
}

/// A table that is being read.
#[derive(Debug, PartialEq, Eq)]
pub struct TableState {
    pub alignments: Vec<Alignment>,
    pub rows: Vec<TableRow>,
    pub current_row: Option<TableRow>,
    pub current_cell: Option<TableCell>,
    pub in_head: bool,
}

/// What a [`TableState`] holds.
pub struct TableView {
    pub alignments: Seq<Alignment>,
    pub rows: Seq<TableRowView>,
    pub current_row: Option<TableRowView>,
    pub current_cell: Option<Seq<SpanView>>,
    pub in_head: bool,
}

impl View for TableCell {
    type V = Seq<SpanView>;

    open spec fn view(&self) -> Seq<SpanView> {
        spans_view(self.spans@)
    }
}

/// What each of the cells holds.
pub open spec fn cells_view(cells: Seq<TableCell>) -> Seq<Seq<SpanView>> {
    cells.map_values(|cell: TableCell| cell@)
}

impl View for TableRow {
    type V = TableRowView;

    open spec fn view(&self) -> TableRowView {
        TableRowView { cells: cells_view(self.cells@), is_header: self.is_header }
    }
}

/// What each of the rows holds.
pub open spec fn rows_view(rows: Seq<TableRow>) -> Seq<TableRowView> {
    rows.map_values(|row: TableRow| row@)
}

impl View for TableState {
    type V = TableView;

    open spec fn view(&self) -> TableView {
        TableView {
            alignments: self.alignments@,
            rows: rows_view(self.rows@),
            current_row: match self.current_row {
                Some(row) => Some(row@),
                None => None,
            },
            current_cell: match self.current_cell {
                Some(cell) => Some(cell@),
                None => None,
            },
            in_head: self.in_head,
        }
    }
}

impl TableView {
    /// A table without rows.
    pub open spec fn empty(alignments: Seq<Alignment>) -> TableView {
        TableView {
            alignments,
            rows: Seq::empty(),
            current_row: None,
            current_cell: None,
            in_head: false,
        }
    }

    /// The table once its head has started.
    pub open spec fn start_head(self) -> TableView {
        TableView { in_head: true, ..self }
    }

    /// The table once its head has ended, and with it the row in the head.
    pub open spec fn end_head(self) -> TableView {
        TableView { in_head: false, ..self.end_row() }
    }

    /// The table once a row has started; a row that starts in the head is a header.
    pub open spec fn start_row(self) -> TableView {
        TableView {
            current_row: Some(TableRowView { cells: Seq::empty(), is_header: self.in_head }),
            ..self
        }
    }

    /// The table once a row has ended, and with it the cell in it.
    pub open spec fn end_row(self) -> TableView {
        let table = self.end_cell();
        match table.current_row {
            Some(row) => TableView { rows: table.rows.push(row), current_row: None, ..table },
            None => table,
        }
    }

    /// The table once a cell has started; it starts a row where there is none.
    pub open spec fn start_cell(self) -> TableView {
        let table = if self.current_row is None {
            self.start_row()
        } else {
            self
        };
        TableView { current_cell: Some(Seq::empty()), ..table }
    }

    /// The table once a cell has ended: it joins its row.
    pub open spec fn end_cell(self) -> TableView {
        match (self.current_cell, self.current_row) {
            (Some(cell), Some(row)) => TableView {
                current_cell: None,
                current_row: Some(TableRowView { cells: row.cells.push(cell), ..row }),
                ..self
            },
            _ => TableView { current_cell: None, ..self },
        }
    }

    /// The table with one more span in the cell that is being read, if there is one.
    pub open spec fn push_span(self, span: SpanView) -> TableView {
        match self.current_cell {
            Some(cell) => TableView { current_cell: Some(cell.push(span)), ..self },
            None => self,
        }
    }
}

/// The larger of two numbers.
pub open spec fn larger(a: nat, b: nat) -> nat {
    if a < b {
        b
    } else {
        a
    }
}

/// Whether the width of a cell, with a space on either side, can be counted in a `usize`.
pub open spec fn cell_fits(cell: Seq<SpanView>) -> bool {
    spans_width(cell) + 2 <= usize::MAX
}

/// Whether the widths of all cells of a row can be counted.
pub open spec fn row_fits(row: TableRowView) -> bool {
    forall|j: int| 0 <= j < row.cells.len() ==> cell_fits(#[trigger] row.cells[j])
}

/// The number of cells in the longest row.
pub open spec fn longest_row(rows: Seq<TableRowView>) -> nat
    decreases rows.len(),
{
    if rows.len() == 0 {
        0
    } else {
        larger(longest_row(rows.drop_last()), rows.last().cells.len())
    }
}

/// The columns that a cell of a row takes; a cell that is not there takes none.
pub open spec fn cell_width(row: TableRowView, column: int) -> nat {
    if 0 <= column < row.cells.len() {
        spans_width(row.cells[column])
    } else {
        0
    }
}

/// The width of a column: that of its widest cell, and at least one.
pub open spec fn column_width(rows: Seq<TableRowView>, column: int) -> nat
    decreases rows.len(),
{
    if rows.len() == 0 {
        1
    } else {
        larger(column_width(rows.drop_last(), column), cell_width(rows.last(), column))
    }
}

/// How a column is aligned; one beyond those that the table names is aligned as usual.
pub open spec fn column_alignment(alignments: Seq<Alignment>, column: int) -> Alignment {
    if 0 <= column < alignments.len() {
        alignments[column]
    } else {
        Alignment::Unset
    }
}

/// A horizontal line of the frame.
pub open spec fn border_line(
    widths: Seq<nat>,
    left: Seq<char>,
    mid: Seq<char>,
    right: Seq<char>,
) -> LineView {
    LineView {
        spans: Seq::new(
            2 * widths.len() + 1,
            |i: int|
                if i == 0 {
                    raw_span(left)
                } else if i % 2 == 1 {
                    raw_span(repeated('\u{2500}', widths[i / 2] + 2))
                } else if i == 2 * widths.len() {
                    raw_span(right)
                } else {
                    raw_span(mid)
                },
        ),
        style: Style::new(),
    }
}

/// The spaces before a cell and those after it, where `remaining` of them are to be placed.
pub open spec fn padding(alignment: Alignment, remaining: nat) -> (nat, nat) {
    match alignment {
        Alignment::Right => (remaining, 0),
        Alignment::Center => (remaining / 2, (remaining - remaining / 2) as nat),
        Alignment::Unset => (0, remaining),
        Alignment::Left => (0, remaining),
    }
}

/// A span of spaces, or none at all.
pub open spec fn padding_spans(count: nat) -> Seq<SpanView> {
    if count > 0 {
        seq![raw_span(repeated(' ', count))]
    } else {
        Seq::empty()
    }
}

/// The spans of a cell as they are shown: a header is shown in `header_style`, which the styles of
/// its own spans refine.
pub open spec fn cell_spans(row: TableRowView, column: int, header_style: Style) -> Seq<SpanView> {
    if 0 <= column < row.cells.len() {
        if row.is_header {
            row.cells[column].map_values(
                |span: SpanView| SpanView { style: header_style.patch(span.style), ..span },
            )
        } else {
            row.cells[column]
        }
    } else {
        Seq::empty()
    }
}

/// A cell with its padding, a space on either side, and the line of the frame that follows it.
pub open spec fn slot_spans(
    row: TableRowView,
    alignment: Alignment,
    column: int,
    width: nat,
    header_style: Style,
) -> Seq<SpanView> {
    let used = cell_width(row, column);
    let remaining = if used < width {
        (width - used) as nat
    } else {
        0
    };
    let (left, right) = padding(alignment, remaining);
    seq![raw_span(" "@)] + padding_spans(left) + cell_spans(row, column, header_style)
        + padding_spans(right) + seq![raw_span(" "@), raw_span("│"@)]
}

/// The first `columns` cells of a row, in the frame.
pub open spec fn row_spans(
    row: TableRowView,
    alignments: Seq<Alignment>,
    widths: Seq<nat>,
    header_style: Style,
    columns: nat,
) -> Seq<SpanView>
    decreases columns,
{
    if columns == 0 {
        seq![raw_span("│"@)]
    } else {
        let column = columns - 1;
        row_spans(row, alignments, widths, header_style, (columns - 1) as nat) + slot_spans(
            row,
            column_alignment(alignments, column),
            column,
            widths[column],
            header_style,
        )
    }
}

/// A row in the frame.
pub open spec fn row_line(
    row: TableRowView,
    alignments: Seq<Alignment>,
    widths: Seq<nat>,
    header_style: Style,
) -> LineView {
    LineView {
        spans: row_spans(row, alignments, widths, header_style, widths.len()),
        style: Style::new(),
    }
}

impl TableView {
    /// The number of columns: as many as there are alignments, or as the longest row has cells.
    pub open spec fn column_count(self) -> nat {
        larger(self.alignments.len(), longest_row(self.rows))
    }

    /// The widths of the columns.
    pub open spec fn widths(self) -> Seq<nat> {
        Seq::new(self.column_count(), |column: int| column_width(self.rows, column))
    }

    /// The table as it is shown: each row between two horizontal lines of the frame. A table
    /// without columns or without rows is not shown.
    pub open spec fn lines(self, header_style: Style) -> Seq<LineView> {
        if self.column_count() == 0 || self.rows.len() == 0 {
            Seq::empty()
        } else {
            Seq::new(
                2 * self.rows.len() + 1,
                |i: int|
                    if i == 0 {
                        border_line(self.widths(), "┌"@, "┬"@, "┐"@)
                    } else if i % 2 == 1 {
                        row_line(self.rows[i / 2], self.alignments, self.widths(), header_style)
                    } else if i == 2 * self.rows.len() {
                        border_line(self.widths(), "└"@, "┴"@, "┘"@)
                    } else {
                        border_line(self.widths(), "├"@, "┼"@, "┤"@)
                    },
            )
        }
    }

    /// Whether the widths of all cells can be counted.
    pub open spec fn fits(self) -> bool {
        forall|i: int| 0 <= i < self.rows.len() ==> row_fits(#[trigger] self.rows[i])
    }
}

impl TableState {
    /// A table without rows.
    pub fn new(alignments: Vec<Alignment>) -> (table: TableState)
        ensures
            table@ == TableView::empty(alignments@),
    {
        let rows: Vec<TableRow> = Vec::new();
        assert(rows_view(rows@) =~= Seq::empty());
        TableState { alignments, rows, current_row: None, current_cell: None, in_head: false }
    }

    /// Starts the head.
    pub fn start_head(&mut self)
        ensures
            final(self)@ == old(self)@.start_head(),
    {
        self.in_head = true;
    }

    /// Ends the head, and with it the row in the head.
    pub fn end_head(&mut self)
        ensures
            final(self)@ == old(self)@.end_head(),
    {
        self.end_row();
        self.in_head = false;
    }

    /// Starts a row.
    pub fn start_row(&mut self)
        ensures
            final(self)@ == old(self)@.start_row(),
    {
        let cells: Vec<TableCell> = Vec::new();
        assert(cells_view(cells@) =~= Seq::empty());
        self.current_row = Some(TableRow { cells, is_header: self.in_head });
    }

    /// Ends a row, and with it the cell in it.
    pub fn end_row(&mut self)
        ensures
            final(self)@ == old(self)@.end_row(),
    {
        self.end_cell();
        let ghost table = self@;
        let ghost rows = self.rows@;
        if let Some(row) = self.current_row.take() {
            self.rows.push(row);
            assert(rows_view(self.rows@) =~= rows_view(rows).push(row@));
        }
    }

    /// Starts a cell, and a row where there is none.
    pub fn start_cell(&mut self)
        ensures
            final(self)@ == old(self)@.start_cell(),
    {
        if self.current_row.is_none() {
            self.start_row();
        }
        let spans: Vec<Span> = Vec::new();
        assert(spans_view(spans@) =~= Seq::empty());
        self.current_cell = Some(TableCell { spans });
    }

    /// Ends a cell, which joins its row.
    pub fn end_cell(&mut self)
        ensures
            final(self)@ == old(self)@.end_cell(),
    {
        if let Some(cell) = self.current_cell.take() {
            if let Some(row) = self.current_row.as_mut() {
                let ghost cells = row.cells@;
                row.cells.push(cell);
                assert(cells_view(row.cells@) =~= cells_view(cells).push(cell@));
            }
        }
    }

    /// Adds a span to the cell that is being read, if there is one.
    pub fn push_span(&mut self, span: Span)
        ensures
            final(self)@ == old(self)@.push_span(span@),
    {
        if let Some(cell) = self.current_cell.as_mut() {
            cell.spans.push(span);
        }
    }
}

/// The widths as mathematical numbers.
pub open spec fn widths_view(widths: Seq<usize>) -> Seq<nat> {
    widths.map_values(|width: usize| width as nat)
}

/// A horizontal line of the frame.
pub fn build_table_border(widths: &Vec<usize>, left: &str, mid: &str, right: &str) -> (line: Line)
    requires
        forall|i: int| 0 <= i < widths@.len() ==> #[trigger] widths@[i] + 2 <= usize::MAX,
    ensures
        line@ == border_line(widths_view(widths@), left@, mid@, right@),
{
    let ghost target = border_line(widths_view(widths@), left@, mid@, right@).spans;
    let mut spans: Vec<Span> = Vec::new();
    spans.push(Span::raw(left));
    let mut i: usize = 0;
    assert(spans_view(spans@) =~= target.take(1));
    while i < widths.len()
        invariant
            i <= widths.len(),
            forall|i: int| 0 <= i < widths@.len() ==> #[trigger] widths@[i] + 2 <= usize::MAX,
            target == border_line(widths_view(widths@), left@, mid@, right@).spans,
            spans_view(spans@) =~= target.take(2 * i + 1),
        decreases widths.len() - i,
    {
        let dashes = Span::styled(repeat_char('\u{2500}', widths[i] + 2), Style::new());
        assert(widths_view(widths@)[i as int] == widths@[i as int]);
        assert((2 * i + 1) / 2 == i && (2 * i + 1) % 2 == 1);
        assert(dashes@ == target[2 * i + 1]);
        spans.push(dashes);
        let corner = Span::raw(
            if i + 1 == widths.len() {
                right
            } else {
                mid
            },
        );
        assert((2 * i + 2) % 2 == 0);
        assert(corner@ == target[2 * i + 2]);
        spans.push(corner);
        i += 1;
    }
    assert(target.take(2 * i + 1) =~= target);
    Line { spans, style: Style::new() }
}

/// The spans of a cell as they are shown.
fn build_cell(row: &TableRow, column: usize, header_style: Style) -> (spans: Vec<Span>)
    ensures
        spans_view(spans@) == cell_spans(row@, column as int, header_style),
{
    if column < row.cells.len() {
        assert(row@.cells[column as int] == row.cells@[column as int]@);
        let mut spans = clone_spans(&row.cells[column].spans);
        if row.is_header {
            let ghost plain = spans_view(spans@);
            let mut i: usize = 0;
            while i < spans.len()
                invariant
                    i <= spans.len(),
                    spans@.len() == plain.len(),
                    forall|k: int|
                        0 <= k < i ==> (#[trigger] spans@[k])@ == (SpanView {
                            style: header_style.patch(plain[k].style),
                            ..plain[k]
                        }),
                    forall|k: int| i <= k < plain.len() ==> (#[trigger] spans@[k])@ == plain[k],
                decreases spans.len() - i,
            {
                let style = spans[i].style;
                spans[i].style = header_style.patch(style);
                i += 1;
            }
            assert(spans_view(spans@) =~= cell_spans(row@, column as int, header_style));
        }
        spans
    } else {
        let spans: Vec<Span> = Vec::new();
        assert(spans_view(spans@) =~= Seq::empty());
        spans
    }
}

/// Adds a span of spaces, if there are any to add.
fn push_padding(spans: &mut Vec<Span>, count: usize)
    ensures
        spans_view(final(spans)@) == spans_view(old(spans)@) + padding_spans(count as nat),
{
    if count > 0 {
        let span = Span::styled(repeat_char(' ', count), Style::new());
        spans.push(span);
        assert(spans_view(spans@) =~= spans_view(old(spans)@) + padding_spans(count as nat));
    } else {
        assert(spans_view(old(spans)@) + padding_spans(0) =~= spans_view(old(spans)@));
    }
}

/// Two elements added one by one are two elements added together.
proof fn lemma_push_two<A>(s: Seq<A>, a: A, b: A)
    ensures
        s.push(a).push(b) == s + seq![a, b],
{
    assert(s.push(a).push(b) =~= s + seq![a, b]);
}

/// The spaces before a cell and those after it.
fn cell_padding(row: &TableRow, alignment: Alignment, column: usize, width: usize) -> (res: (
    usize,
    usize,
))
    requires
        cell_width(row@, column as int) <= usize::MAX,
    ensures
        ({
            let used = cell_width(row@, column as int);
            let remaining = if used < width {
                (width - used) as nat
            } else {
                0
            };
            (res.0 as nat, res.1 as nat) == padding(alignment, remaining)
        }),
{
    let used: usize = if column < row.cells.len() {
        assert(row@.cells[column as int] == row.cells@[column as int]@);
        display_width_spans(&row.cells[column].spans)
    } else {
        0
    };
    let remaining: usize = width.saturating_sub(used);
    match alignment {
        Alignment::Right => (remaining, 0),
        Alignment::Center => (remaining / 2, remaining - remaining / 2),
        Alignment::Unset => (0, remaining),
        Alignment::Left => (0, remaining),
    }
}

/// Six sequences in a row are the first one and the other five in a row.
proof fn lemma_regroup<A>(a: Seq<A>, b: Seq<A>, c: Seq<A>, d: Seq<A>, e: Seq<A>, f: Seq<A>)
    ensures
        a + b + c + d + e + f == a + (b + c + d + e + f),
{
    assert(a + b + c + d + e + f =~= a + (b + c + d + e + f));
}

/// Adds a cell with its padding, a space on either side, and the line of the frame that follows it.
fn push_slot(
    spans: &mut Vec<Span>,
    row: &TableRow,
    alignment: Alignment,
    column: usize,
    width: usize,
    header_style: Style,
)
    requires
        cell_width(row@, column as int) <= usize::MAX,
    ensures
        spans_view(final(spans)@) == spans_view(old(spans)@) + slot_spans(
            row@,
            alignment,
            column as int,
            width as nat,
            header_style,
        ),
{
    let (left, right): (usize, usize) = cell_padding(row, alignment, column, width);
    let mut cell = build_cell(row, column, header_style);
    let ghost s0 = spans_view(spans@);
    let ghost s1 = seq![raw_span(" "@)];
    let ghost s2 = padding_spans(left as nat);
    let ghost s3 = cell_spans(row@, column as int, header_style);
    let ghost s4 = padding_spans(right as nat);
    let ghost s5 = seq![raw_span(" "@), raw_span("│"@)];
    assert(slot_spans(row@, alignment, column as int, width as nat, header_style) == s1 + s2 + s3
        + s4 + s5);
    spans.push(Span::raw(" "));
    assert(s0.push(raw_span(" "@)) =~= s0 + s1);
    push_padding(spans, left);
    proof {
        lemma_spans_view_concat(spans@, cell@);
    }
    spans.append(&mut cell);
    push_padding(spans, right);
    let ghost padded = spans_view(spans@);
    assert(padded == s0 + s1 + s2 + s3 + s4);
    spans.push(Span::raw(" "));
    spans.push(Span::raw("│"));
    proof {
        lemma_push_two(padded, raw_span(" "@), raw_span("│"@));
        lemma_regroup(s0, s1, s2, s3, s4, s5);
    }
}

/// A row in the frame.
pub fn build_table_row(
    row: &TableRow,
    alignments: &Vec<Alignment>,
    widths: &Vec<usize>,
    header_style: Style,
) -> (line: Line)
    requires
        row_fits(row@),
    ensures
        line@ == row_line(row@, alignments@, widths_view(widths@), header_style),
{
    let ghost columns = widths_view(widths@);
    let mut spans: Vec<Span> = Vec::new();
    spans.push(Span::raw("│"));
    assert(spans_view(spans@) =~= seq![raw_span("│"@)]);
    let mut i: usize = 0;
    while i < widths.len()
        invariant
            i <= widths.len(),
            columns == widths_view(widths@),
            row_fits(row@),
            spans_view(spans@) == row_spans(row@, alignments@, columns, header_style, i as nat),
        decreases widths.len() - i,
    {
        let alignment = if i < alignments.len() {
            alignments[i]
        } else {
            Alignment::Unset
        };
        assert(columns[i as int] == widths@[i as int]);
        push_slot(&mut spans, row, alignment, i, widths[i], header_style);
        i += 1;
    }
    Line { spans, style: Style::new() }
}

impl TableCell {
    /// Whether the width of the cell can be counted.
    fn fits(&self) -> (res: bool)
        ensures
            res == cell_fits(self@),
    {
        match checked_display_width_spans(&self.spans) {
            Some(width) => width <= usize::MAX - 2,
            None => false,
        }
    }
}

impl TableRow {
    /// Whether the widths of all cells of the row can be counted.
    fn fits(&self) -> (res: bool)
        ensures
            res == row_fits(self@),
    {
        let mut j: usize = 0;
        while j < self.cells.len()
            invariant
                j <= self.cells.len(),
                forall|k: int| 0 <= k < j ==> cell_fits(#[trigger] self@.cells[k]),
            decreases self.cells.len() - j,
        {
            assert(self@.cells[j as int] == self.cells@[j as int]@);
            if !self.cells[j].fits() {
                return false;
            }
            j += 1;
        }
        true
    }
}

impl TableState {
    /// Whether the widths of all cells can be counted once the row that is being read has ended.
    pub fn fits_when_ended(&self) -> (res: bool)
        ensures
            res == self@.end_row().fits(),
    {
        let ghost ended = self@.end_row();
        let mut i: usize = 0;
        while i < self.rows.len()
            invariant
                i <= self.rows.len(),
                ended == self@.end_row(),
                forall|k: int| 0 <= k < i ==> row_fits(#[trigger] self@.rows[k]),
            decreases self.rows.len() - i,
        {
            assert(self@.rows[i as int] == self.rows@[i as int]@);
            if !self.rows[i].fits() {
                assert(ended.rows[i as int] == self@.rows[i as int]);
                return false;
            }
            i += 1;
        }
        match &self.current_row {
            Some(row) => {
                let cell_fits_too = match &self.current_cell {
                    Some(cell) => cell.fits(),
                    None => true,
                };
                assert(ended.rows.drop_last() == self@.rows);
                let ghost last = ended.rows.last();
                assert(ended.rows[ended.rows.len() - 1] == last);
                assert(forall|j: int|
                    0 <= j < row@.cells.len() ==> #[trigger] last.cells[j] == row@.cells[j]);
                assert(self@.current_cell is Some ==> last.cells[row@.cells.len() as int]
                    == self@.current_cell->0);
                assert(row_fits(last) == (row_fits(row@) && (self@.current_cell is Some
                    ==> cell_fits(self@.current_cell->0)))) by {
                    if row_fits(last) {
                        assert forall|j: int| 0 <= j < row@.cells.len() implies cell_fits(
                            #[trigger] row@.cells[j],
                        ) by {
                            assert(last.cells[j] == row@.cells[j]);
                        }
                    }
                }
                assert forall|k: int| 0 <= k < ended.rows.len() - 1 implies row_fits(
                    #[trigger] ended.rows[k],
                ) by {
                    assert(ended.rows[k] == self@.rows[k]);
                }
                row.fits() && cell_fits_too
            },
            None => {
                assert(ended.rows == self@.rows);
                true
            },
        }
    }

    /// The number of columns.
    fn column_count(&self) -> (count: usize)
        ensures
            count == self@.column_count(),
    {
        let mut longest: usize = 0;
        let mut i: usize = 0;
        while i < self.rows.len()
            invariant
                i <= self.rows.len(),
                longest == longest_row(self@.rows.take(i as int)),
            decreases self.rows.len() - i,
        {
            assert(self@.rows.take(i + 1).drop_last() =~= self@.rows.take(i as int));
            assert(self@.rows.take(i + 1).last() == self.rows@[i as int]@);
            let len: usize = self.rows[i].cells.len();
            if longest < len {
                longest = len;
            }
            i += 1;
        }
        assert(self@.rows.take(i as int) =~= self@.rows);
        let count: usize = self.alignments.len();
        if count < longest {
            longest
        } else {
            count
        }
    }

    /// The width of a column.
    fn column_width(&self, column: usize) -> (width: usize)
        requires
            self@.fits(),
        ensures
            width == column_width(self@.rows, column as int),
            width + 2 <= usize::MAX,
    {
        let mut width: usize = 1;
        let mut i: usize = 0;
        while i < self.rows.len()
            invariant
                i <= self.rows.len(),
                self@.fits(),
                width == column_width(self@.rows.take(i as int), column as int),
                width + 2 <= usize::MAX,
            decreases self.rows.len() - i,
        {
            assert(self@.rows.take(i + 1).drop_last() =~= self@.rows.take(i as int));
            assert(self@.rows.take(i + 1).last() == self.rows@[i as int]@);
            let row = &self.rows[i];
            assert(self@.rows[i as int] == row@);
            if column < row.cells.len() {
                assert(row@.cells[column as int] == row.cells@[column as int]@);
                assert(cell_fits(row@.cells[column as int]));
                let used: usize = display_width_spans(&row.cells[column].spans);
                if width < used {
                    width = used;
                }
            }
            i += 1;
        }
        assert(self@.rows.take(i as int) =~= self@.rows);
        width
    }

    /// The widths of the columns.
    fn widths(&self) -> (widths: Vec<usize>)
        requires
            self@.fits(),
        ensures
            widths_view(widths@) == self@.widths(),
            forall|i: int| 0 <= i < widths@.len() ==> #[trigger] widths@[i] + 2 <= usize::MAX,
    {
        let count: usize = self.column_count();
        let mut widths: Vec<usize> = Vec::new();
        let mut column: usize = 0;
        while column < count
            invariant
                column <= count,
                self@.fits(),
                widths@.len() == column,
                forall|i: int|
                    0 <= i < widths@.len() ==> #[trigger] widths@[i] == column_width(
                        self@.rows,
                        i,
                    ) && widths@[i] + 2 <= usize::MAX,
            decreases count - column,
        {
            widths.push(self.column_width(column));
            column += 1;
        }
        assert(widths_view(widths@) =~= self@.widths());
        widths
    }

    /// The table as it is shown.
    pub fn into_lines(self, header_style: Style) -> (lines: Vec<Line>)
        requires
            self@.fits(),
        ensures
            lines_view(lines@) == self@.lines(header_style),
    {
        let mut lines: Vec<Line> = Vec::new();
        assert(lines_view(lines@) =~= Seq::empty());
        let widths = self.widths();
        assert(widths_view(widths@).len() == widths@.len());
        if widths.len() == 0 || self.rows.is_empty() {
            return lines;
        }
        let ghost target = self@.lines(header_style);
        lines.push(build_table_border(&widths, "┌", "┬", "┐"));
        assert(lines_view(lines@) =~= target.take(1));
        let mut i: usize = 0;
        while i < self.rows.len()
            invariant
                i <= self.rows.len(),
                self@.fits(),
                self@.rows.len() > 0,
                widths_view(widths@) == self@.widths(),
                widths@.len() > 0,
                self@.column_count() == widths@.len(),
                forall|i: int| 0 <= i < widths@.len() ==> #[trigger] widths@[i] + 2 <= usize::MAX,
                target == self@.lines(header_style),
                lines_view(lines@) =~= target.take(
                    if i < self.rows.len() {
                        2 * i + 1
                    } else {
                        2 * i
                    },
                ),
            decreases self.rows.len() - i,
        {
            assert(self@.rows[i as int] == self.rows@[i as int]@);
            let line = build_table_row(&self.rows[i], &self.alignments, &widths, header_style);
            assert((2 * i + 1) / 2 == i && (2 * i + 1) % 2 == 1);
            assert(line@ == target[2 * i + 1]);
            lines.push(line);
            if i + 1 < self.rows.len() {
                let border = build_table_border(&widths, "├", "┼", "┤");
                assert((2 * i + 2) % 2 == 0);
                assert(border@ == target[2 * i + 2]);
                lines.push(border);
            }
            i += 1;
        }
        let border = build_table_border(&widths, "└", "┴", "┘");
        assert((2 * i) % 2 == 0);
        assert(border@ == target[2 * i]);
        lines.push(border);
        assert(lines_view(lines@) =~= target);
        lines
    }
}

} // verus!
