//! What writing lines of text leaves as it was, and how documents are put together from parts.

use vstd::prelude::*;

use crate::event::EventView;
use crate::model::WriterView;

verus! {

/// Writing lines of text changes the lines, the table that is being read and whether a blank line
/// is due, and nothing else.
pub proof fn lemma_write_lines_frame(writer: WriterView, lines: Seq<Seq<char>>)
    ensures
        writer.write_lines(lines) == (WriterView {
            lines: writer.write_lines(lines).lines,
            table: writer.write_lines(lines).table,
            needs_newline: writer.write_lines(lines).needs_newline,
            ..writer
        }),
        writer.in_table_cell() == writer.write_lines(lines).in_table_cell(),
        !writer.in_table_cell() ==> writer.write_lines(lines).table == writer.table,
    decreases lines.len(),
{
    if lines.len() > 0 {
        lemma_write_lines_frame(writer, lines.drop_last());
    }
}

/// Events that come one after another do what the first of them and then the rest of them do, and
/// they can come if the first of them can and then the rest of them can.
pub proof fn law_run_in_parts(writer: WriterView, events: Seq<EventView>, more: Seq<EventView>)
    ensures
        writer.run(events + more) == writer.run(events).run(more),
        writer.accepts_all(events + more) == (writer.accepts_all(events) && writer.run(
            events,
        ).accepts_all(more)),
    decreases more.len(),
{
    if more.len() > 0 {
        law_run_in_parts(writer, events, more.drop_last());
        assert((events + more).drop_last() =~= events + more.drop_last());
    } else {
        assert(events + more =~= events);
    }
}

} // verus!
