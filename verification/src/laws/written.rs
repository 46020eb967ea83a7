//! What each block writes where it starts and where it ends.

use vstd::prelude::*;

use crate::event::{EventView, HeadingLevel, HeadingMetaView, TagEnd, TagView};
use crate::heading::attr_part;
use crate::laws::notions::{
    adds_spans, due_lines, fresh_line, lemma_break, lemma_decorated, lemma_literals,
    lemma_push_span_adds, lemma_raw_line, line_start, line_style, plain, unstyled,
};
use crate::model::{item_marker, popped, task_box, WriterView};
use crate::strings::{decimal, has_suffix, joined, repeated};
use crate::style::{Color, Style};
use crate::text::{raw_line, raw_span, LineView, SpanView};

verus! {

/// A stack without the topmost of its elements.
pub open spec fn without_top<A>(stack: Seq<A>) -> Seq<A> {
    if stack.len() == 0 {
        stack
    } else {
        stack.take(stack.len() - 1)
    }
}

/// A character as often as given.
pub open spec fn times(c: char, count: nat) -> Seq<char> {
    Seq::new(count, |i: int| c)
}

/// A paragraph starts after the blank line that is due, on a new line, or behind the mark of the
/// item that it is the first of. When it ends a blank line is due.
pub proof fn law_paragraph_starts_on_a_new_line(writer: WriterView)
    ensures
        writer.step(EventView::Start(TagView::Paragraph)) == (WriterView {
            lines: writer.lines + due_lines(writer) + if writer.just_added_list_item {
                Seq::empty()
            } else {
                seq![fresh_line(writer, Seq::empty())]
            },
            needs_newline: false,
            just_added_list_item: false,
            ..writer
        }),
        writer.step(EventView::End(TagEnd::Paragraph)) == (WriterView {
            needs_newline: true,
            ..writer
        }),
{
    assert(writer.step(EventView::Start(TagView::Paragraph)) == writer.start_paragraph()) by {
        reveal(WriterView::step);
    }
    assert(writer.step(EventView::End(TagEnd::Paragraph)) == writer.end_paragraph()) by {
        reveal(WriterView::step);
    }
    lemma_break(writer);
    lemma_break(writer.break_if_due());
    let expected = writer.lines + due_lines(writer) + if writer.just_added_list_item {
        Seq::empty()
    } else {
        seq![fresh_line(writer, Seq::empty())]
    };
    assert(writer.start_paragraph().lines =~= expected);
}

/// The number of a level.
pub open spec fn level_number(level: HeadingLevel) -> u8 {
    match level {
        HeadingLevel::H1 => 1,
        HeadingLevel::H2 => 2,
        HeadingLevel::H3 => 3,
        HeadingLevel::H4 => 4,
        HeadingLevel::H5 => 5,
        HeadingLevel::H6 => 6,
    }
}

/// Whether a heading has an attribute.
pub open spec fn has_attributes(meta: HeadingMetaView) -> bool {
    meta.id is Some || meta.classes.len() > 0 || meta.attrs.len() > 0
}

/// A heading starts after the blank line that is due, on a new line with as many number signs as
/// its level and a space, in the style of its level. Its attributes are kept if it has any.
pub proof fn law_heading_starts_with_number_signs(
    writer: WriterView,
    level: HeadingLevel,
    meta: HeadingMetaView,
)
    ensures
        writer.step(EventView::Start(TagView::Heading(level, meta))) == (WriterView {
            lines: writer.lines + due_lines(writer) + seq![
                LineView {
                    spans: line_start(writer) + seq![
                        plain(times('#', level_number(level) as nat) + seq![' ']),
                    ],
                    style: (writer.palette.heading)(level_number(level)).patch(line_style(writer)),
                },
            ],
            heading_meta: if has_attributes(meta) {
                Some(meta)
            } else {
                None
            },
            needs_newline: false,
            ..writer
        }),
{
    let number = level_number(level);
    let start = EventView::Start(TagView::Heading(level, meta));
    assert(writer.step(start) == writer.start_heading(number, meta)) by {
        reveal(WriterView::step);
    }
    lemma_literals();
    lemma_break(writer);
    assert(repeated('#', number as nat) =~= times('#', number as nat));
    let line = LineView {
        spans: seq![raw_span(repeated('#', number as nat) + " "@)],
        style: (writer.palette.heading)(number),
    };
    lemma_decorated(writer.break_if_due(), line);
    let expected = writer.lines + due_lines(writer) + seq![
        LineView {
            spans: line_start(writer) + seq![plain(times('#', number as nat) + seq![' '])],
            style: (writer.palette.heading)(number).patch(line_style(writer)),
        },
    ];
    assert(writer.start_heading(number, meta).lines =~= expected);
}

/// The attributes of a heading one by one: the identifier behind a number sign, each class behind a
/// dot, and each further attribute with an equals sign before its value, if it has one.
pub open spec fn shown_attributes(meta: HeadingMetaView) -> Seq<Seq<char>> {
    let ids: int = if meta.id is Some {
        1
    } else {
        0
    };
    Seq::new(
        (ids + meta.classes.len() + meta.attrs.len()) as nat,
        |i: int|
            if i < ids {
                seq!['#'] + meta.id->0
            } else if i < ids + meta.classes.len() {
                seq!['.'] + meta.classes[i - ids]
            } else {
                let attr = meta.attrs[i - ids - meta.classes.len()];
                match attr.1 {
                    Some(value) => attr.0 + seq!['='] + value,
                    None => attr.0,
                }
            },
    )
}

/// A heading ends with its attributes, each of them, in braces with a space between each two,
/// behind a space and in the style of attributes; one without attributes ends with nothing. Then a
/// blank line is due.
pub proof fn law_heading_ends_with_all_its_attributes(writer: WriterView)
    ensures
        ({
            let taken = WriterView { heading_meta: None, needs_newline: true, ..writer };
            let after = writer.step(EventView::End(TagEnd::Heading));
            match writer.heading_meta {
                Some(meta) if has_attributes(meta) => adds_spans(
                    taken,
                    after,
                    seq![
                        SpanView {
                            content: seq![' ', '{'] + joined(shown_attributes(meta), seq![' '])
                                + seq!['}'],
                            style: writer.palette.heading_meta,
                        },
                    ],
                ),
                _ => after == taken,
            }
        }),
{
    assert(writer.step(EventView::End(TagEnd::Heading)) == writer.end_heading()) by {
        reveal(WriterView::step);
    }
    match writer.heading_meta {
        Some(meta) if has_attributes(meta) => {
            lemma_suffix(meta);
            lemma_push_span_adds(
                WriterView { heading_meta: None, ..writer },
                SpanView { content: meta.suffix()->0, style: writer.palette.heading_meta },
            );
        },
        _ => {},
    }
}

/// The suffix of a heading is made of its attributes.
proof fn lemma_suffix(meta: HeadingMetaView)
    requires
        has_attributes(meta),
    ensures
        meta.suffix() == Some(
            seq![' ', '{'] + joined(shown_attributes(meta), seq![' ']) + seq!['}'],
        ),
{
    lemma_literals();
    reveal_strlit(" {");
    reveal_strlit("}");
    reveal_strlit("#");
    reveal_strlit(".");
    reveal_strlit("=");
    assert(" {"@ =~= seq![' ', '{']);
    assert("}"@ =~= seq!['}']);
    assert("#"@ =~= seq!['#']);
    assert("."@ =~= seq!['.']);
    assert("="@ =~= seq!['=']);
    assert forall|i: int| 0 <= i < meta.attrs.len() implies attr_part(#[trigger] meta.attrs[i])
        == match meta.attrs[i].1 {
        Some(value) => meta.attrs[i].0 + seq!['='] + value,
        None => meta.attrs[i].0,
    } by {}
    assert(meta.parts() =~= shown_attributes(meta));
}

/// A block quote starts after the blank line that is due; from then on lines start with one mark
/// more and have the style of quotes.
pub proof fn law_block_quote_marks_its_lines(writer: WriterView)
    ensures
        writer.step(EventView::Start(TagView::BlockQuote)) == (WriterView {
            lines: writer.lines + due_lines(writer),
            line_prefixes: writer.line_prefixes.push(plain(seq!['>'])),
            line_styles: writer.line_styles.push(writer.palette.blockquote),
            needs_newline: false,
            ..writer
        }),
        writer.step(EventView::End(TagEnd::BlockQuote)) == (WriterView {
            line_prefixes: without_top(writer.line_prefixes),
            line_styles: without_top(writer.line_styles),
            needs_newline: true,
            ..writer
        }),
{
    assert(writer.step(EventView::Start(TagView::BlockQuote)) == writer.start_blockquote()) by {
        reveal(WriterView::step);
    }
    assert(writer.step(EventView::End(TagEnd::BlockQuote)) == writer.end_blockquote()) by {
        reveal(WriterView::step);
    }
    lemma_literals();
    lemma_break(writer);
    lemma_raw_line(writer, seq!['>']);
    lemma_popped(writer.line_prefixes);
    lemma_popped(writer.line_styles);
}

/// Dropping the last element is taking all but it.
proof fn lemma_popped<A>(stack: Seq<A>)
    ensures
        popped(stack) == without_top(stack),
{
    if stack.len() > 0 {
        assert(stack.drop_last() =~= stack.take(stack.len() - 1));
    }
}

/// A list starts after the blank line that is due unless it stands in another one, and writes
/// nothing; when it ends a blank line is due. The end of an item does nothing.
pub proof fn law_list_starts_after_a_blank_line(writer: WriterView, index: Option<u64>)
    ensures
        writer.step(EventView::Start(TagView::List(index))) == (WriterView {
            lines: if writer.list_indices.len() == 0 {
                writer.lines + due_lines(writer)
            } else {
                writer.lines
            },
            list_indices: writer.list_indices.push(index),
            ..writer
        }),
        writer.step(EventView::End(TagEnd::List)) == (WriterView {
            list_indices: without_top(writer.list_indices),
            needs_newline: true,
            ..writer
        }),
        writer.step(EventView::End(TagEnd::Item)) == writer,
{
    assert(writer.step(EventView::Start(TagView::List(index))) == writer.start_list(index)) by {
        reveal(WriterView::step);
    }
    assert(writer.step(EventView::End(TagEnd::List)) == writer.end_list()) by {
        reveal(WriterView::step);
    }
    assert(writer.step(EventView::End(TagEnd::Item)) == writer) by {
        reveal(WriterView::step);
    }
    lemma_break(writer);
    lemma_popped(writer.list_indices);
}

/// The mark of an item in the innermost of `depth` lists: four spaces for each list around that
/// list, and a dash; or its number, which ends where the dash would stand, and a dot.
pub open spec fn mark_at(depth: nat, index: Option<u64>) -> SpanView {
    match index {
        None => plain(times(' ', (4 * (depth - 1)) as nat) + seq!['-', ' ']),
        Some(n) => {
            let numeral = decimal(n as nat);
            let spaces = if numeral.len() < 4 * (depth - 1) + 1 {
                (4 * (depth - 1) + 1 - numeral.len()) as nat
            } else {
                0
            };
            SpanView {
                content: times(' ', spaces) + numeral + seq!['.', ' '],
                style: Style { fg: Some(Color::LightBlue), ..unstyled() },
            }
        },
    }
}

/// The mark of an item in characters.
proof fn lemma_mark(depth: nat, index: Option<u64>)
    requires
        depth > 0,
    ensures
        item_marker(depth, index) == mark_at(depth, index),
{
    lemma_literals();
    match index {
        None => {
            assert(repeated(' ', (4 * depth - 4) as nat) =~= times(' ', (4 * (depth - 1)) as nat));
        },
        Some(n) => {
            let numeral = decimal(n as nat);
            assert(item_marker(depth, index).content =~= mark_at(depth, index).content);
        },
    }
}

/// An item starts on a new line with its mark, which stands deeper the more lists are open. The
/// next item of a numbered list has the next number.
pub proof fn law_item_starts_with_its_mark(writer: WriterView)
    requires
        writer.accepts(EventView::Start(TagView::Item)),
    ensures
        ({
            let depth = writer.list_indices.len();
            let index = writer.list_indices[depth - 1];
            &&& depth > 0
            &&& adds_spans(
                WriterView {
                    lines: writer.lines + seq![fresh_line(writer, Seq::empty())],
                    list_indices: writer.list_indices.update(
                        depth - 1,
                        match index {
                            Some(n) => Some((n + 1) as u64),
                            None => None,
                        },
                    ),
                    needs_newline: false,
                    just_added_list_item: true,
                    ..writer
                },
                writer.step(EventView::Start(TagView::Item)),
                seq![mark_at(depth, index)],
            )
        }),
{
    assert(writer.step(EventView::Start(TagView::Item)) == writer.start_item()) by {
        reveal(WriterView::step);
    }
    assert(writer.accepts_item()) by {
        reveal(WriterView::accepts);
    }
    let depth = writer.list_indices.len();
    let index = writer.list_indices.last();
    let next = match index {
        Some(n) => Some((n + 1) as u64),
        None => None,
    };
    lemma_mark(depth, index);
    lemma_break(writer);
    assert(writer.list_indices.drop_last().push(next) =~= writer.list_indices.update(
        depth - 1,
        next,
    ));
    assert(writer.lines.push(fresh_line(writer, Seq::empty())) =~= writer.lines + seq![
        fresh_line(writer, Seq::empty()),
    ]);
    let numbered = WriterView {
        lines: writer.lines + seq![fresh_line(writer, Seq::empty())],
        list_indices: writer.list_indices.update(depth - 1, next),
        ..writer
    };
    lemma_push_span_adds(numbered, mark_at(depth, index));
}

/// Each list that an item stands in moves its mark four columns to the right: the mark of an item
/// one list deeper is four spaces and then the same, unless its number is too long for that.
pub proof fn law_deeper_marks_stand_further_right(depth: nat, index: Option<u64>)
    requires
        depth > 0,
        index matches Some(n) ==> decimal(n as nat).len() <= 4 * (depth - 1) + 1,
    ensures
        item_marker(depth + 1, index).content == times(' ', 4) + item_marker(depth, index).content,
        item_marker(depth + 1, index).style == item_marker(depth, index).style,
        item_marker(depth + 1, index).content.len() == item_marker(depth, index).content.len() + 4,
        item_marker(depth, None).content == times(' ', (4 * (depth - 1)) as nat) + seq!['-', ' '],
{
    lemma_mark(depth, index);
    lemma_mark(depth + 1, index);
    lemma_mark(depth, None);
    assert(mark_at(depth + 1, index).content =~= times(' ', 4) + mark_at(depth, index).content);
}

/// The box of a task: a cross or a space in square brackets, and a space.
pub open spec fn box_chars(checked: bool) -> Seq<char> {
    seq![
        '[',
        if checked {
            'x'
        } else {
            ' '
        },
        ']',
        ' ',
    ]
}

/// The box of a task joins the first span of the last line if that ends with a dash and a space,
/// and otherwise stands behind it; where there is no line yet it is written as a span. Nothing else
/// changes.
pub proof fn law_task_box_stands_behind_the_first_span(writer: WriterView, checked: bool)
    requires
        writer.accepts(EventView::TaskListMarker(checked)),
    ensures
        ({
            let after = writer.step(EventView::TaskListMarker(checked));
            let count = writer.lines.len();
            let last = writer.lines[count - 1];
            let first = last.spans[0];
            let dash = first.content.len() >= 2 && first.content[first.content.len() - 2] == '-'
                && first.content[first.content.len() - 1] == ' ';
            if count == 0 {
                adds_spans(writer, after, seq![plain(box_chars(checked))])
            } else {
                &&& last.spans.len() > 0
                &&& after == (WriterView {
                    lines: writer.lines.update(
                        count - 1,
                        LineView {
                            spans: if dash {
                                seq![
                                    SpanView {
                                        content: first.content + box_chars(checked),
                                        style: first.style,
                                    },
                                ] + last.spans.skip(1)
                            } else {
                                seq![first, plain(box_chars(checked))] + last.spans.skip(1)
                            },
                            style: last.style,
                        },
                    ),
                    ..writer
                })
            }
        }),
{
    let event = EventView::TaskListMarker(checked);
    assert(writer.step(event) == writer.task_list_marker(checked)) by {
        reveal(WriterView::step);
    }
    assert(writer.accepts_task_list_marker()) by {
        reveal(WriterView::accepts);
    }
    lemma_literals();
    assert(task_box(checked) =~= box_chars(checked));
    lemma_raw_line(writer, box_chars(checked));
    let count = writer.lines.len();
    if count == 0 {
        lemma_push_span_adds(writer, plain(box_chars(checked)));
    } else {
        let last = writer.lines[count - 1];
        let first = last.spans[0];
        let content = first.content;
        let dash = content.len() >= 2 && content[content.len() - 2] == '-' && content[content.len()
            - 1] == ' ';
        if content.len() >= 2 {
            let tail = content.skip(content.len() - 2);
            assert(tail =~= seq![content[content.len() - 2], content[content.len() - 1]]);
            assert(tail[0] == content[content.len() - 2] && tail[1] == content[content.len() - 1]);
            assert(seq!['-', ' '][0] == '-' && seq!['-', ' '][1] == ' ');
        }
        assert(has_suffix(content, "- "@) == dash);
        let after = writer.task_list_marker(checked).lines;
        let boxed = after[count - 1].spans;
        if dash {
            assert(boxed =~= seq![
                SpanView { content: content + box_chars(checked), style: first.style },
            ] + last.spans.skip(1));
        } else {
            assert(boxed =~= seq![first, plain(box_chars(checked))] + last.spans.skip(1));
        }
        assert(after =~= writer.lines.update(count - 1, after[count - 1]));
    }
}

/// A rule is three dashes on a new line after the blank line that is due; then a blank line is due.
pub proof fn law_rule_is_three_dashes(writer: WriterView)
    ensures
        writer.step(EventView::Rule) == (WriterView {
            lines: writer.lines + due_lines(writer) + seq![
                fresh_line(writer, seq![plain(seq!['-', '-', '-'])]),
            ],
            needs_newline: true,
            ..writer
        }),
{
    assert(writer.step(EventView::Rule) == writer.rule()) by {
        reveal(WriterView::step);
    }
    lemma_literals();
    lemma_break(writer);
    lemma_raw_line(writer.break_if_due(), seq!['-', '-', '-']);
    assert(writer.rule().lines =~= writer.lines + due_lines(writer) + seq![
        fresh_line(writer, seq![plain(seq!['-', '-', '-'])]),
    ]);
}

/// A metadata block stands between two lines of three dashes, in the style of metadata.
pub proof fn law_metadata_stands_between_dashes(writer: WriterView)
    ensures
        ({
            let styles = writer.line_styles.push(writer.palette.metadata_block);
            let inside = WriterView { line_styles: styles, ..writer };
            let dashes = seq![plain(seq!['-', '-', '-'])];
            let start = writer.step(EventView::Start(TagView::MetadataBlock));
            let end = writer.step(EventView::End(TagEnd::MetadataBlock));
            &&& start == (WriterView {
                lines: writer.lines + due_lines(writer) + seq![
                    fresh_line(inside, dashes),
                    fresh_line(inside, Seq::empty()),
                ],
                line_styles: styles,
                in_metadata_block: true,
                ..writer
            })
            &&& end == if writer.in_metadata_block {
                WriterView {
                    lines: writer.lines + seq![fresh_line(writer, dashes)],
                    line_styles: without_top(writer.line_styles),
                    in_metadata_block: false,
                    needs_newline: true,
                    ..writer
                }
            } else {
                writer
            }
        }),
{
    let start = EventView::Start(TagView::MetadataBlock);
    assert(writer.step(start) == writer.start_metadata_block()) by {
        reveal(WriterView::step);
    }
    assert(writer.step(EventView::End(TagEnd::MetadataBlock)) == writer.end_metadata_block()) by {
        reveal(WriterView::step);
    }
    lemma_literals();
    lemma_break(writer);
    lemma_popped(writer.line_styles);
    let dashes = seq!['-', '-', '-'];
    let broken = writer.break_if_due();
    let styles = writer.line_styles.push(writer.palette.metadata_block);
    let inside = WriterView { line_styles: styles, ..writer };
    let styled = WriterView { line_styles: styles, ..broken };
    lemma_raw_line(styled, dashes);
    lemma_break(styled.push_line(raw_line(dashes)));
    lemma_raw_line(writer, dashes);
    assert(writer.start_metadata_block().lines =~= writer.lines + due_lines(writer) + seq![
        fresh_line(inside, seq![plain(dashes)]),
        fresh_line(inside, Seq::empty()),
    ]);
    if writer.in_metadata_block {
        assert(writer.end_metadata_block().lines =~= writer.lines + seq![
            fresh_line(writer, seq![plain(dashes)]),
        ]);
    }
}

} // verus!
