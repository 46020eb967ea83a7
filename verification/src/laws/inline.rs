//! What stands within a line: code, breaks, links and styled text, wherever it stands.

use vstd::prelude::*;

use crate::event::{EventView, TagEnd, TagView};
use crate::laws::notions::{
    adds_spans, cell_being_read, fresh_line, lemma_adds_spans_twice, lemma_break, lemma_literals,
    lemma_push_span_adds, lemma_raw_line, plain, text_style, unstyled,
};
use crate::model::WriterView;
use crate::style::{Style, BOLD, CROSSED_OUT, DIM, ITALIC};
use crate::text::{raw_span, SpanView};

verus! {

/// Code within a line is shown wherever it stands, in lists, quotes, tables and styled text: it is
/// one more span in the style of code, and changes nothing else.
pub proof fn law_code_is_one_more_span(writer: WriterView, code: Seq<char>)
    ensures
        adds_spans(
            writer,
            writer.step(EventView::Code(code)),
            seq![SpanView { content: code, style: writer.palette.code }],
        ),
{
    assert(writer.step(EventView::Code(code)) == writer.code(code)) by {
        reveal(WriterView::step);
    }
    lemma_push_span_adds(writer, SpanView { content: code, style: writer.palette.code });
}

/// A break within a paragraph is a space. In a metadata block, and where it is a hard one, it
/// starts a new line, except in a cell of a table, where it is a space all the same.
pub proof fn law_breaks_are_spaces_or_new_lines(writer: WriterView)
    ensures
        ({
            let soft = writer.step(EventView::SoftBreak);
            let hard = writer.step(EventView::HardBreak);
            let space = seq![plain(seq![' '])];
            let new_line = WriterView {
                lines: writer.lines + seq![fresh_line(writer, Seq::empty())],
                ..writer
            };
            &&& if cell_being_read(writer) is Some || !writer.in_metadata_block {
                adds_spans(writer, soft, space)
            } else {
                soft == new_line
            }
            &&& if cell_being_read(writer) is Some {
                adds_spans(writer, hard, space)
            } else {
                hard == new_line
            }
        }),
{
    assert(writer.step(EventView::SoftBreak) == writer.soft_break()) by {
        reveal(WriterView::step);
    }
    assert(writer.step(EventView::HardBreak) == writer.hard_break()) by {
        reveal(WriterView::step);
    }
    lemma_literals();
    lemma_raw_line(writer, seq![' ']);
    lemma_push_span_adds(writer, raw_span(" "@));
    lemma_break(writer);
    assert(writer.lines.push(fresh_line(writer, Seq::empty())) =~= writer.lines + seq![
        fresh_line(writer, Seq::empty()),
    ]);
}

/// A link writes nothing when it starts, and when it ends its address stands in brackets behind
/// what was written, in the style of links.
pub proof fn law_link_writes_its_address_in_brackets(writer: WriterView, url: Seq<char>)
    ensures
        writer.step(EventView::Start(TagView::Link(url))) == (WriterView {
            link: Some(url),
            ..writer
        }),
        match writer.link {
            Some(address) => adds_spans(
                WriterView { link: None, ..writer },
                writer.step(EventView::End(TagEnd::Link)),
                seq![
                    plain(seq![' ', '(']),
                    SpanView { content: address, style: writer.palette.link },
                    plain(seq![')']),
                ],
            ),
            None => writer.step(EventView::End(TagEnd::Link)) == writer,
        },
{
    assert(writer.step(EventView::Start(TagView::Link(url))) == writer.push_link(url)) by {
        reveal(WriterView::step);
    }
    assert(writer.step(EventView::End(TagEnd::Link)) == writer.pop_link()) by {
        reveal(WriterView::step);
    }
    lemma_literals();
    if let Some(address) = writer.link {
        let first = WriterView { link: None, ..writer };
        let open = raw_span(" ("@);
        let middle = SpanView { content: address, style: writer.palette.link };
        let close = raw_span(")"@);
        let second = first.push_span(open);
        let third = second.push_span(middle);
        lemma_raw_line(writer, seq![' ', '(']);
        lemma_raw_line(writer, seq![')']);
        lemma_push_span_adds(first, open);
        lemma_push_span_adds(second, middle);
        lemma_push_span_adds(third, close);
        lemma_adds_spans_twice(first, second, third, seq![open], seq![middle]);
        lemma_adds_spans_twice(
            first,
            third,
            third.push_span(close),
            seq![open] + seq![middle],
            seq![close],
        );
        assert(seq![open] + seq![middle] + seq![close] =~= seq![open, middle, close]);
    }
}

/// The attributes of the elements that style text.
pub open spec fn attributes_of(tag: TagView) -> Option<u16> {
    match tag {
        TagView::Emphasis => Some(ITALIC),
        TagView::Strong => Some(BOLD),
        TagView::Strikethrough => Some(CROSSED_OUT),
        TagView::Superscript => Some(DIM | ITALIC),
        TagView::Subscript => Some(DIM | ITALIC),
        _ => None,
    }
}

/// Text in an element that styles it has the attributes of the element besides the style that text
/// has around it, and nothing is written when the element starts.
pub proof fn law_styled_text_keeps_the_style_around_it(writer: WriterView, tag: TagView)
    requires
        attributes_of(tag) is Some,
    ensures
        ({
            let after = writer.step(EventView::Start(tag));
            let own = attributes_of(tag)->0;
            let around = text_style(writer);
            &&& after == (WriterView { inline_styles: after.inline_styles, ..writer })
            &&& after.inline_styles.len() == writer.inline_styles.len() + 1
            &&& after.inline_styles.take(writer.inline_styles.len() as int)
                == writer.inline_styles
            &&& text_style(after) == (Style {
                add_modifier: around.add_modifier | own,
                sub_modifier: around.sub_modifier & !own,
                ..around
            })
        }),
{
    let own = attributes_of(tag)->0;
    let around = text_style(writer);
    let (add, sub) = (around.add_modifier, around.sub_modifier);
    assert((add & !0u16) | own == add | own && (sub & !own) | 0u16 == sub & !own) by (bit_vector);
    assert(writer.step(EventView::Start(tag)) == writer.start_tag(tag)) by {
        reveal(WriterView::step);
    }
    lemma_start_styled(writer, tag);
    let after = writer.start_tag(tag);
    assert(after.inline_styles.take(writer.inline_styles.len() as int) =~= writer.inline_styles);
}

/// An element that styles text switches on its attributes.
proof fn lemma_start_styled(writer: WriterView, tag: TagView)
    requires
        attributes_of(tag) is Some,
    ensures
        writer.start_tag(tag) == writer.push_inline_style(
            (Style { add_modifier: attributes_of(tag)->0, ..unstyled() }),
        ),
{
    let own = attributes_of(tag)->0;
    let (dim, italic) = (DIM, ITALIC);
    assert(0u16 | own == own && 0u16 & !own == 0u16) by (bit_vector);
    assert(0u16 | dim | italic == dim | italic && 0u16 & !dim & !italic == 0u16) by (bit_vector);
    match tag {
        TagView::Emphasis => {},
        TagView::Strong => {},
        TagView::Strikethrough => {},
        TagView::Superscript => {},
        TagView::Subscript => {},
        _ => {},
    }
}

/// When an element that styles text ends, its style goes and nothing else does.
pub proof fn law_end_of_styled_text_drops_its_style(writer: WriterView, kind: TagEnd)
    requires
        kind is Emphasis || kind is Strong || kind is Strikethrough || kind is Superscript
            || kind is Subscript,
    ensures
        writer.step(EventView::End(kind)) == (WriterView {
            inline_styles: if writer.inline_styles.len() == 0 {
                writer.inline_styles
            } else {
                writer.inline_styles.take(writer.inline_styles.len() - 1)
            },
            ..writer
        }),
{
    assert(writer.step(EventView::End(kind)) == writer.end_tag(kind)) by {
        reveal(WriterView::step);
    }
    match kind {
        TagEnd::Emphasis => {},
        TagEnd::Strong => {},
        TagEnd::Strikethrough => {},
        TagEnd::Superscript => {},
        TagEnd::Subscript => {},
        _ => {},
    }
    if writer.inline_styles.len() > 0 {
        assert(writer.inline_styles.drop_last() =~= writer.inline_styles.take(
            writer.inline_styles.len() - 1,
        ));
    }
}

} // verus!
