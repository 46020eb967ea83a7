//! Values say what they hold, all of it and nothing else.

use vstd::prelude::*;

use crate::event::{
    events_view, CodeBlockKind, CodeBlockKindView, Event, EventView, HeadingMeta, Tag, TagView,
};
use crate::text::{LineView, SpanView, Text};
use crate::text_view;

verus! {

/// A text shows each of its lines, a line each of its spans, and a span its content, all in their
/// styles.
pub proof fn law_text_shows_what_it_holds(text: Text, i: int, j: int)
    requires
        0 <= i < text.lines@.len(),
        0 <= j < text.lines@[i].spans@.len(),
    ensures
        text_view(Some(text)) == Some(text@),
        text_view(None) == None::<Seq<LineView>>,
        text@.len() == text.lines@.len(),
        text@[i].style == text.lines@[i].style,
        text@[i].spans.len() == text.lines@[i].spans@.len(),
        text@[i].spans[j] == (SpanView {
            content: text.lines@[i].spans@[j].content@,
            style: text.lines@[i].spans@[j].style,
        }),
{
}

/// The attributes of a heading are those that it holds, each in its place.
pub proof fn law_heading_meta_says_what_it_holds(meta: HeadingMeta, i: int, j: int)
    requires
        0 <= i < meta.classes@.len(),
        0 <= j < meta.attrs@.len(),
    ensures
        meta@.id is Some == meta.id is Some,
        meta.id matches Some(id) ==> meta@.id == Some(id@),
        meta@.classes.len() == meta.classes@.len(),
        meta@.classes[i] == meta.classes@[i]@,
        meta@.attrs.len() == meta.attrs@.len(),
        meta@.attrs[j].0 == meta.attrs@[j].0@,
        meta@.attrs[j].1 is Some == meta.attrs@[j].1 is Some,
        meta.attrs@[j].1 matches Some(value) ==> meta@.attrs[j].1 == Some(value@),
{
}

/// The start of an element says which element starts, and all that the element holds.
pub open spec fn says_tag(tag: Tag, view: TagView) -> bool {
    match tag {
        Tag::Paragraph => view is Paragraph,
        Tag::Heading(level, meta) => view == TagView::Heading(level, meta@),
        Tag::BlockQuote => view is BlockQuote,
        Tag::CodeBlock(CodeBlockKind::Indented) => view == TagView::CodeBlock(
            CodeBlockKindView::Indented,
        ),
        Tag::CodeBlock(CodeBlockKind::Fenced(lang)) => view == TagView::CodeBlock(
            CodeBlockKindView::Fenced(lang@),
        ),
        Tag::HtmlBlock => view is HtmlBlock,
        Tag::List(first) => view == TagView::List(first),
        Tag::Item => view is Item,
        Tag::FootnoteDefinition => view is FootnoteDefinition,
        Tag::DefinitionList => view is DefinitionList,
        Tag::DefinitionListTitle => view is DefinitionListTitle,
        Tag::DefinitionListDefinition => view is DefinitionListDefinition,
        Tag::Table(alignments) => view == TagView::Table(alignments@),
        Tag::TableHead => view is TableHead,
        Tag::TableRow => view is TableRow,
        Tag::TableCell => view is TableCell,
        Tag::Emphasis => view is Emphasis,
        Tag::Strong => view is Strong,
        Tag::Strikethrough => view is Strikethrough,
        Tag::Superscript => view is Superscript,
        Tag::Subscript => view is Subscript,
        Tag::Link(url) => view == TagView::Link(url@),
        Tag::Image => view is Image,
        Tag::MetadataBlock => view is MetadataBlock,
    }
}

/// Events say what they hold, one by one and in their order.
pub proof fn law_events_say_what_they_hold(events: Seq<Event>, i: int)
    requires
        0 <= i < events.len(),
    ensures
        events_view(events).len() == events.len(),
        match events[i] {
            Event::Start(tag) => events_view(events)[i] matches EventView::Start(view) && says_tag(
                tag,
                view,
            ),
            Event::End(kind) => events_view(events)[i] == EventView::End(kind),
            Event::Text(text) => events_view(events)[i] == EventView::Text(text@),
            Event::Code(code) => events_view(events)[i] == EventView::Code(code@),
            Event::InlineMath => events_view(events)[i] is InlineMath,
            Event::DisplayMath => events_view(events)[i] is DisplayMath,
            Event::Html => events_view(events)[i] is Html,
            Event::InlineHtml => events_view(events)[i] is InlineHtml,
            Event::FootnoteReference => events_view(events)[i] is FootnoteReference,
            Event::SoftBreak => events_view(events)[i] is SoftBreak,
            Event::HardBreak => events_view(events)[i] is HardBreak,
            Event::Rule => events_view(events)[i] is Rule,
            Event::TaskListMarker(checked) => events_view(events)[i] == EventView::TaskListMarker(
                checked,
            ),
        },
{
    if let Event::Start(tag) = events[i] {
        lemma_says_tag(tag);
    }
}

/// An element says what it is.
proof fn lemma_says_tag(tag: Tag)
    ensures
        says_tag(tag, tag@),
{
    match tag {
        Tag::CodeBlock(CodeBlockKind::Indented) => {},
        Tag::CodeBlock(CodeBlockKind::Fenced(lang)) => {},
        _ => {},
    }
}

} // verus!
