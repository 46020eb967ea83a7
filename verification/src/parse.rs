//! Reading a Markdown document as events, with `pulldown_cmark`.

use pulldown_cmark::{
    Alignment as ParserAlignment, CodeBlockKind as ParserCodeBlockKind, Event as ParserEvent,
    HeadingLevel as ParserHeadingLevel, Options as ParserFlags, Parser, Tag as ParserTag,
};
use vstd::prelude::*;

use crate::event::{
    events_view, Alignment, CodeBlockKind, Event, EventView, HeadingLevel, HeadingMeta, Tag,
    TagView,
};
use crate::parse::ends::end_at;

pub mod ends;

verus! {

/// An event of `pulldown_cmark`.
#[verifier::external_type_specification]
#[verifier::external_body]
pub struct ExParserEvent<'a>(ParserEvent<'a>);

/// The extensions of Markdown that are recognised.
#[derive(Clone, Copy, Debug, PartialEq, Eq)]
pub struct Extensions {
    pub strikethrough: bool,
    pub tables: bool,
    pub tasklists: bool,
    pub heading_attributes: bool,
    pub yaml_style_metadata_blocks: bool,
    pub superscript: bool,
    pub subscript: bool,
}

/// The events that `pulldown_cmark` reads in a document, with the given extensions switched on.
pub uninterp spec fn parsed_events(input: Seq<char>, extensions: Extensions) -> Seq<EventView>;

/// What the events of `pulldown_cmark` in a vector say.
pub uninterp spec fn events_held(events: Seq<ParserEvent<'static>>) -> Seq<EventView>;

/// Calls [`Parser::new_ext`] and collects the events that the parser yields.
///
/// Claims that the events depend on the document and on the extensions alone.
#[verifier::external_body]
fn collect_events<'a>(input: &'a str, extensions: Extensions) -> (events: Vec<ParserEvent<'a>>)
    ensures
        events_held(events@) == parsed_events(input@, extensions),
        events_held(events@).len() == events@.len(),
{
    let mut flags = ParserFlags::empty();
    flags.set(ParserFlags::ENABLE_STRIKETHROUGH, extensions.strikethrough);
    flags.set(ParserFlags::ENABLE_TABLES, extensions.tables);
    flags.set(ParserFlags::ENABLE_TASKLISTS, extensions.tasklists);
    flags.set(ParserFlags::ENABLE_HEADING_ATTRIBUTES, extensions.heading_attributes);
    flags.set(
        ParserFlags::ENABLE_YAML_STYLE_METADATA_BLOCKS,
        extensions.yaml_style_metadata_blocks,
    );
    flags.set(ParserFlags::ENABLE_SUPERSCRIPT, extensions.superscript);
    flags.set(ParserFlags::ENABLE_SUBSCRIPT, extensions.subscript);
    Parser::new_ext(input, flags).collect()
}

/// Whether an element is one of those that [`block_tag_at`] reads.
pub open spec fn is_block_tag(tag: TagView) -> bool {
    match tag {
        TagView::Paragraph => true,
        TagView::BlockQuote => true,
        TagView::CodeBlock(_) => true,
        TagView::HtmlBlock => true,
        TagView::List(_) => true,
        TagView::Item => true,
        TagView::FootnoteDefinition => true,
        TagView::DefinitionList => true,
        TagView::DefinitionListTitle => true,
        TagView::DefinitionListDefinition => true,
        TagView::MetadataBlock => true,
        _ => false,
    }
}

/// Reads a [`pulldown_cmark::Event::Start`] of an element that stands on lines of its own, except
/// for headings and tables.
///
/// Claims to tell which element starts, with the kind of a code block and the first number of a
/// list, and to return nothing for any other event.
#[verifier::external_body]
fn block_tag_at(events: &Vec<ParserEvent<'_>>, index: usize) -> (tag: Option<Tag>)
    requires
        index < events@.len(),
    ensures
        match events_held(events@)[index as int] {
            EventView::Start(view) if is_block_tag(view) => tag matches Some(read) && read@ == view,
            _ => tag is None,
        },
{
    let ParserEvent::Start(tag) = &events[index] else { return None };
    Some(match tag {
        ParserTag::Paragraph => Tag::Paragraph, ParserTag::BlockQuote(_) => Tag::BlockQuote,
        ParserTag::CodeBlock(ParserCodeBlockKind::Indented) => Tag::CodeBlock(CodeBlockKind::Indented),
        ParserTag::CodeBlock(ParserCodeBlockKind::Fenced(lang)) => Tag::CodeBlock(CodeBlockKind::Fenced(lang.to_string())),
        ParserTag::HtmlBlock => Tag::HtmlBlock, ParserTag::List(start) => Tag::List(*start),
        ParserTag::Item => Tag::Item, ParserTag::FootnoteDefinition(_) => Tag::FootnoteDefinition,
        ParserTag::DefinitionList => Tag::DefinitionList,
        ParserTag::DefinitionListTitle => Tag::DefinitionListTitle,
        ParserTag::DefinitionListDefinition => Tag::DefinitionListDefinition,
        ParserTag::MetadataBlock(_) => Tag::MetadataBlock,
        _ => return None,
    })
}

/// Whether an element is one of those that [`inline_tag_at`] reads.
pub open spec fn is_inline_tag(tag: TagView) -> bool {
    match tag {
        TagView::TableHead => true,
        TagView::TableRow => true,
        TagView::TableCell => true,
        TagView::Emphasis => true,
        TagView::Strong => true,
        TagView::Strikethrough => true,
        TagView::Superscript => true,
        TagView::Subscript => true,
        TagView::Link(_) => true,
        TagView::Image => true,
        _ => false,
    }
}

/// Reads a [`pulldown_cmark::Event::Start`] of a part of a table or of an element that stands
/// within a line.
///
/// Claims to tell which element starts, with the destination of a link, and to return nothing for
/// any other event.
#[verifier::external_body]
fn inline_tag_at(events: &Vec<ParserEvent<'_>>, index: usize) -> (tag: Option<Tag>)
    requires
        index < events@.len(),
    ensures
        match events_held(events@)[index as int] {
            EventView::Start(view) if is_inline_tag(view) => tag matches Some(read) && read@ == view,
            _ => tag is None,
        },
{
    let ParserEvent::Start(tag) = &events[index] else { return None };
    Some(match tag {
        ParserTag::TableHead => Tag::TableHead, ParserTag::TableRow => Tag::TableRow,
        ParserTag::TableCell => Tag::TableCell,
        ParserTag::Emphasis => Tag::Emphasis, ParserTag::Strong => Tag::Strong,
        ParserTag::Strikethrough => Tag::Strikethrough,
        ParserTag::Superscript => Tag::Superscript, ParserTag::Subscript => Tag::Subscript,
        ParserTag::Link { dest_url, .. } => Tag::Link(dest_url.to_string()),
        ParserTag::Image { .. } => Tag::Image,
        _ => return None,
    })
}

/// Reads a [`pulldown_cmark::Event::Start`] of a heading.
///
/// Claims to return its level, its identifier, its classes and its further attributes in their
/// order, and nothing for any other event.
#[verifier::external_body]
fn heading_at(events: &Vec<ParserEvent<'_>>, index: usize) -> (heading: Option<
    (HeadingLevel, HeadingMeta),
>)
    requires
        index < events@.len(),
    ensures
        match events_held(events@)[index as int] {
            EventView::Start(TagView::Heading(level, meta)) => heading matches Some(read)
                && read.0 == level && read.1@ == meta,
            _ => heading is None,
        },
{
    let ParserEvent::Start(ParserTag::Heading { level, id, classes, attrs }) = &events[index] else { return None };
    let level = match level {
        ParserHeadingLevel::H1 => HeadingLevel::H1, ParserHeadingLevel::H2 => HeadingLevel::H2,
        ParserHeadingLevel::H3 => HeadingLevel::H3, ParserHeadingLevel::H4 => HeadingLevel::H4,
        ParserHeadingLevel::H5 => HeadingLevel::H5, ParserHeadingLevel::H6 => HeadingLevel::H6,
    };
    let id = id.as_ref().map(|id| id.to_string());
    let classes = classes.iter().map(|class| class.to_string()).collect();
    let attrs = attrs.iter().map(|(k, v)| (k.to_string(), v.as_ref().map(|v| v.to_string())));
    Some((level, HeadingMeta { id, classes, attrs: attrs.collect() }))
}

/// Reads a [`pulldown_cmark::Event::Start`] of a table.
///
/// Claims to return the alignments of its columns in their order, and nothing for any other event.
#[verifier::external_body]
fn table_at(events: &Vec<ParserEvent<'_>>, index: usize) -> (alignments: Option<Vec<Alignment>>)
    requires
        index < events@.len(),
    ensures
        match events_held(events@)[index as int] {
            EventView::Start(TagView::Table(view)) => alignments matches Some(read) && read@ == view,
            _ => alignments is None,
        },
{
    let ParserEvent::Start(ParserTag::Table(alignments)) = &events[index] else { return None };
    let alignments = alignments.iter().map(|alignment| match alignment {
        ParserAlignment::None => Alignment::Unset,
        ParserAlignment::Left => Alignment::Left,
        ParserAlignment::Center => Alignment::Center,
        ParserAlignment::Right => Alignment::Right,
    });
    Some(alignments.collect())
}

/// Reads an event of `pulldown_cmark` that neither starts nor ends an element.
///
/// Claims to tell what it is, with the text of text and of code and the state of a task list
/// marker, and to return nothing where an element starts or ends.
#[verifier::external_body]
fn leaf_at(events: &Vec<ParserEvent<'_>>, index: usize) -> (event: Option<Event>)
    requires
        index < events@.len(),
    ensures
        match events_held(events@)[index as int] {
            EventView::Start(_) => event is None,
            EventView::End(_) => event is None,
            view => event matches Some(read) && read@ == view,
        },
{
    Some(match &events[index] {
        ParserEvent::Start(_) => return None, ParserEvent::End(_) => return None,
        ParserEvent::Text(text) => Event::Text(text.to_string()),
        ParserEvent::Code(code) => Event::Code(code.to_string()),
        ParserEvent::InlineMath(_) => Event::InlineMath, ParserEvent::Html(_) => Event::Html,
        ParserEvent::DisplayMath(_) => Event::DisplayMath,
        ParserEvent::InlineHtml(_) => Event::InlineHtml,
        ParserEvent::FootnoteReference(_) => Event::FootnoteReference,
        ParserEvent::SoftBreak => Event::SoftBreak, ParserEvent::HardBreak => Event::HardBreak,
        ParserEvent::Rule => Event::Rule,
        ParserEvent::TaskListMarker(checked) => Event::TaskListMarker(*checked),
    })
}

/// The event at the given place.
fn event_at(events: &Vec<ParserEvent<'_>>, index: usize) -> (event: Event)
    requires
        index < events@.len(),
    ensures
        event@ == events_held(events@)[index as int],
{
    match leaf_at(events, index) {
        Some(event) => event,
        None => match end_at(events, index) {
            Some(end) => Event::End(end),
            None => Event::Start(tag_at(events, index)),
        },
    }
}

/// The element that starts at the given place.
fn tag_at(events: &Vec<ParserEvent<'_>>, index: usize) -> (tag: Tag)
    requires
        index < events@.len(),
        events_held(events@)[index as int] is Start,
    ensures
        EventView::Start(tag@) == events_held(events@)[index as int],
{
    if let Some(tag) = block_tag_at(events, index) {
        return tag;
    }
    if let Some(tag) = inline_tag_at(events, index) {
        return tag;
    }
    if let Some((level, meta)) = heading_at(events, index) {
        return Tag::Heading(level, meta);
    }
    Tag::Table(table_at(events, index).unwrap())
}

/// Reads a Markdown document as events.
pub fn parse(input: &str, extensions: Extensions) -> (events: Vec<Event>)
    ensures
        events_view(events@) == parsed_events(input@, extensions),
{
    let parsed = collect_events(input, extensions);
    let mut events: Vec<Event> = Vec::new();
    let mut i: usize = 0;
    while i < parsed.len()
        invariant
            i <= parsed.len(),
            events_held(parsed@).len() == parsed@.len(),
            events_view(events@) =~= events_held(parsed@).take(i as int),
        decreases parsed.len() - i,
    {
        let event = event_at(&parsed, i);
        let ghost before = events@;
        events.push(event);
        assert(events_view(events@) =~= events_view(before).push(event@));
        i += 1;
        assert(events_held(parsed@).take(i as int) =~= events_held(parsed@).take(i - 1).push(
            event@,
        ));
    }
    assert(events_held(parsed@).take(i as int) =~= events_held(parsed@));
    events
}

} // verus!
