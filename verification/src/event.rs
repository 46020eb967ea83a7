//! The events that a Markdown document is read as: elements that start and end, and what stands
//! in them.
//!
//! An event keeps what rendering reads of it. What an element that is not rendered holds (the
//! source of HTML or of a formula, the label of a footnote, the target of an image) is not kept.

use vstd::prelude::*;

use crate::strings::strings_view;

verus! {

/// The level of a heading.
#[derive(Clone, Copy, Debug, PartialEq, Eq)]
pub enum HeadingLevel {
    H1,
    H2,
    H3,
    H4,
    H5,
    H6,
}

/// How the text of a table column is aligned.
#[derive(Clone, Copy, Debug, PartialEq, Eq)]
pub enum Alignment {
    Unset,
    Left,
    Center,
    Right,
}

/// What marks a code block, and for a fenced one the language that the fence names.
#[derive(Debug, PartialEq, Eq)]
pub enum CodeBlockKind {
    Indented,
    Fenced(String),
}

/// The attributes of a heading, which are shown after its text.
#[derive(Debug, PartialEq, Eq)]
pub struct HeadingMeta {
    pub id: Option<String>,
    pub classes: Vec<String>,
    pub attrs: Vec<(String, Option<String>)>,
}

/// An element that can hold others.
#[derive(Debug, PartialEq, Eq)]
pub enum Tag {
    Paragraph,
    Heading(HeadingLevel, HeadingMeta),
    BlockQuote,
    CodeBlock(CodeBlockKind),
    HtmlBlock,
    /// A list; an ordered one has the number of its first item.
    List(Option<u64>),
    Item,
    FootnoteDefinition,
    DefinitionList,
    DefinitionListTitle,
    DefinitionListDefinition,
    Table(Vec<Alignment>),
    TableHead,
    TableRow,
    TableCell,
    Emphasis,
    Strong,
    Strikethrough,
    Superscript,
    Subscript,
    /// A link to the given address.
    Link(String),
    Image,
    MetadataBlock,
}

/// The kind of an element that ends.
#[derive(Clone, Copy, Debug, PartialEq, Eq)]
pub enum TagEnd {
    Paragraph,
    Heading,
    BlockQuote,
    CodeBlock,
    HtmlBlock,
    List,
    Item,
    FootnoteDefinition,
    DefinitionList,
    DefinitionListTitle,
    DefinitionListDefinition,
    Table,
    TableHead,
    TableRow,
    TableCell,
    Emphasis,
    Strong,
    Strikethrough,
    Superscript,
    Subscript,
    Link,
    Image,
    MetadataBlock,
}

/// A step through a Markdown document.
#[derive(Debug, PartialEq, Eq)]
pub enum Event {
    Start(Tag),
    End(TagEnd),
    Text(String),
    Code(String),
    InlineMath,
    DisplayMath,
    Html,
    InlineHtml,
    FootnoteReference,
    SoftBreak,
    HardBreak,
    Rule,
    /// The box of a task list item, which may be checked.
    TaskListMarker(bool),
}

/// What a [`CodeBlockKind`] says.
pub enum CodeBlockKindView {
    Indented,
    Fenced(Seq<char>),
}

/// What a [`HeadingMeta`] holds.
pub struct HeadingMetaView {
    pub id: Option<Seq<char>>,
    pub classes: Seq<Seq<char>>,
    pub attrs: Seq<(Seq<char>, Option<Seq<char>>)>,
}

/// What a [`Tag`] says.
pub enum TagView {
    Paragraph,
    Heading(HeadingLevel, HeadingMetaView),
    BlockQuote,
    CodeBlock(CodeBlockKindView),
    HtmlBlock,
    List(Option<u64>),
    Item,
    FootnoteDefinition,
    DefinitionList,
    DefinitionListTitle,
    DefinitionListDefinition,
    Table(Seq<Alignment>),
    TableHead,
    TableRow,
    TableCell,
    Emphasis,
    Strong,
    Strikethrough,
    Superscript,
    Subscript,
    Link(Seq<char>),
    Image,
    MetadataBlock,
}

/// What an [`Event`] says.
pub enum EventView {
    Start(TagView),
    End(TagEnd),
    Text(Seq<char>),
    Code(Seq<char>),
    InlineMath,
    DisplayMath,
    Html,
    InlineHtml,
    FootnoteReference,
    SoftBreak,
    HardBreak,
    Rule,
    TaskListMarker(bool),
}

/// What an optional string holds.
pub open spec fn option_view(s: Option<String>) -> Option<Seq<char>> {
    match s {
        Some(s) => Some(s@),
        None => None,
    }
}

impl View for CodeBlockKind {
    type V = CodeBlockKindView;

    open spec fn view(&self) -> CodeBlockKindView {
        match self {
            CodeBlockKind::Indented => CodeBlockKindView::Indented,
            CodeBlockKind::Fenced(lang) => CodeBlockKindView::Fenced(lang@),
        }
    }
}

impl View for HeadingMeta {
    type V = HeadingMetaView;

    open spec fn view(&self) -> HeadingMetaView {
        HeadingMetaView {
            id: option_view(self.id),
            classes: strings_view(self.classes@),
            attrs: self.attrs@.map_values(
                |attr: (String, Option<String>)| (attr.0@, option_view(attr.1)),
            ),
        }
    }
}

impl View for Tag {
    type V = TagView;

    open spec fn view(&self) -> TagView {
        match self {
            Tag::Paragraph => TagView::Paragraph,
            Tag::Heading(level, meta) => TagView::Heading(*level, meta@),
            Tag::BlockQuote => TagView::BlockQuote,
            Tag::CodeBlock(kind) => TagView::CodeBlock(kind@),
            Tag::HtmlBlock => TagView::HtmlBlock,
            Tag::List(start) => TagView::List(*start),
            Tag::Item => TagView::Item,
            Tag::FootnoteDefinition => TagView::FootnoteDefinition,
            Tag::DefinitionList => TagView::DefinitionList,
            Tag::DefinitionListTitle => TagView::DefinitionListTitle,
            Tag::DefinitionListDefinition => TagView::DefinitionListDefinition,
            Tag::Table(alignments) => TagView::Table(alignments@),
            Tag::TableHead => TagView::TableHead,
            Tag::TableRow => TagView::TableRow,
            Tag::TableCell => TagView::TableCell,
            Tag::Emphasis => TagView::Emphasis,
            Tag::Strong => TagView::Strong,
            Tag::Strikethrough => TagView::Strikethrough,
            Tag::Superscript => TagView::Superscript,
            Tag::Subscript => TagView::Subscript,
            Tag::Link(url) => TagView::Link(url@),
            Tag::Image => TagView::Image,
            Tag::MetadataBlock => TagView::MetadataBlock,
        }
    }
}

impl View for Event {
    type V = EventView;

    open spec fn view(&self) -> EventView {
        match self {
            Event::Start(tag) => EventView::Start(tag@),
            Event::End(tag) => EventView::End(*tag),
            Event::Text(text) => EventView::Text(text@),
            Event::Code(code) => EventView::Code(code@),
            Event::InlineMath => EventView::InlineMath,
            Event::DisplayMath => EventView::DisplayMath,
            Event::Html => EventView::Html,
            Event::InlineHtml => EventView::InlineHtml,
            Event::FootnoteReference => EventView::FootnoteReference,
            Event::SoftBreak => EventView::SoftBreak,
            Event::HardBreak => EventView::HardBreak,
            Event::Rule => EventView::Rule,
            Event::TaskListMarker(checked) => EventView::TaskListMarker(*checked),
        }
    }
}

/// What each of the events says.
pub open spec fn events_view(events: Seq<Event>) -> Seq<EventView> {
    events.map_values(|event: Event| event@)
}

/// The kind of an element.
pub open spec fn tag_end(tag: TagView) -> TagEnd {
    match tag {
        TagView::Paragraph => TagEnd::Paragraph,
        TagView::Heading(_, _) => TagEnd::Heading,
        TagView::BlockQuote => TagEnd::BlockQuote,
        TagView::CodeBlock(_) => TagEnd::CodeBlock,
        TagView::HtmlBlock => TagEnd::HtmlBlock,
        TagView::List(_) => TagEnd::List,
        TagView::Item => TagEnd::Item,
        TagView::FootnoteDefinition => TagEnd::FootnoteDefinition,
        TagView::DefinitionList => TagEnd::DefinitionList,
        TagView::DefinitionListTitle => TagEnd::DefinitionListTitle,
        TagView::DefinitionListDefinition => TagEnd::DefinitionListDefinition,
        TagView::Table(_) => TagEnd::Table,
        TagView::TableHead => TagEnd::TableHead,
        TagView::TableRow => TagEnd::TableRow,
        TagView::TableCell => TagEnd::TableCell,
        TagView::Emphasis => TagEnd::Emphasis,
        TagView::Strong => TagEnd::Strong,
        TagView::Strikethrough => TagEnd::Strikethrough,
        TagView::Superscript => TagEnd::Superscript,
        TagView::Subscript => TagEnd::Subscript,
        TagView::Link(_) => TagEnd::Link,
        TagView::Image => TagEnd::Image,
        TagView::MetadataBlock => TagEnd::MetadataBlock,
    }
}

} // verus!
