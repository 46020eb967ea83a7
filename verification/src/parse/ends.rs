//! Reading which element ends.

use pulldown_cmark::{Event as ParserEvent, TagEnd as ParserTagEnd};
use vstd::prelude::*;

use crate::event::EventView;
use crate::event::TagEnd;
use crate::event::TagEnd::{
    BlockQuote, CodeBlock, DefinitionList, DefinitionListDefinition, DefinitionListTitle, Emphasis,
    FootnoteDefinition, Heading, HtmlBlock, Image, Item, Link, List, MetadataBlock, Paragraph,
    Strikethrough, Strong, Subscript, Superscript, Table, TableCell, TableHead, TableRow,
};
use crate::parse::events_held;

verus! {

/// Reads the variant of [`pulldown_cmark::Event::End`].
///
/// Claims to tell which element ends, and to return nothing for any other event.
#[verifier::external_body]
pub(crate) fn end_at(events: &Vec<ParserEvent<'_>>, index: usize) -> (end: Option<TagEnd>)
    requires
        index < events@.len(),
    ensures
        match events_held(events@)[index as int] {
            EventView::End(tag) => end == Some(tag),
            _ => end is None,
        },
{
    let ParserEvent::End(tag) = &events[index] else { return None };
    Some(match tag {
        ParserTagEnd::Paragraph => Paragraph, ParserTagEnd::Heading(_) => Heading,
        ParserTagEnd::BlockQuote(_) => BlockQuote, ParserTagEnd::CodeBlock => CodeBlock,
        ParserTagEnd::HtmlBlock => HtmlBlock, ParserTagEnd::List(_) => List,
        ParserTagEnd::Item => Item, ParserTagEnd::FootnoteDefinition => FootnoteDefinition,
        ParserTagEnd::DefinitionList => DefinitionList, ParserTagEnd::Table => Table,
        ParserTagEnd::DefinitionListTitle => DefinitionListTitle, ParserTagEnd::Link => Link,
        ParserTagEnd::DefinitionListDefinition => DefinitionListDefinition,
        ParserTagEnd::TableHead => TableHead, ParserTagEnd::TableRow => TableRow,
        ParserTagEnd::TableCell => TableCell, ParserTagEnd::Emphasis => Emphasis,
        ParserTagEnd::Strong => Strong, ParserTagEnd::Strikethrough => Strikethrough,
        ParserTagEnd::Superscript => Superscript, ParserTagEnd::Subscript => Subscript,
        ParserTagEnd::Image => Image, ParserTagEnd::MetadataBlock(_) => MetadataBlock,
    })
}

} // verus!
