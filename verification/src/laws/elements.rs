//! What an element leaves behind once it has ended: blank lines that are due and the numbers of
//! items, and nothing else.

use vstd::prelude::*;

use crate::event::{tag_end, EventView, TagEnd, TagView};
use crate::highlight::CodeHighlightingView;
use crate::laws::blocks::{
    is_heading_event, is_link_event, law_blank_line_is_due_after_a_block, lemma_step_keeps_notes,
};
use crate::laws::frame::lemma_write_lines_frame;
use crate::laws::lists::lemma_item_events;
use crate::laws::nesting::{
    balanced, count_kinds, follows, inline_kinds, is_open, law_inline_styles_are_restored,
    law_line_styles_are_restored, law_settings_stay, lemma_step_follows, line_style_kinds,
    metadata_blocks_apart, next_open, open_elements, prefix_kinds,
};
use crate::model::WriterView;
use crate::strings::lines_of;
use crate::style_sheet::Palette;

verus! {

/// Whether a list has another number for its next item, if it has numbers, and not a smaller one.
pub open spec fn number_kept(before: Option<u64>, after: Option<u64>) -> bool {
    match before {
        Some(n) => after matches Some(m) && n <= m,
        None => after is None,
    }
}

/// Whether the lists are the same and the innermost one has perhaps gone on to a larger number.
pub open spec fn lists_kept(before: Seq<Option<u64>>, after: Seq<Option<u64>>) -> bool {
    &&& after.len() == before.len()
    &&& forall|i: int| 0 <= i < before.len() - 1 ==> #[trigger] after[i] == before[i]
    &&& before.len() > 0 ==> number_kept(before.last(), after.last())
}

/// Whether on top of the lists, of which the innermost one has perhaps gone on, there are `count`
/// more.
spec fn lists_kept_below(before: Seq<Option<u64>>, after: Seq<Option<u64>>, count: nat) -> bool {
    &&& after.len() == before.len() + count
    &&& lists_kept(before, after.take(before.len() as int))
}

/// Lists that are left as they are are kept.
proof fn lemma_lists_kept_reflexive(lists: Seq<Option<u64>>)
    ensures
        lists_kept(lists, lists),
{
}

/// How an event changes the lists that were there before.
proof fn lemma_step_lists_kept(
    base: Seq<Option<u64>>,
    writer: WriterView,
    open: Seq<TagEnd>,
    event: EventView,
)
    requires
        lists_kept_below(base, writer.list_indices, count_kinds(open, set![TagEnd::List])),
        next_open(open, event) is Some,
        writer.accepts(event),
    ensures
        lists_kept_below(
            base,
            writer.step(event).list_indices,
            count_kinds(next_open(open, event)->0, set![TagEnd::List]),
        ),
{
    let before = writer.list_indices;
    let after = writer.step(event).list_indices;
    let n = base.len() as int;
    if event == EventView::Start(TagView::Item) {
        lemma_item_events(writer, false);
        assert(open.push(TagEnd::Item).drop_last() =~= open);
        assert(forall|i: int| 0 <= i < before.len() - 1 ==> #[trigger] after[i] == before[i]);
        assert(forall|i: int|
            0 <= i < n - 1 ==> #[trigger] after.take(n)[i] == before.take(n)[i]);
        if n > 0 {
            assert(before.take(n).last() == before[n - 1]);
            assert(after.take(n).last() == after[n - 1]);
        }
    } else {
        lemma_step_follows(writer, event);
        match event {
            EventView::Start(tag) => {
                assert(open.push(tag_end(tag)).drop_last() =~= open);
                assert(tag_end(tag) == TagEnd::List <==> tag is List);
                if tag is List {
                    assert(after.take(n) =~= after.drop_last().take(n));
                }
            },
            EventView::End(kind) => {
                if kind is List {
                    assert(after.take(n) =~= before.take(n));
                }
            },
            _ => {},
        }
    }
}

/// Events keep the lists that were there before.
proof fn lemma_run_lists_kept(writer: WriterView, events: Seq<EventView>)
    requires
        open_elements(events) is Some,
        writer.accepts_all(events),
    ensures
        lists_kept_below(
            writer.list_indices,
            writer.run(events).list_indices,
            count_kinds(open_elements(events)->0, set![TagEnd::List]),
        ),
    decreases events.len(),
{
    let base = writer.list_indices;
    if events.len() > 0 {
        lemma_run_lists_kept(writer, events.drop_last());
        lemma_step_lists_kept(
            base,
            writer.run(events.drop_last()),
            open_elements(events.drop_last())->0,
            events.last(),
        );
    } else {
        assert(base.take(base.len() as int) =~= base);
        lemma_lists_kept_reflexive(base);
    }
}

/// Once all elements that were started have ended, the lists around them are the same, but for the
/// number on top: items among the events raise the number of the list that they are in.
pub proof fn law_items_change_the_number_on_top_alone(writer: WriterView, events: Seq<EventView>)
    requires
        balanced(events),
        writer.accepts_all(events),
    ensures
        lists_kept(writer.list_indices, writer.run(events).list_indices),
{
    lemma_run_lists_kept(writer, events);
    let after = writer.run(events).list_indices;
    assert(after.take(writer.list_indices.len() as int) =~= after);
}

/// An element leaves no style and no prefix behind: once it has ended, with whatever whole elements
/// stood in it, the styles of text and of lines and the prefixes are as before, and so are the
/// lists, but for the number on top. Metadata blocks within others are left out for the styles of
/// lines.
pub proof fn law_element_leaves_the_stacks_as_before(
    writer: WriterView,
    tag: TagView,
    inside: Seq<EventView>,
)
    requires
        balanced(inside),
        metadata_blocks_apart(inside),
        !(tag is MetadataBlock),
        writer.accepts(EventView::Start(tag)),
        writer.step(EventView::Start(tag)).accepts_all(inside),
    ensures
        ({
            let after = writer.step(EventView::Start(tag)).run(inside).step(
                EventView::End(tag_end(tag)),
            );
            &&& after.inline_styles == writer.inline_styles
            &&& after.line_prefixes == writer.line_prefixes
            &&& after.line_styles == writer.line_styles
            &&& lists_kept(writer.list_indices, after.list_indices)
            &&& tag is List ==> after.list_indices == writer.list_indices
            &&& tag is List || tag is BlockQuote || tag is CodeBlock ==> after.needs_newline
        }),
{
    let start = EventView::Start(tag);
    let end = EventView::End(tag_end(tag));
    let started = writer.step(start);
    let read = started.run(inside);
    let after = read.step(end);
    lemma_step_follows(writer, start);
    lemma_step_follows(read, end);
    law_settings_stay(started, inside);
    law_inline_styles_are_restored(started, inside);
    law_line_styles_are_restored(started, inside);
    law_items_change_the_number_on_top_alone(started, inside);
    lemma_tag_end_metadata(tag);
    lemma_follows_there_and_back(
        writer.inline_styles,
        started.inline_styles,
        after.inline_styles,
        tag,
        inline_kinds(),
    );
    lemma_follows_there_and_back(
        writer.line_prefixes,
        started.line_prefixes,
        after.line_prefixes,
        tag,
        prefix_kinds(),
    );
    lemma_follows_there_and_back(
        writer.line_styles,
        started.line_styles,
        after.line_styles,
        tag,
        line_style_kinds(writer.highlighting is Some),
    );
    let before = writer.list_indices;
    if tag is List {
        assert(started.list_indices.drop_last() == before);
        assert forall|i: int| 0 <= i < before.len() implies #[trigger] after.list_indices[i]
            == before[i] by {
            assert(read.list_indices[i] == started.list_indices[i]);
            assert(started.list_indices[i] == started.list_indices.drop_last()[i]);
        }
        assert(after.list_indices =~= before);
    } else if tag is Item {
        lemma_item_events(writer, false);
    }
    if tag is List || tag is BlockQuote || tag is CodeBlock {
        law_blank_line_is_due_after_a_block(read, end);
    }
}

/// The kinds of a metadata block and of a list are theirs alone.
proof fn lemma_tag_end_metadata(tag: TagView)
    ensures
        tag_end(tag) == TagEnd::MetadataBlock <==> tag is MetadataBlock,
        tag_end(tag) == TagEnd::List <==> tag is List,
{
}

/// A stack that follows an element is as before once the element has ended.
proof fn lemma_follows_there_and_back<A>(
    before: Seq<A>,
    between: Seq<A>,
    after: Seq<A>,
    tag: TagView,
    kinds: Set<TagEnd>,
)
    requires
        follows(before, between, EventView::Start(tag), kinds),
        follows(between, after, EventView::End(tag_end(tag)), kinds),
    ensures
        after == before,
{
}

/// The start of an element does not start a table or to highlight code, unless the element is a
/// table or a code block.
proof fn lemma_start_tag_works(writer: WriterView, tag: TagView)
    ensures
        !(tag is Table) ==> (writer.start_tag(tag).table is Some ==> writer.table is Some),
        !(tag is CodeBlock) || writer.highlighting is None ==> writer.start_tag(
            tag,
        ).code_highlighter == writer.code_highlighter,
{
    match tag {
        TagView::Paragraph => {},
        TagView::Heading(level, meta) => {},
        TagView::BlockQuote => {},
        TagView::CodeBlock(kind) => {},
        TagView::HtmlBlock => {},
        TagView::List(index) => {},
        TagView::Item => {},
        TagView::FootnoteDefinition => {},
        TagView::DefinitionList => {},
        TagView::DefinitionListTitle => {},
        TagView::DefinitionListDefinition => {},
        TagView::Table(alignments) => {},
        TagView::TableHead => {},
        TagView::TableRow => {},
        TagView::TableCell => {},
        TagView::Emphasis => {},
        TagView::Strong => {},
        TagView::Strikethrough => {},
        TagView::Superscript => {},
        TagView::Subscript => {},
        TagView::Link(url) => {},
        TagView::Image => {},
        TagView::MetadataBlock => {},
    }
}

/// The end of an element starts neither a table nor to highlight code, and ends what it is the end
/// of.
proof fn lemma_end_tag_works(writer: WriterView, kind: TagEnd)
    ensures
        writer.end_tag(kind).table is Some ==> writer.table is Some && !(kind is Table),
        writer.end_tag(kind).code_highlighter is Some ==> writer.code_highlighter is Some && (
        kind is CodeBlock ==> writer.highlighting is None),
        kind is Link ==> writer.end_tag(kind).link is None,
        kind is Heading ==> writer.end_tag(kind).heading_meta is None,
{
    match kind {
        TagEnd::Paragraph => {},
        TagEnd::Heading => {},
        TagEnd::BlockQuote => {},
        TagEnd::CodeBlock => {},
        TagEnd::HtmlBlock => {},
        TagEnd::List => {},
        TagEnd::Item => {},
        TagEnd::FootnoteDefinition => {},
        TagEnd::DefinitionList => {},
        TagEnd::DefinitionListTitle => {},
        TagEnd::DefinitionListDefinition => {},
        TagEnd::Table => {},
        TagEnd::TableHead => {},
        TagEnd::TableRow => {},
        TagEnd::TableCell => {},
        TagEnd::Emphasis => {},
        TagEnd::Strong => {},
        TagEnd::Strikethrough => {},
        TagEnd::Superscript => {},
        TagEnd::Subscript => {},
        TagEnd::Link => {},
        TagEnd::Image => {},
        TagEnd::MetadataBlock => {},
    }
}

/// An event that neither starts nor ends an element starts neither a table nor to highlight code.
proof fn lemma_leaf_works(writer: WriterView, event: EventView)
    requires
        !(event is Start),
        !(event is End),
    ensures
        writer.step(event).table is Some ==> writer.table is Some,
        writer.step(event).code_highlighter is Some ==> writer.code_highlighter is Some,
{
    reveal(WriterView::step);
    match event {
        EventView::Start(tag) => {},
        EventView::End(kind) => {},
        EventView::Text(text) => {
            lemma_write_lines_frame(writer, lines_of(text));
        },
        EventView::Code(code) => {},
        EventView::InlineMath => {},
        EventView::DisplayMath => {},
        EventView::Html => {},
        EventView::InlineHtml => {},
        EventView::FootnoteReference => {},
        EventView::SoftBreak => {},
        EventView::HardBreak => {},
        EventView::Rule => {},
        EventView::TaskListMarker(checked) => {},
    }
}

/// Whether what is kept for an element belongs to one that is open.
spec fn kept_for_open(writer: WriterView, open: Option<Seq<TagEnd>>) -> bool {
    &&& writer.link is Some ==> is_open(open, TagEnd::Link)
    &&& writer.heading_meta is Some ==> is_open(open, TagEnd::Heading)
    &&& writer.table is Some ==> is_open(open, TagEnd::Table)
    &&& writer.code_highlighter is Some ==> writer.highlighting is Some && is_open(
        open,
        TagEnd::CodeBlock,
    )
}

/// How an event changes whether an element of a kind is open.
proof fn lemma_is_open_step(open: Seq<TagEnd>, event: EventView, kind: TagEnd)
    requires
        next_open(open, event) is Some,
    ensures
        match event {
            EventView::Start(tag) => is_open(next_open(open, event), kind) == (is_open(
                Some(open),
                kind,
            ) || tag_end(tag) == kind),
            EventView::End(ended) => ended != kind ==> is_open(next_open(open, event), kind)
                == is_open(Some(open), kind),
            _ => is_open(next_open(open, event), kind) == is_open(Some(open), kind),
        },
{
    if let EventView::Start(tag) = event {
        assert(open.push(tag_end(tag)).drop_last() =~= open);
    }
}

/// The kinds of the elements for which something is kept are theirs alone.
proof fn lemma_tag_end_kept(tag: TagView)
    ensures
        tag_end(tag) == TagEnd::Link <==> tag is Link,
        tag_end(tag) == TagEnd::Heading <==> tag is Heading,
        tag_end(tag) == TagEnd::Table <==> tag is Table,
        tag_end(tag) == TagEnd::CodeBlock <==> tag is CodeBlock,
{
}

/// What is kept for an element is kept no longer than the element is open.
proof fn lemma_step_kept_for_open(writer: WriterView, open: Seq<TagEnd>, event: EventView)
    requires
        kept_for_open(writer, Some(open)),
        next_open(open, event) is Some,
    ensures
        kept_for_open(writer.step(event), next_open(open, event)),
{
    lemma_is_open_step(open, event, TagEnd::Link);
    lemma_is_open_step(open, event, TagEnd::Heading);
    lemma_is_open_step(open, event, TagEnd::Table);
    lemma_is_open_step(open, event, TagEnd::CodeBlock);
    lemma_step_keeps_notes(writer, event);
    lemma_step_follows(writer, event);
    match event {
        EventView::Start(tag) => {
            assert(writer.step(event) == writer.start_tag(tag)) by {
                reveal(WriterView::step);
            }
            lemma_tag_end_kept(tag);
            lemma_start_tag_works(writer, tag);
            assert(is_link_event(event) == (tag is Link));
            assert(is_heading_event(event) == (tag is Heading));
        },
        EventView::End(kind) => {
            assert(writer.step(event) == writer.end_tag(kind)) by {
                reveal(WriterView::step);
            }
            lemma_end_tag_works(writer, kind);
        },
        _ => {
            lemma_leaf_works(writer, event);
        },
    }
}

/// What is kept for an element is kept no longer than the element is open.
proof fn lemma_run_kept_for_open(writer: WriterView, events: Seq<EventView>)
    requires
        kept_for_open(writer, Some(Seq::empty())),
        open_elements(events) is Some,
    ensures
        kept_for_open(writer.run(events), open_elements(events)),
    decreases events.len(),
{
    if events.len() > 0 {
        lemma_run_kept_for_open(writer, events.drop_last());
        lemma_step_kept_for_open(
            writer.run(events.drop_last()),
            open_elements(events.drop_last())->0,
            events.last(),
        );
    }
}

/// Once all elements of a document have ended, nothing is kept for any of them: no address of a
/// link, no attributes of a heading, no table and no highlighter.
pub proof fn law_nothing_is_left_over(
    palette: Palette,
    highlighting: Option<CodeHighlightingView>,
    events: Seq<EventView>,
)
    requires
        balanced(events),
    ensures
        ({
            let writer = WriterView::empty(palette, highlighting).run(events);
            &&& writer.link is None
            &&& writer.heading_meta is None
            &&& writer.table is None
            &&& writer.code_highlighter is None
        }),
{
    lemma_run_kept_for_open(WriterView::empty(palette, highlighting), events);
    assert(open_elements(events)->0.len() == 0);
}

} // verus!
