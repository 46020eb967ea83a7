//! Elements nest: what an element changes for what stands in it is as before once it has ended.

use vstd::prelude::*;

use crate::event::{tag_end, EventView, TagEnd, TagView};
use crate::highlight::CodeHighlightingView;
use crate::laws::frame::lemma_write_lines_frame;
use crate::model::{popped, WriterView};
use crate::strings::lines_of;
use crate::style_sheet::Palette;
use crate::text::{raw_span, SpanView};

verus! {

/// The elements that are open after one more event, if it ends none but the innermost of them.
pub open spec fn next_open(open: Seq<TagEnd>, event: EventView) -> Option<Seq<TagEnd>> {
    match event {
        EventView::Start(tag) => Some(open.push(tag_end(tag))),
        EventView::End(kind) => if open.len() > 0 && open.last() == kind {
            Some(open.drop_last())
        } else {
            None
        },
        _ => Some(open),
    }
}

/// The elements that the events leave open, the innermost one last. There is no answer where an
/// event ends an element that is not the innermost one of those that the events before it started.
pub open spec fn open_elements(events: Seq<EventView>) -> Option<Seq<TagEnd>>
    decreases events.len(),
{
    if events.len() == 0 {
        Some(Seq::empty())
    } else {
        match open_elements(events.drop_last()) {
            Some(open) => next_open(open, events.last()),
            None => None,
        }
    }
}

/// Whether the events end each element that they start, and no other, the innermost one first.
pub open spec fn balanced(events: Seq<EventView>) -> bool {
    open_elements(events) == Some(Seq::<TagEnd>::empty())
}

/// The number of elements of the given kinds.
pub open spec fn count_kinds(open: Seq<TagEnd>, kinds: Set<TagEnd>) -> nat
    decreases open.len(),
{
    if open.len() == 0 {
        0
    } else {
        count_kinds(open.drop_last(), kinds) + if kinds.contains(open.last()) {
            1nat
        } else {
            0nat
        }
    }
}

/// Whether an element of the given kind is open.
pub open spec fn is_open(open: Option<Seq<TagEnd>>, kind: TagEnd) -> bool {
    open matches Some(open) && count_kinds(open, set![kind]) > 0
}

/// Whether no metadata block starts in another one.
pub open spec fn metadata_blocks_apart(events: Seq<EventView>) -> bool {
    forall|i: int|
        0 <= i < events.len() && #[trigger] events[i] == EventView::Start(TagView::MetadataBlock)
            ==> !is_open(open_elements(events.take(i)), TagEnd::MetadataBlock)
}

/// Whether each item is in a list that the events start.
pub open spec fn items_in_lists(events: Seq<EventView>) -> bool {
    forall|i: int|
        0 <= i < events.len() && #[trigger] events[i] == EventView::Start(TagView::Item)
            ==> is_open(open_elements(events.take(i)), TagEnd::List)
}

/// The elements that set a style for the text in them.
pub open spec fn inline_kinds() -> Set<TagEnd> {
    set![
        TagEnd::Emphasis,
        TagEnd::Strong,
        TagEnd::Strikethrough,
        TagEnd::Superscript,
        TagEnd::Subscript,
    ]
}

/// The elements that set a prefix for the lines in them.
pub open spec fn prefix_kinds() -> Set<TagEnd> {
    set![TagEnd::BlockQuote]
}

/// The elements that set a style for the lines in them.
pub open spec fn line_style_kinds(highlighted: bool) -> Set<TagEnd> {
    if highlighted {
        set![TagEnd::BlockQuote, TagEnd::MetadataBlock]
    } else {
        set![TagEnd::BlockQuote, TagEnd::MetadataBlock, TagEnd::CodeBlock]
    }
}

/// Whether a stack changes as the elements of the given kinds start and end.
pub open spec fn follows<A>(
    before: Seq<A>,
    after: Seq<A>,
    event: EventView,
    kinds: Set<TagEnd>,
) -> bool {
    match event {
        EventView::Start(tag) => if kinds.contains(tag_end(tag)) {
            after.len() == before.len() + 1 && after.drop_last() == before
        } else {
            after == before
        },
        EventView::End(kind) => if kinds.contains(kind) {
            after == popped(before)
        } else {
            after == before
        },
        _ => after == before,
    }
}

/// Whether a stack holds `base` and `count` more elements on top of it.
spec fn stands_on<A>(base: Seq<A>, stack: Seq<A>, count: nat) -> bool {
    stack.len() == base.len() + count && stack.take(base.len() as int) == base
}

/// A stack that follows the elements has as many elements more as there are elements open.
proof fn lemma_follows_stands_on<A>(
    base: Seq<A>,
    before: Seq<A>,
    after: Seq<A>,
    open: Seq<TagEnd>,
    event: EventView,
    kinds: Set<TagEnd>,
)
    requires
        stands_on(base, before, count_kinds(open, kinds)),
        follows(before, after, event, kinds),
        next_open(open, event) is Some,
    ensures
        stands_on(base, after, count_kinds(next_open(open, event)->0, kinds)),
{
    match event {
        EventView::Start(tag) => {
            assert(open.push(tag_end(tag)).drop_last() =~= open);
            if kinds.contains(tag_end(tag)) {
                assert(after.take(base.len() as int) =~= after.drop_last().take(base.len() as int));
            }
        },
        EventView::End(kind) => {
            if kinds.contains(kind) {
                assert(before.drop_last().take(base.len() as int) =~= before.take(
                    base.len() as int,
                ));
            }
        },
        _ => {},
    }
}

/// A stack that has no more elements than its base is its base.
proof fn lemma_stands_on_nothing<A>(base: Seq<A>, stack: Seq<A>)
    requires
        stands_on(base, stack, 0),
    ensures
        stack == base,
{
    assert(stack.take(base.len() as int) =~= stack);
}

/// How the start of an element changes the stacks.
proof fn lemma_start_tag_follows(writer: WriterView, tag: TagView)
    ensures
        ({
            let after = writer.start_tag(tag);
            let event = EventView::Start(tag);
            let highlighted = writer.highlighting is Some;
            &&& after.palette == writer.palette
            &&& after.highlighting == writer.highlighting
            &&& follows(writer.inline_styles, after.inline_styles, event, inline_kinds())
            &&& follows(writer.line_prefixes, after.line_prefixes, event, prefix_kinds())
            &&& follows(
                writer.line_styles,
                after.line_styles,
                event,
                line_style_kinds(highlighted),
            )
            &&& !(tag is Item) ==> follows(
                writer.list_indices,
                after.list_indices,
                event,
                set![TagEnd::List],
            )
            &&& after.in_metadata_block == (writer.in_metadata_block || tag is MetadataBlock)
        }),
{
    let after = writer.start_tag(tag);
    match tag {
        TagView::Paragraph => {},
        TagView::Heading(level, meta) => {},
        TagView::BlockQuote => {
            assert(after.line_prefixes.drop_last() =~= writer.line_prefixes);
            assert(after.line_styles.drop_last() =~= writer.line_styles);
        },
        TagView::CodeBlock(kind) => {
            if writer.highlighting is None {
                assert(after.line_styles.drop_last() =~= writer.line_styles);
            }
        },
        TagView::HtmlBlock => {},
        TagView::List(index) => {
            assert(after.list_indices.drop_last() =~= writer.list_indices);
        },
        TagView::Item => {},
        TagView::FootnoteDefinition => {},
        TagView::DefinitionList => {},
        TagView::DefinitionListTitle => {},
        TagView::DefinitionListDefinition => {},
        TagView::Table(alignments) => {},
        TagView::TableHead => {},
        TagView::TableRow => {},
        TagView::TableCell => {},
        TagView::Emphasis => {
            assert(after.inline_styles.drop_last() =~= writer.inline_styles);
        },
        TagView::Strong => {
            assert(after.inline_styles.drop_last() =~= writer.inline_styles);
        },
        TagView::Strikethrough => {
            assert(after.inline_styles.drop_last() =~= writer.inline_styles);
        },
        TagView::Superscript => {
            assert(after.inline_styles.drop_last() =~= writer.inline_styles);
        },
        TagView::Subscript => {
            assert(after.inline_styles.drop_last() =~= writer.inline_styles);
        },
        TagView::Link(url) => {},
        TagView::Image => {},
        TagView::MetadataBlock => {
            assert(after.line_styles.drop_last() =~= writer.line_styles);
        },
    }
}

/// How the end of an element changes the stacks.
proof fn lemma_end_tag_follows(writer: WriterView, kind: TagEnd)
    ensures
        ({
            let after = writer.end_tag(kind);
            let event = EventView::End(kind);
            let highlighted = writer.highlighting is Some;
            &&& after.palette == writer.palette
            &&& after.highlighting == writer.highlighting
            &&& follows(writer.inline_styles, after.inline_styles, event, inline_kinds())
            &&& follows(writer.line_prefixes, after.line_prefixes, event, prefix_kinds())
            &&& (kind is MetadataBlock ==> writer.in_metadata_block) ==> follows(
                writer.line_styles,
                after.line_styles,
                event,
                line_style_kinds(highlighted),
            )
            &&& follows(writer.list_indices, after.list_indices, event, set![TagEnd::List])
            &&& after.in_metadata_block == (writer.in_metadata_block && !(kind is MetadataBlock))
        }),
{
    match kind {
        TagEnd::Paragraph => {},
        TagEnd::Heading => {},
        TagEnd::BlockQuote => {},
        TagEnd::CodeBlock => {},
        TagEnd::HtmlBlock => {},
        TagEnd::List => {},
        TagEnd::Item => {},
        TagEnd::FootnoteDefinition => {},
        TagEnd::DefinitionList => {},
        TagEnd::DefinitionListTitle => {},
        TagEnd::DefinitionListDefinition => {},
        TagEnd::Table => {},
        TagEnd::TableHead => {},
        TagEnd::TableRow => {},
        TagEnd::TableCell => {},
        TagEnd::Emphasis => {},
        TagEnd::Strong => {},
        TagEnd::Strikethrough => {},
        TagEnd::Superscript => {},
        TagEnd::Subscript => {},
        TagEnd::Link => {},
        TagEnd::Image => {},
        TagEnd::MetadataBlock => {},
    }
}

/// An event that neither starts nor ends an element leaves the stacks as they are.
proof fn lemma_leaf_keeps_stacks(writer: WriterView, event: EventView)
    requires
        !(event is Start),
        !(event is End),
    ensures
        writer.step(event).palette == writer.palette,
        writer.step(event).highlighting == writer.highlighting,
        writer.step(event).inline_styles == writer.inline_styles,
        writer.step(event).line_prefixes == writer.line_prefixes,
        writer.step(event).line_styles == writer.line_styles,
        writer.step(event).list_indices == writer.list_indices,
        writer.step(event).in_metadata_block == writer.in_metadata_block,
{
    reveal(WriterView::step);
    match event {
        EventView::Start(tag) => {},
        EventView::End(tag) => {},
        EventView::Text(text) => {
            lemma_write_lines_frame(writer, lines_of(text));
        },
        EventView::Code(code) => {},
        EventView::InlineMath => {},
        EventView::DisplayMath => {},
        EventView::Html => {},
        EventView::InlineHtml => {},
        EventView::FootnoteReference => {},
        EventView::SoftBreak => {},
        EventView::HardBreak => {},
        EventView::Rule => {},
        EventView::TaskListMarker(checked) => {},
    }
}

/// How an event changes the stacks.
pub proof fn lemma_step_follows(writer: WriterView, event: EventView)
    ensures
        ({
            let after = writer.step(event);
            let highlighted = writer.highlighting is Some;
            &&& after.palette == writer.palette
            &&& after.highlighting == writer.highlighting
            &&& follows(writer.inline_styles, after.inline_styles, event, inline_kinds())
            &&& follows(writer.line_prefixes, after.line_prefixes, event, prefix_kinds())
            &&& (event == EventView::End(TagEnd::MetadataBlock) ==> writer.in_metadata_block)
                ==> follows(
                writer.line_styles,
                after.line_styles,
                event,
                line_style_kinds(highlighted),
            )
            &&& event != EventView::Start(TagView::Item) ==> follows(
                writer.list_indices,
                after.list_indices,
                event,
                set![TagEnd::List],
            )
            &&& after.in_metadata_block == match event {
                EventView::Start(TagView::MetadataBlock) => true,
                EventView::End(TagEnd::MetadataBlock) => false,
                _ => writer.in_metadata_block,
            }
        }),
{
    reveal(WriterView::step);
    match event {
        EventView::Start(tag) => {
            lemma_start_tag_follows(writer, tag);
        },
        EventView::End(kind) => {
            lemma_end_tag_follows(writer, kind);
        },
        _ => {
            lemma_leaf_keeps_stacks(writer, event);
        },
    }
}

/// The events but the last one have what the events have.
pub proof fn lemma_drop_last_apart(events: Seq<EventView>)
    requires
        events.len() > 0,
    ensures
        metadata_blocks_apart(events) ==> metadata_blocks_apart(events.drop_last()),
        items_in_lists(events) ==> items_in_lists(events.drop_last()),
        events.drop_last() == events.take(events.len() - 1),
{
    assert forall|i: int| 0 <= i < events.len() - 1 implies events.drop_last().take(i)
        == #[trigger] events.take(i) && events.drop_last()[i] == events[i] by {
        assert(events.drop_last().take(i) =~= events.take(i));
    }
    assert(events.drop_last() =~= events.take(events.len() - 1));
    if metadata_blocks_apart(events) {
        assert forall|i: int|
            0 <= i < events.len() - 1 && #[trigger] events.drop_last()[i] == EventView::Start(
                TagView::MetadataBlock,
            ) implies !is_open(
            open_elements(events.drop_last().take(i)),
            TagEnd::MetadataBlock,
        ) by {
            assert(events[i] == events.drop_last()[i]);
            assert(events.drop_last().take(i) == events.take(i));
        }
    }
    if items_in_lists(events) {
        assert forall|i: int|
            0 <= i < events.len() - 1 && #[trigger] events.drop_last()[i] == EventView::Start(
                TagView::Item,
            ) implies is_open(open_elements(events.drop_last().take(i)), TagEnd::List) by {
            assert(events[i] == events.drop_last()[i]);
            assert(events.drop_last().take(i) == events.take(i));
        }
    }
}

/// The styles of text and the prefixes of lines follow the elements that are open.
proof fn lemma_run_stands_on(writer: WriterView, events: Seq<EventView>)
    requires
        open_elements(events) is Some,
    ensures
        ({
            let after = writer.run(events);
            let open = open_elements(events)->0;
            &&& after.palette == writer.palette
            &&& after.highlighting == writer.highlighting
            &&& stands_on(
                writer.inline_styles,
                after.inline_styles,
                count_kinds(open, inline_kinds()),
            )
            &&& stands_on(
                writer.line_prefixes,
                after.line_prefixes,
                count_kinds(open, prefix_kinds()),
            )
        }),
    decreases events.len(),
{
    if events.len() > 0 {
        let before = writer.run(events.drop_last());
        let open = open_elements(events.drop_last())->0;
        lemma_run_stands_on(writer, events.drop_last());
        lemma_step_follows(before, events.last());
        lemma_follows_stands_on(
            writer.inline_styles,
            before.inline_styles,
            writer.run(events).inline_styles,
            open,
            events.last(),
            inline_kinds(),
        );
        lemma_follows_stands_on(
            writer.line_prefixes,
            before.line_prefixes,
            writer.run(events).line_prefixes,
            open,
            events.last(),
            prefix_kinds(),
        );
    } else {
        assert(writer.inline_styles.take(writer.inline_styles.len() as int)
            =~= writer.inline_styles);
        assert(writer.line_prefixes.take(writer.line_prefixes.len() as int)
            =~= writer.line_prefixes);
    }
}

/// How an event changes the number of open metadata blocks.
proof fn lemma_metadata_count(open: Seq<TagEnd>, event: EventView)
    requires
        next_open(open, event) is Some,
    ensures
        ({
            let before = count_kinds(open, set![TagEnd::MetadataBlock]);
            let after = count_kinds(next_open(open, event)->0, set![TagEnd::MetadataBlock]);
            match event {
                EventView::Start(TagView::MetadataBlock) => after == before + 1,
                EventView::End(TagEnd::MetadataBlock) => after == before - 1,
                _ => after == before,
            }
        }),
{
    match event {
        EventView::Start(tag) => {
            assert(open.push(tag_end(tag)).drop_last() =~= open);
            assert(tag_end(tag) == TagEnd::MetadataBlock <==> tag is MetadataBlock);
        },
        EventView::End(kind) => {},
        _ => {},
    }
}

/// The styles of lines follow the elements that are open.
proof fn lemma_run_line_styles(writer: WriterView, events: Seq<EventView>)
    requires
        open_elements(events) is Some,
        metadata_blocks_apart(events),
    ensures
        ({
            let after = writer.run(events);
            let open = open_elements(events)->0;
            let blocks = count_kinds(open, set![TagEnd::MetadataBlock]);
            &&& after.highlighting == writer.highlighting
            &&& blocks > 0 ==> after.in_metadata_block
            &&& blocks == 0 && after.in_metadata_block ==> writer.in_metadata_block
            &&& blocks <= 1
            &&& stands_on(
                writer.line_styles,
                after.line_styles,
                count_kinds(open, line_style_kinds(writer.highlighting is Some)),
            )
        }),
    decreases events.len(),
{
    if events.len() > 0 {
        let before = writer.run(events.drop_last());
        let open = open_elements(events.drop_last())->0;
        lemma_drop_last_apart(events);
        lemma_run_line_styles(writer, events.drop_last());
        lemma_step_follows(before, events.last());
        lemma_metadata_count(open, events.last());
        assert(events[events.len() - 1] == events.last());
        lemma_follows_stands_on(
            writer.line_styles,
            before.line_styles,
            writer.run(events).line_styles,
            open,
            events.last(),
            line_style_kinds(writer.highlighting is Some),
        );
    } else {
        assert(writer.line_styles.take(writer.line_styles.len() as int) =~= writer.line_styles);
    }
}

/// The numbers of list items follow the lists that are open.
proof fn lemma_run_lists(writer: WriterView, events: Seq<EventView>)
    requires
        open_elements(events) is Some,
        items_in_lists(events),
    ensures
        stands_on(
            writer.list_indices,
            writer.run(events).list_indices,
            count_kinds(open_elements(events)->0, set![TagEnd::List]),
        ),
    decreases events.len(),
{
    let base = writer.list_indices;
    if events.len() > 0 {
        let before = writer.run(events.drop_last());
        let after = writer.run(events);
        let open = open_elements(events.drop_last())->0;
        lemma_drop_last_apart(events);
        lemma_run_lists(writer, events.drop_last());
        if events.last() == EventView::Start(TagView::Item) {
            reveal(WriterView::step);
            assert(events[events.len() - 1] == events.last());
            assert(open.push(TagEnd::Item).drop_last() =~= open);
            assert(after.list_indices.drop_last() =~= before.list_indices.drop_last());
            assert(after.list_indices.take(base.len() as int) =~= before.list_indices.take(
                base.len() as int,
            ));
        } else {
            lemma_step_follows(before, events.last());
            lemma_follows_stands_on(
                base,
                before.list_indices,
                after.list_indices,
                open,
                events.last(),
                set![TagEnd::List],
            );
        }
    } else {
        assert(base.take(base.len() as int) =~= base);
    }
}

/// There are as many lists being written as are open.
pub proof fn lemma_run_list_count(writer: WriterView, events: Seq<EventView>)
    requires
        open_elements(events) is Some,
        items_in_lists(events),
    ensures
        writer.run(events).list_indices.len() == writer.list_indices.len() + count_kinds(
            open_elements(events)->0,
            set![TagEnd::List],
        ),
{
    lemma_run_lists(writer, events);
}

/// Once all elements that were started have ended, text is written in the style of before and
/// lines start with the prefixes of before.
pub proof fn law_inline_styles_are_restored(writer: WriterView, events: Seq<EventView>)
    requires
        balanced(events),
    ensures
        writer.run(events).inline_styles == writer.inline_styles,
        writer.run(events).line_prefixes == writer.line_prefixes,
{
    lemma_run_stands_on(writer, events);
    lemma_stands_on_nothing(writer.inline_styles, writer.run(events).inline_styles);
    lemma_stands_on_nothing(writer.line_prefixes, writer.run(events).line_prefixes);
}

/// Once all elements that were started have ended, lines are written in the style of before, also
/// where this happens in a metadata block, and no metadata block is left over. Of the events that
/// come, a metadata block within another one is left out: the first of the two ends ends both.
pub proof fn law_line_styles_are_restored(writer: WriterView, events: Seq<EventView>)
    requires
        balanced(events),
        metadata_blocks_apart(events),
    ensures
        writer.run(events).line_styles == writer.line_styles,
        writer.run(events).in_metadata_block ==> writer.in_metadata_block,
{
    lemma_run_line_styles(writer, events);
    lemma_stands_on_nothing(writer.line_styles, writer.run(events).line_styles);
}

/// Once all elements that were started have ended, the lists around them go on as if nothing had
/// been between their items.
pub proof fn law_lists_are_restored(writer: WriterView, events: Seq<EventView>)
    requires
        balanced(events),
        items_in_lists(events),
    ensures
        writer.run(events).list_indices == writer.list_indices,
{
    lemma_run_lists(writer, events);
    lemma_stands_on_nothing(writer.list_indices, writer.run(events).list_indices);
}

/// Whether an event starts or ends a metadata block.
pub open spec fn is_metadata_event(event: EventView) -> bool {
    match event {
        EventView::Start(TagView::MetadataBlock) => true,
        EventView::End(TagEnd::MetadataBlock) => true,
        _ => false,
    }
}

/// A metadata block goes on as long as no other one starts and it does not end.
pub proof fn law_metadata_block_goes_on(writer: WriterView, events: Seq<EventView>)
    requires
        forall|i: int| 0 <= i < events.len() ==> !is_metadata_event(#[trigger] events[i]),
    ensures
        writer.run(events).in_metadata_block == writer.in_metadata_block,
    decreases events.len(),
{
    if events.len() > 0 {
        assert forall|i: int| 0 <= i < events.len() - 1 implies !is_metadata_event(
            #[trigger] events.drop_last()[i],
        ) by {
            assert(events.drop_last()[i] == events[i]);
        }
        law_metadata_block_goes_on(writer, events.drop_last());
        assert(!is_metadata_event(events[events.len() - 1]));
        lemma_step_follows(writer.run(events.drop_last()), events.last());
    }
}

/// The styles of the elements and the highlighting stay the same whatever events come.
pub proof fn law_settings_stay(writer: WriterView, events: Seq<EventView>)
    ensures
        writer.run(events).palette == writer.palette,
        writer.run(events).highlighting == writer.highlighting,
    decreases events.len(),
{
    if events.len() > 0 {
        law_settings_stay(writer, events.drop_last());
        lemma_step_follows(writer.run(events.drop_last()), events.last());
    }
}

/// The mark of a block quote, as often as given.
pub open spec fn quote_marks(count: nat) -> Seq<SpanView> {
    Seq::new(count, |i: int| raw_span(">"@))
}

/// All prefixes of lines are marks of block quotes.
proof fn lemma_prefixes_are_quote_marks(writer: WriterView, events: Seq<EventView>)
    requires
        writer.line_prefixes == quote_marks(writer.line_prefixes.len()),
    ensures
        writer.run(events).line_prefixes == quote_marks(writer.run(events).line_prefixes.len()),
    decreases events.len(),
{
    if events.len() > 0 {
        let before = writer.run(events.drop_last());
        let after = writer.run(events);
        lemma_prefixes_are_quote_marks(writer, events.drop_last());
        lemma_step_follows(before, events.last());
        if events.last() == EventView::Start(TagView::BlockQuote) {
            reveal(WriterView::step);
        } else if let EventView::Start(tag) = events.last() {
            assert(tag_end(tag) == TagEnd::BlockQuote <==> tag is BlockQuote);
        }
        assert(after.line_prefixes =~= quote_marks(after.line_prefixes.len()));
    }
}

/// The prefixes of lines are one mark for each block quote that is open.
pub proof fn law_prefixes_are_quote_marks(
    palette: Palette,
    highlighting: Option<CodeHighlightingView>,
    events: Seq<EventView>,
)
    requires
        open_elements(events) is Some,
    ensures
        WriterView::empty(palette, highlighting).run(events).line_prefixes == quote_marks(
            count_kinds(open_elements(events)->0, set![TagEnd::BlockQuote]),
        ),
{
    let start = WriterView::empty(palette, highlighting);
    assert(start.line_prefixes =~= quote_marks(0));
    lemma_prefixes_are_quote_marks(start, events);
    lemma_run_stands_on(start, events);
}

} // verus!
