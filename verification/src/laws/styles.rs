//! Styles of text that stands in several elements.

use vstd::prelude::*;

use crate::event::{tag_end, EventView, TagView};
use crate::highlight::CodeHighlightingView;
use crate::laws::nesting::{inline_kinds, lemma_step_follows};
use crate::model::{top, WriterView};
use crate::style::{Color, Style, BOLD, CROSSED_OUT, DIM, ITALIC};
use crate::style_sheet::Palette;

verus! {

/// The attributes that an element switches on for the text in it.
pub open spec fn inline_attributes(tag: TagView) -> u16 {
    match tag {
        TagView::Emphasis => ITALIC,
        TagView::Strong => BOLD,
        TagView::Strikethrough => CROSSED_OUT,
        TagView::Superscript | TagView::Subscript => DIM | ITALIC,
        _ => 0,
    }
}

/// A style that switches on attributes and does nothing else.
pub open spec fn attributes_only(attributes: u16) -> Style {
    Style { fg: None, bg: None, add_modifier: attributes, sub_modifier: 0 }
}

/// Whether each of the styles switches on attributes and does nothing else.
pub open spec fn plain_styles(styles: Seq<Style>) -> bool {
    forall|i: int|
        0 <= i < styles.len() ==> (#[trigger] styles[i]) == attributes_only(styles[i].add_modifier)
}

/// Whether an element sets a style for the text in it.
pub open spec fn sets_attributes(tag: TagView) -> bool {
    match tag {
        TagView::Emphasis | TagView::Strong | TagView::Strikethrough | TagView::Superscript
        | TagView::Subscript => true,
        _ => false,
    }
}

/// Switching on attributes on top of others switches on both.
proof fn lemma_push_attributes(writer: WriterView, attributes: u16)
    requires
        plain_styles(writer.inline_styles),
    ensures
        writer.push_inline_style(attributes_only(attributes)).inline_styles
            == writer.inline_styles.push(
            attributes_only(top(writer.inline_styles).add_modifier | attributes),
        ),
{
    let around = top(writer.inline_styles).add_modifier;
    assert((around & !0u16) | attributes == around | attributes) by (bit_vector);
    assert((0u16 & !attributes) | 0u16 == 0u16) by (bit_vector);
}

/// The styles that elements set switch on attributes and do nothing else.
proof fn lemma_own_styles(modifier: u16)
    ensures
        Style::new().add_modifier(modifier) == attributes_only(modifier),
        Style::new().add_modifier(DIM).add_modifier(ITALIC) == attributes_only(DIM | ITALIC),
{
    assert(0u16 | modifier == modifier) by (bit_vector);
    assert(0u16 & !modifier == 0u16) by (bit_vector);
    let (dim, italic) = (DIM, ITALIC);
    assert(0u16 | dim | italic == dim | italic) by (bit_vector);
    assert(0u16 & !dim & !italic == 0u16) by (bit_vector);
}

/// An element that sets a style switches on its attributes.
proof fn lemma_start_inline(writer: WriterView, tag: TagView)
    requires
        sets_attributes(tag),
    ensures
        writer.start_tag(tag) == writer.push_inline_style(attributes_only(inline_attributes(tag))),
{
    lemma_own_styles(BOLD);
    lemma_own_styles(ITALIC);
    lemma_own_styles(CROSSED_OUT);
    match tag {
        TagView::Emphasis => {},
        TagView::Strong => {},
        TagView::Strikethrough => {},
        TagView::Superscript => {},
        TagView::Subscript => {},
        _ => {},
    }
}

/// An element that sets a style adds its attributes to those around it.
proof fn lemma_attributes_add(writer: WriterView, tag: TagView)
    requires
        sets_attributes(tag),
        plain_styles(writer.inline_styles),
    ensures
        writer.step(EventView::Start(tag)).inline_styles == writer.inline_styles.push(
            attributes_only(top(writer.inline_styles).add_modifier | inline_attributes(tag)),
        ),
{
    assert(writer.step(EventView::Start(tag)) == writer.start_tag(tag)) by {
        reveal(WriterView::step);
    }
    lemma_start_inline(writer, tag);
    lemma_push_attributes(writer, inline_attributes(tag));
}

/// An element that does not set a style leaves the styles of text.
proof fn lemma_inline_kinds(tag: TagView)
    ensures
        inline_kinds().contains(tag_end(tag)) == sets_attributes(tag),
{
}

/// The styles of text are made of attributes alone.
proof fn lemma_run_plain(writer: WriterView, events: Seq<EventView>)
    requires
        plain_styles(writer.inline_styles),
    ensures
        plain_styles(writer.run(events).inline_styles),
    decreases events.len(),
{
    if events.len() > 0 {
        let before = writer.run(events.drop_last());
        lemma_run_plain(writer, events.drop_last());
        lemma_step_follows(before, events.last());
        if let EventView::Start(tag) = events.last() {
            lemma_inline_kinds(tag);
            if sets_attributes(tag) {
                lemma_attributes_add(before, tag);
            }
        }
    }
}

/// The attributes of elements add up: text in an element that stands in another one has the
/// attributes of both, and those of what stands around them, whichever of the two stands in the
/// other.
pub proof fn law_nested_attributes_add_up(
    palette: Palette,
    highlighting: Option<CodeHighlightingView>,
    events: Seq<EventView>,
    outer: TagView,
    inner: TagView,
)
    requires
        sets_attributes(outer),
        sets_attributes(inner),
    ensures
        ({
            let around = WriterView::empty(palette, highlighting).run(events);
            let one = around.step(EventView::Start(outer)).step(EventView::Start(inner));
            let other = around.step(EventView::Start(inner)).step(EventView::Start(outer));
            &&& top(one.inline_styles) == attributes_only(
                top(around.inline_styles).add_modifier | inline_attributes(outer)
                    | inline_attributes(inner),
            )
            &&& top(one.inline_styles) == top(other.inline_styles)
        }),
{
    let start = WriterView::empty(palette, highlighting);
    let around = start.run(events);
    lemma_run_plain(start, events);
    lemma_attributes_add(around, outer);
    lemma_attributes_add(around, inner);
    lemma_attributes_add(around.step(EventView::Start(outer)), inner);
    lemma_attributes_add(around.step(EventView::Start(inner)), outer);
    let a = top(around.inline_styles).add_modifier;
    let b = inline_attributes(outer);
    let c = inline_attributes(inner);
    assert(a | b | c == a | c | b) by (bit_vector);
}

/// A new style says nothing; a colour that is set replaces the one before and leaves the rest; an
/// attribute that is switched on is on and not off, and the rest is as before.
pub proof fn law_styles_are_built_step_by_step(style: Style, color: Color, modifier: u16, m: u16)
    ensures
        Style::new() == (Style { fg: None, bg: None, add_modifier: 0, sub_modifier: 0 }),
        style.fg(color) == (Style {
            fg: Some(color),
            bg: style.bg,
            add_modifier: style.add_modifier,
            sub_modifier: style.sub_modifier,
        }),
        style.bg(color) == (Style {
            fg: style.fg,
            bg: Some(color),
            add_modifier: style.add_modifier,
            sub_modifier: style.sub_modifier,
        }),
        ({
            let after = style.add_modifier(modifier);
            &&& after.fg == style.fg && after.bg == style.bg
            &&& modifier & m == m ==> after.add_modifier & m == m && after.sub_modifier & m == 0
            &&& modifier & m == 0 ==> after.add_modifier & m == style.add_modifier & m
                && after.sub_modifier & m == style.sub_modifier & m
        }),
{
    let (x, u) = (style.add_modifier, style.sub_modifier);
    assert(modifier & m == m ==> (x | modifier) & m == m && (u & !modifier) & m == 0)
        by (bit_vector);
    assert(modifier & m == 0 ==> (x | modifier) & m == x & m && (u & !modifier) & m == u & m)
        by (bit_vector);
}

/// A style on top of another decides where it speaks: a colour that it sets is set, attributes that
/// it switches on are on and those that it switches off are off, and what it does not speak of is
/// as the other says.
pub proof fn law_style_on_top_decides(a: Style, b: Style, m: u16)
    ensures
        ({
            let both = a.patch(b);
            &&& both.fg == if b.fg is Some {
                b.fg
            } else {
                a.fg
            }
            &&& both.bg == if b.bg is Some {
                b.bg
            } else {
                a.bg
            }
            &&& b.add_modifier & m == m ==> both.add_modifier & m == m
            &&& b.sub_modifier & m == m ==> both.sub_modifier & m == m
            &&& b.sub_modifier & m == m && b.add_modifier & m == 0 ==> both.add_modifier & m == 0
            &&& b.add_modifier & m == m && b.sub_modifier & m == 0 ==> both.sub_modifier & m == 0
            &&& b.add_modifier & m == 0 && b.sub_modifier & m == 0 ==> both.add_modifier & m
                == a.add_modifier & m && both.sub_modifier & m == a.sub_modifier & m
        }),
{
    let (x, y) = (a.add_modifier, b.add_modifier);
    let (u, v) = (a.sub_modifier, b.sub_modifier);
    let add = (x & !v) | y;
    let sub = (u & !y) | v;
    assert(y & m == m ==> add & m == m) by (bit_vector)
        requires
            add == (x & !v) | y,
    ;
    assert(v & m == m ==> sub & m == m) by (bit_vector)
        requires
            sub == (u & !y) | v,
    ;
    assert(v & m == m && y & m == 0 ==> add & m == 0) by (bit_vector)
        requires
            add == (x & !v) | y,
    ;
    assert(y & m == m && v & m == 0 ==> sub & m == 0) by (bit_vector)
        requires
            sub == (u & !y) | v,
    ;
    assert(y & m == 0 && v & m == 0 ==> add & m == x & m && sub & m == u & m) by (bit_vector)
        requires
            add == (x & !v) | y,
            sub == (u & !y) | v,
    ;
}

/// Changes of style can be put together in any grouping.
pub proof fn law_patch_is_associative(a: Style, b: Style, c: Style)
    requires
        b.add_modifier & b.sub_modifier == 0,
        c.add_modifier & c.sub_modifier == 0,
    ensures
        a.patch(b).patch(c) == a.patch(b.patch(c)),
{
    let (x, y, z) = (a.add_modifier, b.add_modifier, c.add_modifier);
    let (u, v, w) = (a.sub_modifier, b.sub_modifier, c.sub_modifier);
    assert((((x & !v) | y) & !w) | z == (x & !((v & !z) | w)) | ((y & !w) | z)) by (bit_vector)
        requires
            y & v == 0,
            z & w == 0,
    ;
    assert((((u & !y) | v) & !z) | w == (u & !((y & !w) | z)) | ((v & !z) | w)) by (bit_vector)
        requires
            y & v == 0,
            z & w == 0,
    ;
}

/// A change of style that changes nothing can be left out.
pub proof fn law_patch_of_nothing(a: Style)
    ensures
        a.patch(Style::new()) == a,
        Style::new().patch(a) == a,
{
    let (x, u) = (a.add_modifier, a.sub_modifier);
    assert((x & !0u16) | 0u16 == x) by (bit_vector);
    assert((0u16 & !u) | x == x) by (bit_vector);
    assert((u & !0u16) | 0u16 == u) by (bit_vector);
    assert((0u16 & !x) | u == u) by (bit_vector);
}

} // verus!
