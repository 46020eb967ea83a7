//! How many terminal columns text takes.

use unicode_width::UnicodeWidthChar;
use vstd::prelude::*;

use crate::text::{spans_view, Span, SpanView};

verus! {

/// The width in columns that `unicode_width` looks up for a character that is neither a control
/// character, nor ASCII, nor a box-drawing line.
pub uninterp spec fn looked_up_width(c: char) -> usize;

/// Whether `c` is a control character.
pub open spec fn is_control(c: char) -> bool {
    c < ' ' || '\u{7f}' <= c && c < '\u{a0}'
}

/// Whether `c` is one of the box-drawing lines of which the frame of a table is made.
pub open spec fn is_box_line(c: char) -> bool {
    '\u{2500}' <= c && c <= '\u{254b}'
}

/// The columns that `c` takes; a control character has no width.
pub open spec fn char_width(c: char) -> Option<usize> {
    if is_control(c) {
        None
    } else if c < '\u{7f}' || is_box_line(c) {
        Some(1)
    } else {
        Some(looked_up_width(c))
    }
}

/// Calls [`UnicodeWidthChar::width`].
///
/// Claims that it returns `None` for control characters, one column for printable ASCII and for
/// the box-drawing lines (which are of ambiguous width, and counted as narrow), and for any other
/// character a width that depends on that character alone.
#[verifier::external_body]
fn unicode_width_of(c: char) -> (width: Option<usize>)
    ensures
        is_control(c) ==> width == None::<usize>,
        ' ' <= c && c < '\u{7f}' ==> width == Some(1usize),
        is_box_line(c) ==> width == Some(1usize),
        '\u{a0}' <= c && !is_box_line(c) ==> width == Some(looked_up_width(c)),
{
    UnicodeWidthChar::width(c)
}

/// The columns that `c` adds to a text.
pub open spec fn columns(c: char) -> nat {
    match char_width(c) {
        Some(width) => width as nat,
        None => 0,
    }
}

/// The columns that a text takes: the sum over its characters.
pub open spec fn text_width(s: Seq<char>) -> nat
    decreases s.len(),
{
    if s.len() == 0 {
        0
    } else {
        text_width(s.drop_last()) + columns(s.last())
    }
}

/// The columns that a run of spans takes.
pub open spec fn spans_width(spans: Seq<SpanView>) -> nat
    decreases spans.len(),
{
    if spans.len() == 0 {
        0
    } else {
        spans_width(spans.drop_last()) + text_width(spans.last().content)
    }
}

/// A longer text takes no fewer columns.
proof fn lemma_text_width_take(s: Seq<char>, n: int)
    requires
        0 <= n <= s.len(),
    ensures
        text_width(s.take(n)) <= text_width(s),
    decreases s.len(),
{
    if n == s.len() {
        assert(s.take(n) =~= s);
    } else {
        assert(s.take(n) =~= s.drop_last().take(n));
        lemma_text_width_take(s.drop_last(), n);
    }
}

/// More spans take no fewer columns.
proof fn lemma_spans_width_take(spans: Seq<SpanView>, n: int)
    requires
        0 <= n <= spans.len(),
    ensures
        spans_width(spans.take(n)) <= spans_width(spans),
    decreases spans.len(),
{
    if n == spans.len() {
        assert(spans.take(n) =~= spans);
    } else {
        assert(spans.take(n) =~= spans.drop_last().take(n));
        lemma_spans_width_take(spans.drop_last(), n);
    }
}

/// Two texts one after the other take the columns of both, an empty text takes none, and neither
/// does a control character.
pub proof fn law_widths_add_up(s: Seq<char>, t: Seq<char>, c: char)
    ensures
        text_width(s + t) == text_width(s) + text_width(t),
        text_width(Seq::empty()) == 0,
        is_control(c) ==> text_width(s.push(c)) == text_width(s),
    decreases t.len(),
{
    assert(s.push(c).drop_last() =~= s);
    if t.len() == 0 {
        assert(s + t =~= s);
    } else {
        assert((s + t).drop_last() =~= s + t.drop_last());
        law_widths_add_up(s, t.drop_last(), c);
    }
}

/// Two runs of spans one after the other take the columns of both.
pub proof fn lemma_spans_width_concat(a: Seq<SpanView>, b: Seq<SpanView>)
    ensures
        spans_width(a + b) == spans_width(a) + spans_width(b),
    decreases b.len(),
{
    if b.len() == 0 {
        assert(a + b =~= a);
    } else {
        assert((a + b).drop_last() =~= a + b.drop_last());
        lemma_spans_width_concat(a, b.drop_last());
    }
}

/// The columns that `text` takes, if a `usize` can hold their number.
pub fn checked_display_width(text: &str) -> (width: Option<usize>)
    ensures
        match width {
            Some(w) => w == text_width(text@),
            None => text_width(text@) > usize::MAX,
        },
{
    let mut width: usize = 0;
    for c in it: text.chars()
        invariant
            it.seq() == text@,
            width == text_width(text@.take(it.index())),
    {
        let ghost i = it.index();
        assert(text@.take(i + 1).drop_last() =~= text@.take(i));
        assert(text@.take(i + 1).last() == c);
        proof {
            lemma_text_width_take(text@, i + 1);
        }
        match unicode_width_of(c) {
            Some(w) => match width.checked_add(w) {
                Some(sum) => {
                    width = sum;
                },
                None => {
                    return None;
                },
            },
            None => {},
        }
    }
    assert(text@.take(text@.len() as int) =~= text@);
    Some(width)
}

/// The columns that a run of spans takes, if a `usize` can hold their number.
pub fn checked_display_width_spans(spans: &Vec<Span>) -> (width: Option<usize>)
    ensures
        match width {
            Some(w) => w == spans_width(spans_view(spans@)),
            None => spans_width(spans_view(spans@)) > usize::MAX,
        },
{
    let mut width: usize = 0;
    let mut i: usize = 0;
    let ghost views = spans_view(spans@);
    while i < spans.len()
        invariant
            i <= spans.len(),
            views == spans_view(spans@),
            width == spans_width(views.take(i as int)),
        decreases spans.len() - i,
    {
        assert(views.take(i + 1).drop_last() =~= views.take(i as int));
        assert(views.take(i + 1).last() == spans@[i as int]@);
        proof {
            lemma_spans_width_take(views, i + 1);
        }
        match checked_display_width(spans[i].content.as_str()) {
            Some(w) => match width.checked_add(w) {
                Some(sum) => {
                    width = sum;
                },
                None => {
                    return None;
                },
            },
            None => {
                return None;
            },
        }
        i += 1;
    }
    assert(views.take(i as int) =~= views);
    Some(width)
}

/// The columns that `text` takes.
pub fn display_width(text: &str) -> (width: usize)
    requires
        text_width(text@) <= usize::MAX,
    ensures
        width == text_width(text@),
{
    checked_display_width(text).unwrap()
}

/// The columns that a run of spans takes.
pub fn display_width_spans(spans: &Vec<Span>) -> (width: usize)
    requires
        spans_width(spans_view(spans@)) <= usize::MAX,
    ensures
        width == spans_width(spans_view(spans@)),
{
    checked_display_width_spans(spans).unwrap()
}

} // verus!
