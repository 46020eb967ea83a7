//! Lines of texts, joined texts, numerals and widths, each by what it must satisfy.

use vstd::prelude::*;

use crate::laws::text::lemma_pieces_end_with_line_feeds;
use crate::strings::{decimal, has_suffix, joined, lines_of, lines_with_endings, strip_ending};
use crate::text::SpanView;
use crate::width::{lemma_spans_width_concat, looked_up_width, spans_width, text_width};

verus! {

/// A text is cut behind each of its line feeds and nowhere else: no piece is empty, a line feed
/// stands only at the end of a piece, and every piece but the last ends with one.
pub proof fn law_text_is_cut_behind_line_feeds(s: Seq<char>, i: int)
    requires
        0 <= i < lines_with_endings(s).len(),
    ensures
        ({
            let piece = lines_with_endings(s)[i];
            &&& piece.len() > 0
            &&& forall|j: int| 0 <= j < piece.len() - 1 ==> #[trigger] piece[j] != '\n'
            &&& i < lines_with_endings(s).len() - 1 ==> piece[piece.len() - 1] == '\n'
        }),
{
    let piece = lines_with_endings(s)[i];
    lemma_pieces_end_with_line_feeds(s, i);
    assert forall|j: int| 0 <= j < piece.len() - 1 implies #[trigger] piece[j] != '\n' by {
        assert(piece.drop_last()[j] == piece[j]);
        assert(piece.drop_last().contains(piece.drop_last()[j]));
    }
    if i < lines_with_endings(s).len() - 1 {
        lemma_pieces_are_ended(s, i);
    }
}

/// Every piece but the last ends with a line feed.
proof fn lemma_pieces_are_ended(s: Seq<char>, i: int)
    requires
        0 <= i < lines_with_endings(s).len() - 1,
    ensures
        lines_with_endings(s)[i].len() > 0,
        lines_with_endings(s)[i].last() == '\n',
    decreases s.len(),
{
    if s.len() > 0 {
        let before = lines_with_endings(s.drop_last());
        lemma_pieces_end_with_line_feeds(s, i);
        if i < before.len() - 1 {
            lemma_pieces_are_ended(s.drop_last(), i);
        } else if has_suffix(before.last(), seq!['\n']) {
            let piece = before.last();
            let tail = piece.skip(piece.len() - 1);
            assert(tail[0] == piece.last());
            assert(seq!['\n'][0] == '\n');
        }
    }
}

/// A line of a text is its piece without the line feed that ends it, and without a carriage return
/// before that line feed; nothing else is taken off.
pub proof fn law_line_is_its_piece_without_the_ending(s: Seq<char>, i: int)
    ensures
        lines_of(s).len() == lines_with_endings(s).len(),
        0 <= i < lines_of(s).len() ==> ({
            let piece = lines_with_endings(s)[i];
            let n = piece.len();
            lines_of(s)[i] == if piece[n - 1] != '\n' {
                piece
            } else if n >= 2 && piece[n - 2] == '\r' {
                piece.take(n - 2)
            } else {
                piece.take(n - 1)
            }
        }),
{
    if 0 <= i < lines_of(s).len() {
        let piece = lines_with_endings(s)[i];
        let n = piece.len() as int;
        lemma_pieces_end_with_line_feeds(s, i);
        assert(lines_of(s)[i] == strip_ending(piece));
        let one = piece.skip(n - 1);
        assert(one =~= seq![piece[n - 1]]);
        assert(one[0] == piece[n - 1] && seq!['\n'][0] == '\n');
        if n >= 2 {
            let two = piece.skip(n - 2);
            assert(two =~= seq![piece[n - 2], piece[n - 1]]);
            assert(two[0] == piece[n - 2] && two[1] == piece[n - 1]);
            assert(seq!['\r', '\n'][0] == '\r' && seq!['\r', '\n'][1] == '\n');
        }
    }
}

/// Texts are joined with what stands between each two of them: one alone is itself, and some and
/// then others are both with that between them.
pub proof fn law_joining_puts_it_between(
    parts: Seq<Seq<char>>,
    more: Seq<Seq<char>>,
    part: Seq<char>,
    sep: Seq<char>,
)
    ensures
        joined(Seq::empty(), sep) == Seq::<char>::empty(),
        joined(seq![part], sep) == part,
        parts.len() > 0 && more.len() > 0 ==> joined(parts + more, sep) == joined(parts, sep) + sep
            + joined(more, sep),
    decreases more.len(),
{
    if parts.len() > 0 && more.len() > 0 {
        let all = parts + more;
        let rest = more.drop_last();
        assert(all.drop_last() =~= parts + rest);
        if rest.len() == 0 {
            assert(parts + rest =~= parts);
            assert(more.last() == more[0]);
        } else {
            law_joining_puts_it_between(parts, rest, part, sep);
            assert(joined(all, sep) =~= joined(parts, sep) + sep + joined(more, sep));
        }
    }
}

/// Whether a character is a decimal digit.
pub open spec fn is_digit(c: char) -> bool {
    '0' <= c && c <= '9'
}

/// The number that decimal digits stand for.
pub open spec fn value_of(digits: Seq<char>) -> int
    decreases digits.len(),
{
    if digits.len() == 0 {
        0
    } else {
        10 * value_of(digits.drop_last()) + (digits.last() as int - '0' as int)
    }
}

/// A numeral is made of decimal digits, the first of which is zero only for zero itself, and stands
/// for its number.
pub proof fn law_numeral_stands_for_its_number(n: nat)
    ensures
        decimal(n).len() > 0,
        value_of(decimal(n)) == n,
        forall|i: int| 0 <= i < decimal(n).len() ==> is_digit(#[trigger] decimal(n)[i]),
        n > 0 ==> decimal(n)[0] != '0',
    decreases n,
{
    if n < 10 {
        assert(decimal(n).drop_last() =~= Seq::empty());
        assert(value_of(decimal(n).drop_last()) == 0);
    } else {
        law_numeral_stands_for_its_number(n / 10);
        assert(decimal(n).drop_last() =~= decimal(n / 10));
        assert(decimal(n)[0] == decimal(n / 10)[0]);
        assert forall|i: int| 0 <= i < decimal(n).len() implies is_digit(
            #[trigger] decimal(n)[i],
        ) by {
            if i < decimal(n).len() - 1 {
                assert(decimal(n)[i] == decimal(n / 10)[i]);
            }
        }
    }
}

/// What a character takes: nothing if it is a control character, one column if it is of printable
/// ASCII or a box-drawing line, and else the columns that are looked up for it.
pub proof fn law_width_of_a_character(c: char)
    ensures
        ' ' > c || ('\u{7f}' <= c && '\u{a0}' > c) ==> text_width(seq![c]) == 0,
        ' ' <= c && c <= '~' ==> text_width(seq![c]) == 1,
        '\u{2500}' <= c && c <= '\u{254b}' ==> text_width(seq![c]) == 1,
        '\u{a0}' <= c && ('\u{2500}' > c || c > '\u{254b}') ==> text_width(seq![c])
            == looked_up_width(c),
{
    assert(seq![c].drop_last() =~= Seq::empty());
    assert(text_width(seq![c].drop_last()) == 0);
}

/// Spans take the columns of their texts, whatever their styles.
pub proof fn law_widths_of_spans_add_up(a: Seq<SpanView>, b: Seq<SpanView>, span: SpanView)
    ensures
        spans_width(Seq::empty()) == 0,
        spans_width(seq![span]) == text_width(span.content),
        spans_width(a + b) == spans_width(a) + spans_width(b),
{
    lemma_spans_width_concat(a, b);
    assert(seq![span].drop_last() =~= Seq::empty());
    assert(spans_width(seq![span].drop_last()) == 0);
}

} // verus!
