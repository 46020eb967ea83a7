//! Code blocks: their fences, and the highlighting of what stands in them.

use vstd::prelude::*;

use crate::ansi::{ansi_lines, ansi_spans};
use crate::event::{CodeBlockKindView, EventView, TagEnd, TagView};
use crate::highlight::{
    escaped, find_by_token, highlighted, CodeHighlightingView, HighlighterView, LinkedSyntaxView,
};
use crate::laws::notions::{
    cell_being_read, fresh_line, lemma_break, lemma_literals, lemma_raw_line, line_start, plain,
    unstyled,
};
use crate::laws::writing::law_highlighted_code_is_written_on_new_lines;
use crate::laws::written::without_top;
use crate::model::{popped, WriterView};
use crate::strings::lines_with_endings;
use crate::text::LineView;

verus! {

/// The language that a code block names.
pub open spec fn language_of(kind: CodeBlockKindView) -> Seq<char> {
    match kind {
        CodeBlockKindView::Fenced(lang) => lang,
        CodeBlockKindView::Indented => Seq::empty(),
    }
}

/// The highlighter of a code block in the given language: a fresh one for the syntax that the
/// language names. Where it names none, it is the one that there was.
pub open spec fn highlighter_for(
    highlighting: CodeHighlightingView,
    lang: Seq<char>,
    there_was: Option<HighlighterView>,
) -> Option<HighlighterView> {
    match find_by_token(highlighting.syntaxes, lang) {
        Some(syntax) => Some(
            HighlighterView {
                linked: LinkedSyntaxView { syntaxes: highlighting.syntaxes, syntax },
                theme: highlighting.theme,
                lines: Seq::empty(),
            },
        ),
        None => there_was,
    }
}

/// A code block starts after a blank line, unless it is the first thing in the document, with three
/// backticks and its language on a new line. Wherever it stands, code in a language that is known
/// is highlighted from there on if code is highlighted at all, and otherwise its lines have the
/// style of code. A blank line is due before what stands in it unless that is highlighted.
pub proof fn law_code_block_starts_with_a_fence(writer: WriterView, kind: CodeBlockKindView)
    ensures
        ({
            let lang = language_of(kind);
            let apart = if writer.lines.len() == 0 {
                Seq::empty()
            } else {
                seq![fresh_line(writer, Seq::empty())]
            };
            let styles = match writer.highlighting {
                Some(_) => writer.line_styles,
                None => writer.line_styles.push(writer.palette.code),
            };
            let inside = WriterView { line_styles: styles, ..writer };
            writer.step(EventView::Start(TagView::CodeBlock(kind))) == (WriterView {
                lines: writer.lines + apart + seq![
                    fresh_line(inside, seq![plain(seq!['`', '`', '`'] + lang)]),
                ],
                line_styles: styles,
                code_highlighter: match writer.highlighting {
                    Some(highlighting) => highlighter_for(
                        highlighting,
                        lang,
                        writer.code_highlighter,
                    ),
                    None => writer.code_highlighter,
                },
                needs_newline: true,
                ..writer
            })
        }),
{
    let start = EventView::Start(TagView::CodeBlock(kind));
    assert(writer.step(start) == writer.start_codeblock(kind)) by {
        reveal(WriterView::step);
    }
    lemma_literals();
    lemma_break(writer);
    let lang = language_of(kind);
    let apart = if writer.lines.len() == 0 {
        Seq::empty()
    } else {
        seq![fresh_line(writer, Seq::empty())]
    };
    let styles = match writer.highlighting {
        Some(_) => writer.line_styles,
        None => writer.line_styles.push(writer.palette.code),
    };
    let inside = WriterView { line_styles: styles, ..writer };
    let fence = seq!['`', '`', '`'] + lang;
    let styled = WriterView {
        lines: writer.lines + apart,
        line_styles: styles,
        code_highlighter: writer.start_codeblock(kind).code_highlighter,
        ..writer
    };
    lemma_raw_line(styled, fence);
    assert(writer.lines + apart =~= if writer.lines.len() > 0 {
        writer.lines.push(fresh_line(writer, Seq::empty()))
    } else {
        writer.lines
    });
    assert(writer.start_codeblock(kind).lines =~= writer.lines + apart + seq![
        fresh_line(inside, seq![plain(fence)]),
    ]);
}

/// A code block ends with three backticks on a new line; then nothing is highlighted any more,
/// lines have the style of before, and a blank line is due.
pub proof fn law_code_block_ends_with_a_fence(writer: WriterView)
    ensures
        writer.step(EventView::End(TagEnd::CodeBlock)) == (WriterView {
            lines: writer.lines + seq![fresh_line(writer, seq![plain(seq!['`', '`', '`'])])],
            line_styles: if writer.highlighting is Some {
                writer.line_styles
            } else {
                without_top(writer.line_styles)
            },
            code_highlighter: if writer.highlighting is Some {
                None
            } else {
                writer.code_highlighter
            },
            needs_newline: true,
            ..writer
        }),
{
    assert(writer.step(EventView::End(TagEnd::CodeBlock)) == writer.end_codeblock()) by {
        reveal(WriterView::step);
    }
    lemma_literals();
    lemma_raw_line(writer, seq!['`', '`', '`']);
    if writer.line_styles.len() > 0 {
        assert(popped(writer.line_styles) =~= without_top(writer.line_styles));
    }
    assert(writer.end_codeblock().lines =~= writer.lines + seq![
        fresh_line(writer, seq![plain(seq!['`', '`', '`'])]),
    ]);
}

/// The lines that a code block of one text shows between its fences.
pub open spec fn code_shown(writer: WriterView, kind: CodeBlockKindView, code: Seq<char>) -> Seq<
    LineView,
> {
    let started = writer.step(EventView::Start(TagView::CodeBlock(kind)));
    started.step(EventView::Text(code)).lines.skip(started.lines.len() as int)
}

/// How a highlighted code block is shown does not depend on what stands before it or around it, but
/// for what lines start with: it is what a fresh highlighter for its language shows, line by line.
pub proof fn law_code_is_highlighted_wherever_it_stands(
    writer: WriterView,
    highlighting: CodeHighlightingView,
    kind: CodeBlockKindView,
    code: Seq<char>,
)
    requires
        cell_being_read(writer) is None,
        writer.highlighting == Some(highlighting),
        find_by_token(highlighting.syntaxes, language_of(kind)) is Some,
    ensures
        ({
            let fresh = HighlighterView {
                linked: LinkedSyntaxView {
                    syntaxes: highlighting.syntaxes,
                    syntax: find_by_token(highlighting.syntaxes, language_of(kind))->0,
                },
                theme: highlighting.theme,
                lines: Seq::empty(),
            };
            let shown = fresh.shown_lines(lines_with_endings(code));
            &&& code_shown(writer, kind, code).len() == shown.len()
            &&& forall|i: int|
                0 <= i < shown.len() ==> (#[trigger] code_shown(writer, kind, code)[i]) == (
                LineView { spans: line_start(writer) + shown[i].spans, style: shown[i].style })
        }),
{
    law_code_block_starts_with_a_fence(writer, kind);
    let started = writer.step(EventView::Start(TagView::CodeBlock(kind)));
    assert(line_start(started) == line_start(writer));
    law_highlighted_code_is_written_on_new_lines(started, code);
}

/// A highlighter shows line after line: what it shows for some lines and then for others is what it
/// shows for all of them, it shows nothing for no line, and it shows a line as the escape codes
/// read that stand for what it makes of the line, or not at all where it fails.
pub proof fn law_highlighter_shows_line_after_line(
    highlighter: HighlighterView,
    lines: Seq<Seq<char>>,
    more: Seq<Seq<char>>,
    line: Seq<char>,
)
    ensures
        highlighter.shown_lines(Seq::empty()) == Seq::<LineView>::empty(),
        highlighter.shown_lines(lines + more) == highlighter.shown_lines(lines)
            + (HighlighterView { lines: highlighter.lines + lines, ..highlighter }).shown_lines(
            more,
        ),
        highlighter.shown_lines(seq![line]) == match highlighted(highlighter, line) {
            Some(parts) => match ansi_spans(escaped(parts, false)) {
                Some(rows) => Seq::new(
                    rows.len(),
                    |i: int| LineView { spans: rows[i], style: unstyled() },
                ),
                None => Seq::empty(),
            },
            None => Seq::empty(),
        },
    decreases more.len(),
{
    let next = HighlighterView { lines: highlighter.lines + lines, ..highlighter };
    if more.len() == 0 {
        assert(lines + more =~= lines);
        assert(highlighter.shown_lines(lines) + Seq::<LineView>::empty()
            =~= highlighter.shown_lines(lines));
    } else {
        let rest = more.drop_last();
        law_highlighter_shows_line_after_line(highlighter, lines, rest, line);
        assert((lines + more).drop_last() =~= lines + rest);
        assert(highlighter.lines + (lines + rest) =~= (highlighter.lines + lines) + rest);
        let last = highlighter.take_lines(lines + rest).shown_line(more.last());
        assert((highlighter.shown_lines(lines) + next.shown_lines(rest)) + last
            =~= highlighter.shown_lines(lines) + (next.shown_lines(rest) + last));
    }
    assert(seq![line].drop_last() =~= Seq::empty());
    assert(highlighter.lines + Seq::<Seq<char>>::empty() =~= highlighter.lines);
    assert(highlighter.shown_lines(seq![line].drop_last()) =~= Seq::empty());
    assert(highlighter.take_lines(seq![line].drop_last()) == highlighter);
    assert(highlighter.shown_lines(seq![line]) =~= highlighter.shown_line(line));
    if let Some(parts) = highlighted(highlighter, line) {
        if let Some(rows) = ansi_spans(escaped(parts, false)) {
            assert(ansi_lines(escaped(parts, false)) =~= Seq::new(
                rows.len(),
                |i: int| LineView { spans: rows[i], style: unstyled() },
            ));
        }
    }
}

} // verus!
