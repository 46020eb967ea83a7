//! Highlighting of code blocks: `syntect` colours the code, and the terminal escape codes that it
//! writes are read back as styled lines.

use syntect::easy::HighlightLines;
use syntect::highlighting::{
    Color as CodeColor, FontStyle, Style as CodeStyle, Theme, ThemeSet,
};
use syntect::parsing::{SyntaxReference, SyntaxSet};
use syntect::util::as_24_bit_terminal_escaped;
use vstd::prelude::*;

use crate::ansi::{ansi_lines, read_ansi};
use crate::strings::{decimal, lines_with_endings, split_lines_with_endings, strings_view};
use crate::text::{lines_view, Line, LineView};

verus! {

/// The syntaxes of `syntect` that are linked together.
#[verifier::external_type_specification]
#[verifier::external_body]
pub struct ExSyntaxSet(SyntaxSet);

/// A syntax of `syntect`, in the set that it belongs to.
#[verifier::external_type_specification]
#[verifier::external_body]
pub struct ExSyntaxReference(SyntaxReference);

/// The themes of `syntect` by their names.
#[verifier::external_type_specification]
#[verifier::external_body]
pub struct ExThemeSet(ThemeSet);

/// A theme of `syntect`.
#[verifier::external_type_specification]
#[verifier::external_body]
pub struct ExTheme(Theme);

/// A highlighter of `syntect`, which takes code line by line.
#[verifier::external_type_specification]
#[verifier::external_body]
pub struct ExHighlightLines<'a>(HighlightLines<'a>);

/// The name of the theme that code is highlighted in.
pub const THEME_NAME: &'static str = "base16-ocean.dark";

/// What there is to know of a syntax: its name, the file extensions that it is for, and the rest
/// of its definition.
pub struct SyntaxView {
    pub name: Seq<char>,
    pub file_extensions: Seq<Seq<char>>,
    pub definition: Seq<char>,
}

/// A syntax together with the set that it belongs to.
pub struct LinkedSyntaxView {
    pub syntaxes: Seq<SyntaxView>,
    pub syntax: SyntaxView,
}

/// What a highlighter works with, and the lines that it has taken so far.
pub struct HighlighterView {
    pub linked: LinkedSyntaxView,
    pub theme: Seq<char>,
    pub lines: Seq<Seq<char>>,
}

/// A piece of highlighted code. Colours are red, green, blue and alpha.
#[derive(Debug, PartialEq, Eq)]
pub struct CodePart {
    pub foreground: (u8, u8, u8, u8),
    pub background: (u8, u8, u8, u8),
    pub font_style: u8,
    pub text: String,
}

/// What a [`CodePart`] holds.
pub struct CodePartView {
    pub foreground: (u8, u8, u8, u8),
    pub background: (u8, u8, u8, u8),
    pub font_style: u8,
    pub text: Seq<char>,
}

impl View for CodePart {
    type V = CodePartView;

    open spec fn view(&self) -> CodePartView {
        CodePartView {
            foreground: self.foreground,
            background: self.background,
            font_style: self.font_style,
            text: self.text@,
        }
    }
}

/// What each of the parts holds.
pub open spec fn parts_view(parts: Seq<CodePart>) -> Seq<CodePartView> {
    parts.map_values(|part: CodePart| part@)
}

/// The syntaxes in a set, in their order.
pub uninterp spec fn syntaxes_in(set: SyntaxSet) -> Seq<SyntaxView>;

/// A syntax, and the set that it belongs to.
pub uninterp spec fn syntax_of(syntax: SyntaxReference) -> LinkedSyntaxView;

/// The definitions of the themes in a set, by their names.
pub uninterp spec fn themes_in(set: ThemeSet) -> Map<Seq<char>, Seq<char>>;

/// The definition of a theme.
pub uninterp spec fn theme_of(theme: Theme) -> Seq<char>;

/// What a highlighter works with, and the lines that it has taken so far.
pub uninterp spec fn taken_by(highlighter: HighlightLines<'static>) -> HighlighterView;

/// The syntax at the given place among those that come with `syntect`, for lines with the line feed
/// that ends them; nothing behind the last one.
pub uninterp spec fn bundled_syntax(index: int) -> Option<SyntaxView>;

/// The definition of the theme of the given name that comes with `syntect`.
pub uninterp spec fn bundled_theme(name: Seq<char>) -> Seq<char>;

/// How `syntect` highlights a line after the lines that the highlighter has taken; nothing where
/// it fails.
pub uninterp spec fn highlighted(highlighter: HighlighterView, line: Seq<char>) -> Option<
    Seq<CodePartView>,
>;

/// Whether a theme of this name comes with `syntect`.
pub open spec fn is_bundled_theme(name: Seq<char>) -> bool {
    ||| name == "base16-ocean.dark"@
    ||| name == "base16-eighties.dark"@
    ||| name == "base16-mocha.dark"@
    ||| name == "base16-ocean.light"@
    ||| name == "InspiredGitHub"@
    ||| name == "Solarized (dark)"@
    ||| name == "Solarized (light)"@
}

/// `c`, or its lower case form if it is an ASCII capital.
pub open spec fn ascii_lower(c: char) -> char {
    if 'A' <= c && c <= 'Z' {
        (c as u32 + 32) as char
    } else {
        c
    }
}

/// Whether two strings are equal but for the case of ASCII letters.
pub open spec fn same_ignoring_case(a: Seq<char>, b: Seq<char>) -> bool {
    a.len() == b.len() && forall|i: int|
        0 <= i < a.len() ==> ascii_lower(#[trigger] a[i]) == ascii_lower(b[i])
}

/// The last syntax for files with the given extension.
pub open spec fn find_by_extension(syntaxes: Seq<SyntaxView>, extension: Seq<char>) -> Option<
    SyntaxView,
>
    decreases syntaxes.len(),
{
    if syntaxes.len() == 0 {
        None
    } else if exists|i: int|
        0 <= i < syntaxes.last().file_extensions.len() && same_ignoring_case(
            #[trigger] syntaxes.last().file_extensions[i],
            extension,
        ) {
        Some(syntaxes.last())
    } else {
        find_by_extension(syntaxes.drop_last(), extension)
    }
}

/// The last syntax of the given name.
pub open spec fn find_by_name(syntaxes: Seq<SyntaxView>, name: Seq<char>) -> Option<SyntaxView>
    decreases syntaxes.len(),
{
    if syntaxes.len() == 0 {
        None
    } else if same_ignoring_case(syntaxes.last().name, name) {
        Some(syntaxes.last())
    } else {
        find_by_name(syntaxes.drop_last(), name)
    }
}

/// The syntax that a token stands for: one for files with that extension, or else one of that
/// name.
pub open spec fn find_by_token(syntaxes: Seq<SyntaxView>, token: Seq<char>) -> Option<SyntaxView> {
    match find_by_extension(syntaxes, token) {
        Some(syntax) => Some(syntax),
        None => find_by_name(syntaxes, token),
    }
}

/// Calls [`SyntaxSet::load_defaults_newlines`].
///
/// Claims that it loads the syntaxes that come with `syntect`, the same ones in the same order
/// whenever it is called. Which they are is not claimed.
#[verifier::external_body]
fn load_syntaxes() -> (syntaxes: SyntaxSet)
    ensures
        forall|i: int|
            0 <= i ==> #[trigger] bundled_syntax(i) == (if i < syntaxes_in(syntaxes).len() {
                Some(syntaxes_in(syntaxes)[i])
            } else {
                None
            }),
{
    SyntaxSet::load_defaults_newlines()
}

/// Calls [`ThemeSet::load_defaults`].
///
/// Claims that the themes that its documentation lists are there, each with the definition that
/// comes with `syntect`.
#[verifier::external_body]
fn load_themes() -> (themes: ThemeSet)
    ensures
        forall|name: Seq<char>| #[trigger]
            is_bundled_theme(name) ==> themes_in(themes).contains_key(name) && themes_in(
                themes,
            )[name] == bundled_theme(name),
{
    ThemeSet::load_defaults()
}

/// Takes a theme out of the map in a [`ThemeSet`], with [`std::collections::BTreeMap::remove`].
///
/// Claims that the theme of that name comes out, if the set has one.
#[verifier::external_body]
fn take_theme(themes: ThemeSet, name: &str) -> (theme: Option<Theme>)
    ensures
        match theme {
            Some(theme) => themes_in(themes).contains_key(name@) && theme_of(theme) == themes_in(
                themes,
            )[name@],
            None => !themes_in(themes).contains_key(name@),
        },
{
    let mut themes = themes;
    themes.themes.remove(name)
}

/// Calls [`SyntaxSet::find_syntax_by_token`].
///
/// Claims that it finds a syntax by extension first and by name otherwise, both without regard to
/// the case of ASCII letters, and of several such syntaxes the last one in the set.
#[verifier::external_body]
fn find_syntax<'a>(syntaxes: &'a SyntaxSet, token: &str) -> (syntax: Option<&'a SyntaxReference>)
    ensures
        match syntax {
            Some(syntax) => find_by_token(syntaxes_in(*syntaxes), token@) == Some(
                syntax_of(*syntax).syntax,
            ) && syntax_of(*syntax).syntaxes == syntaxes_in(*syntaxes),
            None => find_by_token(syntaxes_in(*syntaxes), token@) is None,
        },
{
    syntaxes.find_syntax_by_token(token)
}

/// Calls [`HighlightLines::new`].
///
/// Claims that the new highlighter works with the given syntax and theme and has taken no line.
#[verifier::external_body]
fn new_highlighter<'a>(syntax: &SyntaxReference, theme: &'a Theme) -> (highlighter: HighlightLines<
    'a,
>)
    ensures
        taken_by(highlighter) == (HighlighterView {
            linked: syntax_of(*syntax),
            theme: theme_of(*theme),
            lines: Seq::empty(),
        }),
{
    HighlightLines::new(syntax, theme)
}

/// Calls [`HighlightLines::highlight_line`] with the set that the syntax belongs to.
///
/// Claims that the result depends on the syntax, the theme, the lines taken before and this line
/// alone, and that the highlighter has then taken this line too. What the parts hold is not
/// claimed.
#[verifier::external_body]
fn highlight_line(highlighter: &mut HighlightLines<'_>, line: &str, syntaxes: &SyntaxSet) -> (parts:
    Option<Vec<CodePart>>)
    requires
        taken_by(*old(highlighter)).linked.syntaxes == syntaxes_in(*syntaxes),
    ensures
        match parts {
            Some(parts) => highlighted(taken_by(*old(highlighter)), line@) == Some(
                parts_view(parts@),
            ),
            None => highlighted(taken_by(*old(highlighter)), line@) is None,
        },
        taken_by(*final(highlighter)) == (HighlighterView {
            lines: taken_by(*old(highlighter)).lines.push(line@),
            ..taken_by(*old(highlighter))
        }),
{
    let parts = highlighter.highlight_line(line, syntaxes).ok()?;
    Some(parts.into_iter().map(|(style, text)| CodePart {
        foreground: (style.foreground.r, style.foreground.g, style.foreground.b, style.foreground.a),
        background: (style.background.r, style.background.g, style.background.b, style.background.a),
        font_style: style.font_style.bits(),
        text: text.to_string(),
    }).collect())
}

/// One component of a foreground colour laid over a background colour.
pub open spec fn blended(foreground: u8, background: u8, alpha: u8) -> nat {
    if alpha == 255 {
        foreground as nat
    } else {
        ((foreground * alpha + background * (255 - alpha)) / 255) as nat
    }
}

/// The escape code that sets a colour: `layer` is 38 for the foreground and 48 for the background.
pub open spec fn color_code(layer: nat, r: nat, g: nat, b: nat) -> Seq<char> {
    "\x1b["@ + decimal(layer) + ";2;"@ + decimal(r) + ";"@ + decimal(g) + ";"@ + decimal(b) + "m"@
}

/// A part of code behind the escape codes that set its colours.
pub open spec fn escaped_part(part: CodePartView, bg: bool) -> Seq<char> {
    let (r, g, b, a) = part.foreground;
    let (br, bgr, bb, _) = part.background;
    let back = if bg {
        color_code(48, br as nat, bgr as nat, bb as nat)
    } else {
        Seq::empty()
    };
    back + color_code(38, blended(r, br, a), blended(g, bgr, a), blended(b, bb, a)) + part.text
}

/// Parts of code one after another, each behind its escape codes.
pub open spec fn escaped(parts: Seq<CodePartView>, bg: bool) -> Seq<char>
    decreases parts.len(),
{
    if parts.len() == 0 {
        Seq::empty()
    } else {
        escaped(parts.drop_last(), bg) + escaped_part(parts.last(), bg)
    }
}

/// Calls [`as_24_bit_terminal_escaped`].
///
/// Claims that it writes each part behind the code that sets its foreground colour, blended with
/// the background by its alpha, and before that the code for the background if asked to.
#[verifier::external_body]
fn terminal_escaped(parts: &Vec<CodePart>, bg: bool) -> (res: String)
    ensures
        res@ == escaped(parts_view(parts@), bg),
{
    let parts: Vec<(CodeStyle, &str)> = parts.iter().map(|part| {
        let (r, g, b, a) = part.foreground;
        let foreground = CodeColor { r, g, b, a };
        let (r, g, b, a) = part.background;
        let background = CodeColor { r, g, b, a };
        let font_style = FontStyle::from_bits_truncate(part.font_style);
        (CodeStyle { foreground, background, font_style }, part.text.as_str())
    }).collect();
    as_24_bit_terminal_escaped(&parts, bg)
}

impl HighlighterView {
    /// The highlighter after one more line.
    pub open spec fn take_line(self, line: Seq<char>) -> HighlighterView {
        HighlighterView { lines: self.lines.push(line), ..self }
    }

    /// What is shown for the next line of code; nothing where highlighting fails.
    pub open spec fn shown_line(self, line: Seq<char>) -> Seq<LineView> {
        match highlighted(self, line) {
            Some(parts) => ansi_lines(escaped(parts, false)),
            None => Seq::empty(),
        }
    }

    /// The highlighter after more lines.
    pub open spec fn take_lines(self, lines: Seq<Seq<char>>) -> HighlighterView {
        HighlighterView { lines: self.lines + lines, ..self }
    }

    /// What is shown for the next lines of code.
    pub open spec fn shown_lines(self, lines: Seq<Seq<char>>) -> Seq<LineView>
        decreases lines.len(),
    {
        if lines.len() == 0 {
            Seq::empty()
        } else {
            self.shown_lines(lines.drop_last()) + self.take_lines(lines.drop_last()).shown_line(
                lines.last(),
            )
        }
    }
}

/// What code blocks are highlighted with.
pub struct CodeHighlighting {
    syntaxes: SyntaxSet,
    theme: Theme,
}

/// What a [`CodeHighlighting`] holds: the syntaxes, and the definition of the theme.
pub struct CodeHighlightingView {
    pub syntaxes: Seq<SyntaxView>,
    pub theme: Seq<char>,
}

impl View for CodeHighlighting {
    type V = CodeHighlightingView;

    closed spec fn view(&self) -> CodeHighlightingView {
        CodeHighlightingView { syntaxes: syntaxes_in(self.syntaxes), theme: theme_of(self.theme) }
    }
}

impl CodeHighlightingView {
    /// Whether this is what comes with `syntect`: its syntaxes, and its theme of the name
    /// [`THEME_NAME`].
    pub open spec fn is_bundled(self) -> bool {
        &&& self.theme == bundled_theme(THEME_NAME@)
        &&& forall|i: int|
            0 <= i ==> #[trigger] bundled_syntax(i) == (if i < self.syntaxes.len() {
                Some(self.syntaxes[i])
            } else {
                None
            })
    }

    /// A fresh highlighter for the language that a token stands for, if it is known.
    pub open spec fn highlighter(self, token: Seq<char>) -> Option<HighlighterView> {
        match find_by_token(self.syntaxes, token) {
            Some(syntax) => Some(
                HighlighterView {
                    linked: LinkedSyntaxView { syntaxes: self.syntaxes, syntax },
                    theme: self.theme,
                    lines: Seq::empty(),
                },
            ),
            None => None,
        }
    }
}

/// What comes with `syntect`: its syntaxes, and its theme of the name [`THEME_NAME`].
pub open spec fn bundled_highlighting() -> CodeHighlightingView {
    choose|highlighting: CodeHighlightingView| #[trigger] highlighting.is_bundled()
}

/// What comes with `syntect` is one and the same whenever it is loaded.
pub proof fn law_bundled_highlighting_is_one(highlighting: CodeHighlightingView)
    requires
        highlighting.is_bundled(),
    ensures
        highlighting == bundled_highlighting(),
{
    let other = bundled_highlighting();
    assert(other.is_bundled());
    let (a, b) = (highlighting.syntaxes, other.syntaxes);
    assert(bundled_syntax(a.len() as int) is None);
    assert(bundled_syntax(b.len() as int) is None);
    assert forall|i: int| 0 <= i < a.len() implies a[i] == b[i] by {
        assert(bundled_syntax(i) == Some(a[i]));
    }
    assert(a =~= b);
}

/// A highlighter at work on a code block.
pub struct CodeHighlighter<'a> {
    lines: HighlightLines<'a>,
    syntaxes: &'a SyntaxSet,
}

impl<'a> View for CodeHighlighter<'a> {
    type V = HighlighterView;

    closed spec fn view(&self) -> HighlighterView {
        taken_by(self.lines)
    }
}

/// What an optional highlighter works with.
pub open spec fn highlighter_view(highlighter: Option<CodeHighlighter<'_>>) -> Option<
    HighlighterView,
> {
    match highlighter {
        Some(highlighter) => Some(highlighter@),
        None => None,
    }
}

impl CodeHighlighting {
    /// Loads what comes with `syntect`: the syntaxes, and the theme of the name [`THEME_NAME`].
    pub fn load() -> (highlighting: CodeHighlighting)
        ensures
            highlighting@ == bundled_highlighting(),
    {
        let themes = load_themes();
        assert(is_bundled_theme(THEME_NAME@));
        let theme = take_theme(themes, THEME_NAME).unwrap();
        let highlighting = CodeHighlighting { syntaxes: load_syntaxes(), theme };
        proof {
            law_bundled_highlighting_is_one(highlighting@);
        }
        highlighting
    }

    /// A fresh highlighter for the language that a token stands for, if it is known.
    pub fn highlighter(&self, token: &str) -> (highlighter: Option<CodeHighlighter<'_>>)
        ensures
            highlighter_view(highlighter) == self@.highlighter(token@),
    {
        match find_syntax(&self.syntaxes, token) {
            Some(syntax) => Some(
                CodeHighlighter {
                    lines: new_highlighter(syntax, &self.theme),
                    syntaxes: &self.syntaxes,
                },
            ),
            None => None,
        }
    }
}

impl<'a> CodeHighlighter<'a> {
    /// The set of syntaxes is the one that the syntax belongs to.
    #[verifier::type_invariant]
    spec fn linked(self) -> bool {
        taken_by(self.lines).linked.syntaxes == syntaxes_in(*self.syntaxes)
    }

    /// Highlights the next line of code.
    fn highlight_one(self, line: &str) -> (res: (CodeHighlighter<'a>, Vec<Line>))
        ensures
            res.0@ == self@.take_line(line@),
            lines_view(res.1@) == self@.shown_line(line@),
    {
        proof {
            use_type_invariant(&self);
        }
        let syntaxes = self.syntaxes;
        let mut lines = self.lines;
        let shown = match highlight_line(&mut lines, line, syntaxes) {
            Some(parts) => read_ansi(terminal_escaped(&parts, false).as_str()),
            None => {
                let none: Vec<Line> = Vec::new();
                assert(lines_view(none@) =~= Seq::empty());
                none
            },
        };
        (CodeHighlighter { lines, syntaxes }, shown)
    }

    /// Highlights code, line by line.
    pub fn highlight(self, code: &str) -> (res: (CodeHighlighter<'a>, Vec<Line>))
        ensures
            res.0@ == self@.take_lines(lines_with_endings(code@)),
            lines_view(res.1@) == self@.shown_lines(lines_with_endings(code@)),
    {
        let pieces = split_lines_with_endings(code);
        let ghost views = lines_with_endings(code@);
        let ghost start = self@;
        let mut highlighter = self;
        let mut shown: Vec<Line> = Vec::new();
        let mut i: usize = 0;
        assert(lines_view(shown@) =~= Seq::empty());
        assert(start.lines + views.take(0) =~= start.lines);
        while i < pieces.len()
            invariant
                i <= pieces.len(),
                strings_view(pieces@) == views,
                highlighter@ == start.take_lines(views.take(i as int)),
                lines_view(shown@) == start.shown_lines(views.take(i as int)),
            decreases pieces.len() - i,
        {
            let ghost before = views.take(i as int);
            assert(views[i as int] == pieces@[i as int]@);
            assert(views.take(i + 1).drop_last() =~= before);
            assert(views.take(i + 1).last() == views[i as int]);
            let (next, lines) = highlighter.highlight_one(pieces[i].as_str());
            let mut lines = lines;
            assert(lines_view(shown@ + lines@) =~= lines_view(shown@) + lines_view(lines@));
            shown.append(&mut lines);
            highlighter = next;
            i += 1;
            assert(start.lines + views.take(i as int) =~= (start.lines + before).push(
                views[i - 1],
            ));
        }
        assert(views.take(i as int) =~= views);
        (highlighter, shown)
    }
}

} // verus!
