//! Markdown rendered as styled text for terminals.
//!
//! [`from_str`] reads a Markdown document and writes it as a [`Text`]: lines of spans, each in a
//! style. Which styles are used, and whether code blocks are highlighted, is a matter of
//! [`Options`].
//!
//! The document is read as a sequence of events (module [`parse`]). What each event does to the
//! text is stated over mathematical values in module [`model`], and [`writer::TextWriter`] is
//! proved to do just that. What holds of rendering as a whole is proved in module [`laws`].

use vstd::prelude::*;

pub use crate::options::Options;
pub use crate::style_sheet::{DefaultStyleSheet, StyleSheet};
pub use crate::text::Text;

use crate::event::{events_view, Event, EventView, Tag, TagEnd};
use crate::highlight::{bundled_highlighting, CodeHighlighting};
use crate::laws::highlighting::{
    has_code_block, is_code_block_event, law_highlighting_is_for_code_blocks,
};
use crate::laws::sheets::{
    law_same_styles_render_alike, law_style_sheet_changes_styles_alone, line_contents, same_styles,
};
use crate::model::{rendered, WriterView};
use crate::parse::{parse, parsed_events, Extensions};
use crate::text::LineView;
use crate::writer::{highlighting_view, TextWriter};

pub mod ansi;
pub mod event;
pub mod heading;
pub mod highlight;
pub mod laws;
pub mod model;
pub mod options;
pub mod parse;
pub mod strings;
pub mod style;
pub mod style_sheet;
pub mod table;
pub mod text;
pub mod width;
pub mod writer;

verus! {

/// What an optional text shows.
pub open spec fn text_view(text: Option<Text>) -> Option<Seq<LineView>> {
    match text {
        Some(text) => Some(text@),
        None => None,
    }
}

/// The extensions of Markdown that documents are read with.
#[verifier::allow_in_spec]
pub fn extensions() -> Extensions
    returns
        (Extensions {
            strikethrough: true,
            tables: true,
            tasklists: true,
            heading_attributes: true,
            yaml_style_metadata_blocks: true,
            superscript: true,
            subscript: true,
        }),
{
    Extensions {
        strikethrough: true,
        tables: true,
        tasklists: true,
        heading_attributes: true,
        yaml_style_metadata_blocks: true,
        superscript: true,
        subscript: true,
    }
}

/// The events up to a place can come one after another if all of them can.
proof fn lemma_accepts_all_take(writer: WriterView, events: Seq<EventView>, n: int)
    requires
        0 <= n < events.len(),
        writer.accepts_all(events),
    ensures
        writer.accepts_all(events.take(n)),
        writer.run(events.take(n)).accepts(events[n]),
    decreases events.len(),
{
    assert(events.drop_last() =~= events.take(events.len() - 1));
    if n < events.len() - 1 {
        assert(events.take(n) =~= events.drop_last().take(n));
        lemma_accepts_all_take(writer, events.drop_last(), n);
    }
}

/// Renders events as text.
///
/// Returns nothing where an event comes that cannot come there: a list item outside of any list or
/// with a number that is too large, the box of a task list item without the mark of the item, or
/// the end of a table that is too wide.
pub fn render_events<S: StyleSheet>(
    events: Vec<Event>,
    styles: &S,
    highlighting: Option<&CodeHighlighting>,
) -> (text: Option<Text>)
    ensures
        text_view(text) == rendered(
            styles.palette(),
            highlighting_view(highlighting),
            events_view(events@),
        ),
{
    let ghost start = WriterView::empty(styles.palette(), highlighting_view(highlighting));
    let ghost views = events_view(events@);
    let count: usize = events.len();
    let mut writer = TextWriter::new(styles, highlighting);
    let handled: usize = writer.run(events);
    assert(views.take(count as int) =~= views);
    if handled == count {
        Some(writer.into_text())
    } else {
        proof {
            if start.accepts_all(views) {
                lemma_accepts_all_take(start, views, handled as int);
            }
        }
        None
    }
}

/// Whether any of the events starts or ends a code block.
fn contains_code_block(events: &Vec<Event>) -> (res: bool)
    ensures
        res == has_code_block(events_view(events@)),
{
    let ghost views = events_view(events@);
    let mut i: usize = 0;
    while i < events.len()
        invariant
            i <= events.len(),
            views == events_view(events@),
            forall|k: int| 0 <= k < i ==> !is_code_block_event(#[trigger] views[k]),
        decreases events.len() - i,
    {
        let found = match &events[i] {
            Event::Start(Tag::CodeBlock(_)) => true,
            Event::End(TagEnd::CodeBlock) => true,
            _ => false,
        };
        assert(views[i as int] == events@[i as int]@);
        if found {
            return true;
        }
        i += 1;
    }
    false
}

/// The lines that a Markdown document is rendered as with the given options; none where it cannot
/// be rendered.
pub open spec fn rendering<S: StyleSheet>(options: Options<S>, input: Seq<char>) -> Option<
    Seq<LineView>,
> {
    rendered(
        options.styles.palette(),
        options.highlighting(),
        parsed_events(input, extensions()),
    )
}

/// The default options: the default styles, with code blocks highlighted.
pub open spec fn default_options() -> Options<DefaultStyleSheet> {
    Options { styles: DefaultStyleSheet, highlight_code: true }
}

/// Options with other styles render the same lines, spans and texts: with any two that both
/// highlight code or both do not, a document can be rendered or not, and the results differ in
/// styles alone.
pub proof fn law_other_styles_render_the_same_text<S: StyleSheet, T: StyleSheet>(
    one: Options<S>,
    other: Options<T>,
    input: Seq<char>,
)
    requires
        one.highlight_code == other.highlight_code,
    ensures
        match (rendering(one, input), rendering(other, input)) {
            (Some(lines), Some(other_lines)) => line_contents(lines) == line_contents(other_lines),
            (None, None) => true,
            _ => false,
        },
{
    law_style_sheet_changes_styles_alone(
        one.styles.palette(),
        other.styles.palette(),
        one.highlighting(),
        parsed_events(input, extensions()),
    );
}

/// Style sheets that give the same styles make the same text of every document.
pub proof fn law_same_styles_render_the_same<S: StyleSheet, T: StyleSheet>(
    one: Options<S>,
    other: Options<T>,
    input: Seq<char>,
)
    requires
        one.highlight_code == other.highlight_code,
        same_styles(one.styles.palette(), other.styles.palette()),
    ensures
        rendering(one, input) == rendering(other, input),
{
    law_same_styles_render_alike(
        one.styles.palette(),
        other.styles.palette(),
        one.highlighting(),
        parsed_events(input, extensions()),
    );
}

/// Renders events with the given options.
fn render_events_with_options<S: StyleSheet>(events: Vec<Event>, options: &Options<S>) -> (text:
    Option<Text>)
    ensures
        text_view(text) == rendered(
            options.styles.palette(),
            options.highlighting(),
            events_view(events@),
        ),
{
    if options.highlight_code {
        if contains_code_block(&events) {
            let highlighting = CodeHighlighting::load();
            return render_events(events, &options.styles, Some(&highlighting));
        }
        proof {
            law_highlighting_is_for_code_blocks(
                options.styles.palette(),
                Some(bundled_highlighting()),
                None,
                events_view(events@),
            );
        }
    }
    render_events(events, &options.styles, None)
}

/// Renders Markdown with the default options, as [`from_str_with_options`] does with them.
///
/// The document must be one that can be rendered, see [`can_render`]. [`try_from_str`] takes any
/// document.
pub fn from_str(input: &str) -> (text: Text)
    requires
        rendering(default_options(), input@) is Some,
    ensures
        Some(text@) == rendering(default_options(), input@),
{
    from_str_with_options(input, &Options::default())
}

/// Renders Markdown with the given options.
///
/// The document must be one that can be rendered, see [`can_render`].
/// [`try_from_str_with_options`] takes any document.
pub fn from_str_with_options<S: StyleSheet>(input: &str, options: &Options<S>) -> (text: Text)
    requires
        rendering(*options, input@) is Some,
    ensures
        Some(text@) == rendering(*options, input@),
{
    render_events_with_options(parse(input, extensions()), options).unwrap()
}

/// Whether a Markdown document can be rendered with the given options, which is so unless
/// [`render_events`] returns nothing for its events.
pub fn can_render<S: StyleSheet>(input: &str, options: &Options<S>) -> (res: bool)
    ensures
        res == (rendering(*options, input@) is Some),
{
    render_events_with_options(parse(input, extensions()), options).is_some()
}

/// Renders Markdown with the default options, if it can be rendered.
pub fn try_from_str(input: &str) -> (text: Option<Text>)
    ensures
        text_view(text) == rendering(default_options(), input@),
{
    if can_render(input, &Options::default()) {
        Some(from_str(input))
    } else {
        None
    }
}

/// Renders Markdown with the given options, if it can be rendered.
pub fn try_from_str_with_options<S: StyleSheet>(input: &str, options: &Options<S>) -> (text: Option<
    Text,
>)
    ensures
        text_view(text) == rendering(*options, input@),
{
    if can_render(input, options) {
        Some(from_str_with_options(input, options))
    } else {
        None
    }
}

/// Renders Markdown in the given styles, with code blocks highlighted by what is given, if it can
/// be rendered.
///
/// This is for rendering many documents: what code is highlighted with is loaded once, and each
/// document is read once.
pub fn try_from_str_with_highlighting<S: StyleSheet>(
    input: &str,
    styles: &S,
    highlighting: Option<&CodeHighlighting>,
) -> (text: Option<Text>)
    ensures
        text_view(text) == rendered(
            styles.palette(),
            highlighting_view(highlighting),
            parsed_events(input@, extensions()),
        ),
{
    render_events(parse(input, extensions()), styles, highlighting)
}

} // verus!
