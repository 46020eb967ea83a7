//! Which styles the elements of a document are shown in.

use vstd::prelude::*;

use crate::style::{Color, Style, BOLD, DIM, ITALIC, UNDERLINED};

verus! {

/// The styles that a [`StyleSheet`] gives.
pub struct Palette {
    pub heading: spec_fn(u8) -> Style,
    pub code: Style,
    pub link: Style,
    pub blockquote: Style,
    pub heading_meta: Style,
    pub metadata_block: Style,
    pub table_header: Style,
}

/// A choice of styles. Each method gives the same style whenever it is called.
pub trait StyleSheet {
    /// The styles that the methods give. An implementation with other styles than the default ones
    /// says here which they are.
    open spec fn palette(&self) -> Palette {
        default_palette()
    }

    /// The style of a heading of the given level, which is at least 1 and at most 6.
    fn heading(&self, level: u8) -> (style: Style)
        ensures
            style == (self.palette().heading)(level),
    ;

    /// The style of code within a line, and of code blocks that are not highlighted.
    fn code(&self) -> (style: Style)
        ensures
            style == self.palette().code,
    ;

    /// The style of the address of a link.
    fn link(&self) -> (style: Style)
        ensures
            style == self.palette().link,
    ;

    /// The style of the lines of a block quote.
    fn blockquote(&self) -> (style: Style)
        ensures
            style == self.palette().blockquote,
    ;

    /// The style of the attributes of a heading.
    fn heading_meta(&self) -> (style: Style)
        ensures
            style == self.palette().heading_meta,
    ;

    /// The style of the lines of a metadata block.
    fn metadata_block(&self) -> (style: Style)
        ensures
            style == self.palette().metadata_block,
    ;

    /// The style of the head of a table.
    fn table_header(&self) -> (style: Style)
        ensures
            style == self.palette().table_header,
    ;
}

/// The styles that are used unless others are chosen.
#[derive(Clone, Copy, Debug, PartialEq, Eq)]
pub struct DefaultStyleSheet;

/// The default style of a heading.
pub open spec fn default_heading(level: u8) -> Style {
    if level == 1 {
        Style::new().bg(Color::Cyan).add_modifier(BOLD).add_modifier(UNDERLINED)
    } else if level == 2 {
        Style::new().fg(Color::Cyan).add_modifier(BOLD)
    } else if level == 3 {
        Style::new().fg(Color::Cyan).add_modifier(BOLD).add_modifier(ITALIC)
    } else {
        Style::new().fg(Color::LightCyan).add_modifier(ITALIC)
    }
}

/// The default styles.
pub open spec fn default_palette() -> Palette {
    Palette {
        heading: |level: u8| default_heading(level),
        code: Style::new().fg(Color::White).bg(Color::Black),
        link: Style::new().fg(Color::Blue).add_modifier(UNDERLINED),
        blockquote: Style::new().fg(Color::Green),
        heading_meta: Style::new().add_modifier(DIM),
        metadata_block: Style::new().fg(Color::LightYellow),
        table_header: Style::new().add_modifier(BOLD),
    }
}

impl StyleSheet for DefaultStyleSheet {
    open spec fn palette(&self) -> Palette {
        default_palette()
    }

    fn heading(&self, level: u8) -> (style: Style) {
        if level == 1 {
            Style::new().bg(Color::Cyan).add_modifier(BOLD).add_modifier(UNDERLINED)
        } else if level == 2 {
            Style::new().fg(Color::Cyan).add_modifier(BOLD)
        } else if level == 3 {
            Style::new().fg(Color::Cyan).add_modifier(BOLD).add_modifier(ITALIC)
        } else {
            Style::new().fg(Color::LightCyan).add_modifier(ITALIC)
        }
    }

    fn code(&self) -> (style: Style) {
        Style::new().fg(Color::White).bg(Color::Black)
    }

    fn link(&self) -> (style: Style) {
        Style::new().fg(Color::Blue).add_modifier(UNDERLINED)
    }

    fn blockquote(&self) -> (style: Style) {
        Style::new().fg(Color::Green)
    }

    fn heading_meta(&self) -> (style: Style) {
        Style::new().add_modifier(DIM)
    }

    fn metadata_block(&self) -> (style: Style) {
        Style::new().fg(Color::LightYellow)
    }

    fn table_header(&self) -> (style: Style) {
        Style::new().add_modifier(BOLD)
    }
}

} // verus!
