//! Terminal styles: colours, text attributes, and how one style is laid over another.

use vstd::prelude::*;

verus! {

/// A terminal colour.
#[derive(Clone, Copy, Debug, PartialEq, Eq, Hash)]
pub enum Color {
    Reset,
    Black,
    Red,
    Green,
    Yellow,
    Blue,
    Magenta,
    Cyan,
    Gray,
    DarkGray,
    LightRed,
    LightGreen,
    LightYellow,
    LightBlue,
    LightMagenta,
    LightCyan,
    White,
    Rgb(u8, u8, u8),
    Indexed(u8),
}

/// Bold text.
pub const BOLD: u16 = 0b0000_0000_0001;

/// Dimmed text.
pub const DIM: u16 = 0b0000_0000_0010;

/// Italic text.
pub const ITALIC: u16 = 0b0000_0000_0100;

/// Underlined text.
pub const UNDERLINED: u16 = 0b0000_0000_1000;

/// Struck-through text.
pub const CROSSED_OUT: u16 = 0b0001_0000_0000;

/// A change of style: colours to set, attributes to switch on and attributes to switch off.
///
/// `add_modifier` and `sub_modifier` are sets of attributes, one bit each.
#[derive(Clone, Copy, Debug, PartialEq, Eq, Hash)]
pub struct Style {
    pub fg: Option<Color>,
    pub bg: Option<Color>,
    pub add_modifier: u16,
    pub sub_modifier: u16,
}

impl Style {
    /// The style that changes nothing.
    #[verifier::allow_in_spec]
    pub fn new() -> Style
        returns
            (Style { fg: None, bg: None, add_modifier: 0, sub_modifier: 0 }),
    {
        Style { fg: None, bg: None, add_modifier: 0, sub_modifier: 0 }
    }

    /// This style with the given foreground colour.
    #[verifier::allow_in_spec]
    pub fn fg(self, color: Color) -> Style
        returns
            (Style { fg: Some(color), ..self }),
    {
        Style { fg: Some(color), ..self }
    }

    /// This style with the given background colour.
    #[verifier::allow_in_spec]
    pub fn bg(self, color: Color) -> Style
        returns
            (Style { bg: Some(color), ..self }),
    {
        Style { bg: Some(color), ..self }
    }

    /// This style with the given attributes switched on.
    #[verifier::allow_in_spec]
    pub fn add_modifier(self, modifier: u16) -> Style
        returns
            (Style {
                add_modifier: self.add_modifier | modifier,
                sub_modifier: self.sub_modifier & !modifier,
                ..self
            }),
    {
        Style {
            add_modifier: self.add_modifier | modifier,
            sub_modifier: self.sub_modifier & !modifier,
            ..self
        }
    }

    /// The style that has the effect of `self` followed by that of `other`.
    ///
    /// A colour that `other` sets wins; an attribute ends up on or off as `other` says where
    /// `other` speaks of it, and as `self` says elsewhere.
    #[verifier::allow_in_spec]
    pub fn patch(self, other: Style) -> Style
        returns
            (Style {
                fg: if other.fg is Some { other.fg } else { self.fg },
                bg: if other.bg is Some { other.bg } else { self.bg },
                add_modifier: (self.add_modifier & !other.sub_modifier) | other.add_modifier,
                sub_modifier: (self.sub_modifier & !other.add_modifier) | other.sub_modifier,
            }),
    {
        Style {
            fg: if other.fg.is_some() { other.fg } else { self.fg },
            bg: if other.bg.is_some() { other.bg } else { self.bg },
            add_modifier: (self.add_modifier & !other.sub_modifier) | other.add_modifier,
            sub_modifier: (self.sub_modifier & !other.add_modifier) | other.sub_modifier,
        }
    }
}

} // verus!
