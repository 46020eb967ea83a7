//! How a document is to be rendered.

use vstd::prelude::*;

use crate::highlight::{bundled_highlighting, CodeHighlightingView};
use crate::style_sheet::{DefaultStyleSheet, StyleSheet};

verus! {

/// How a document is to be rendered.
#[derive(Debug)]
pub struct Options<S: StyleSheet> {
    /// The styles of the elements.
    pub styles: S,
    /// Whether code blocks in a language that is known are highlighted.
    pub highlight_code: bool,
}

impl<S: StyleSheet> Options<S> {
    /// Rendering in the given styles, with code blocks highlighted.
    pub fn new(styles: S) -> (options: Options<S>)
        ensures
            options == (Options { styles, highlight_code: true }),
    {
        Options { styles, highlight_code: true }
    }

    /// What code blocks are highlighted with, if they are.
    pub open spec fn highlighting(self) -> Option<CodeHighlightingView> {
        if self.highlight_code {
            Some(bundled_highlighting())
        } else {
            None
        }
    }
}

impl Default for Options<DefaultStyleSheet> {
    /// Rendering in the default styles, with code blocks highlighted.
    fn default() -> (options: Options<DefaultStyleSheet>)
        ensures
            options == (Options { styles: DefaultStyleSheet, highlight_code: true }),
    {
        Options::new(DefaultStyleSheet)
    }
}

} // verus!
