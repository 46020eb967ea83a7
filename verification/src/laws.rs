//! What holds of rendering as a whole.

pub mod acceptance;
pub mod blocks;
pub mod codeblocks;
pub mod documents;
pub mod elements;
pub mod frame;
pub mod highlighting;
pub mod inline;
pub mod layout;
pub mod lines;
pub mod lists;
pub mod nesting;
pub mod notions;
pub mod pieces;
pub mod quotes;
pub mod reading;
pub mod sheets;
pub mod styles;
pub mod tables;
pub mod text;
pub mod views;
pub mod writing;
pub mod written;
