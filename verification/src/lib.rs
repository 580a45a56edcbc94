//! Rendering core for editor hover popups.
//!
//! The crate turns structured documentation content (plain text, styled
//! blocks, arrays of blocks, or Markdown) together with positional
//! diagnostics into one flat string in Kakoune's inline face markup, and
//! builds the editor command that displays it.

pub mod editor;
pub mod hover;
pub mod markup;
pub mod text;
pub mod transpile;
