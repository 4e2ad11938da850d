//! Soft-wrap text layout for character-cell surfaces.
//!
//! A document is split into rows of Unicode scalar values. Each redraw packs
//! the rows that a viewport shows into display rows of bounded width, one
//! render term for each character, and a cursor position in a row maps to
//! the display column it starts at.

pub mod content;
pub mod cursor;
pub mod paint;
pub mod render;
pub mod viewport;
pub mod width;
pub mod wrap;
