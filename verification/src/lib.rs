//! A sub-cell progress bar rendering engine for character-cell displays.
//!
//! A continuous fill amount, measured in eighths of a character cell, is
//! turned into a sequence of Unicode block-element glyphs and per-cell
//! colors, for any of four fill directions, with exact boundary behavior.

pub mod block_char;
pub mod block_line;
pub mod color;
pub mod compositor;
pub mod direction;
pub mod easing;
pub mod gradient_range;
pub mod remainder;
pub mod rounding;
