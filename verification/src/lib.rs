//! Gradient colouring of text for ANSI terminals.
//!
//! A line of text is rendered character by character: each character is
//! written right behind the escape sequence that sets its colour. The colour
//! comes from one of two gradients, a linear blend between two colours along
//! the line or a rainbow that a caller supplies as a function of column and
//! row. Colours are written as `#RRGGBB` or as `r,g,b`, and the command
//! line is read into the settings of a run.
//!
//! - [`colors`]: the colour model, its escape sequence, and the parser.
//! - [`gradient`]: the gradient modes and the linear blend.
//! - [`render`]: the line renderer.
//! - [`args`]: the command line.
//! - [`text`]: the character-level building blocks of the others.

pub mod args;
pub mod colors;
pub mod gradient;
pub mod render;
pub mod text;
