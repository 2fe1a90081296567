//! Colour remapping for 8-bit RGBA images.
//!
//! The pixels of an image are grouped by their exact colour; each group can
//! then be recoloured as a whole while every alpha channel stays as it was.
//! The crate holds the decisions of an interactive recolouring session; the
//! terminal and the file system are left to the caller.
//!
//! - [`grid`] holds the pixels, in a buffer of the `image` crate.
//! - [`index`] groups the visible pixels of a grid by colour.
//! - [`hex`] reads a colour from a line of input, and [`trim`] strips the
//!   white space around it.
//! - [`mutate`] turns a line into a decision and applies it to a group.
//! - [`render`] writes the text that presents a group, with a swatch from
//!   the `owo-colors` crate.
//! - [`session`] is the state machine that ties them together.
//! - [`format`] names the pixel formats and the errors.

pub mod color;
pub mod format;
pub mod grid;
pub mod hex;
pub mod index;
pub mod mutate;
pub mod render;
pub mod session;
pub mod trim;
