//! A text-mode display driver core: a fixed 16-color palette, the packed
//! attribute byte, and a cursor-advancing writer that turns byte streams
//! into cell writes on a fixed-size character grid.

pub mod color;
pub mod writer;
