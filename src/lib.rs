//! Turns a heading-delimited text document into a deck of slide files, one
//! file per slide, with an optional document of speaker notes.
pub mod text;
pub mod segment;
pub mod laws;
pub mod render;
pub mod pipeline;
