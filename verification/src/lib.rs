//! An execution engine for a two-dimensional, grid-based esoteric programming
//! language. A program is a rectangular grid of single-character symbols; an
//! instruction pointer walks the grid while a per-column array of registers is
//! read and mutated as the pointer moves.
//!
//! [`token`] holds the closed symbol set, [`grid`] the validating builder and
//! the addressable grid, [`parser`] the engine itself, and [`render`] the
//! textual form of output values. Register arithmetic wraps at the 32-bit
//! range, on overflow and on underflow alike; execution ends only when the
//! instruction pointer leaves the bottom of the grid, or on a fatal fault.

pub mod grid;
pub mod parser;
pub mod render;
pub mod token;
