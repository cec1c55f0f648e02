//! A model of sliding-block parking puzzles on a six-by-six board.
//!
//! A puzzle is a list of cars. Each car covers a straight run of cells.
//! The library reads a puzzle from its line-oriented text form and draws
//! the covered cells as a framed text diagram.

pub mod car;
pub mod lexer;
pub mod number;
pub mod record;
pub mod puzzle;
