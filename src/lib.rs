//! Statement-level parsing for a block-structured language: given a stream of
//! lexed tokens, decide which statement form stands at a position and build
//! its syntax node, with commit/backtrack discipline and exact spans.

pub mod span;
pub mod token;
pub mod error;
pub mod cursor;
pub mod syntax;
pub mod statement;
pub mod laws;
