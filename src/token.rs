use vstd::prelude::*;
use crate::span::Span;

verus! {

/// The lexical categories the statement grammar distinguishes.
#[derive(Clone, Copy, Debug, PartialEq, Eq, Structural)]
pub enum TokenKind {
    /// The declaration keyword `let`.
    Let,
    /// The item keyword `struct`.
    Struct,
    Ident,
    Int,
    Colon,
    Eq,
    Semicolon,
    Plus,
    LParen,
    RParen,
    /// A run of whitespace or comments.
    Whitespace,
}

/// A lexed token: its kind and the source range it covers (trivia excluded).
#[derive(Clone, Copy, Debug, PartialEq, Eq, Structural)]
pub struct Token {
    pub kind: TokenKind,
    pub span: Span,
}

impl Token {
    pub fn new(kind: TokenKind, start: usize, end: usize) -> (r: Token)
        ensures
            r.kind == kind,
            r.span == (Span { start, end }),
    {
        Token { kind, span: Span { start, end } }
    }
}

} // verus!
