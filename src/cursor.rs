use vstd::prelude::*;
use crate::error::{Failure, ParseError};
use crate::span::Span;
use crate::token::{Token, TokenKind};

verus! {

/// The source range a diagnostic at token position `pos` points to: the
/// token there, or a zero-width range at the end of the input.
pub open spec fn span_at(toks: Seq<Token>, pos: int) -> Span {
    if 0 <= pos < toks.len() {
        toks[pos].span
    } else if toks.len() > 0 {
        Span { start: toks.last().span.end, end: toks.last().span.end }
    } else {
        Span { start: 0, end: 0 }
    }
}

/// The range from the first character of token `start` to the last
/// character of token `end - 1`.
pub open spec fn span_between(toks: Seq<Token>, start: int, end: int) -> Span {
    Span { start: toks[start].span.start, end: toks[end - 1].span.end }
}

/// The position after the run of whitespace tokens that starts at `pos`.
pub open spec fn skip_ws(toks: Seq<Token>, pos: int) -> int
    decreases toks.len() - pos,
{
    if 0 <= pos < toks.len() && toks[pos].kind == TokenKind::Whitespace {
        skip_ws(toks, pos + 1)
    } else {
        pos
    }
}

/// True when token `pos` exists and has the given kind.
pub open spec fn kind_at(toks: Seq<Token>, pos: int, kind: TokenKind) -> bool {
    0 <= pos < toks.len() && toks[pos].kind == kind
}

/// Matching one token of a kind: consumes it, or fails without committing.
pub open spec fn spec_token(toks: Seq<Token>, pos: int, kind: TokenKind) -> Result<
    (Token, usize),
    Failure,
> {
    if kind_at(toks, pos, kind) {
        Ok((toks[pos], (pos + 1) as usize))
    } else {
        Err(Failure { error: ParseError::ExpectedToken { kind, span: span_at(toks, pos) }, committed: false })
    }
}

pub proof fn lemma_skip_ws_bounds(toks: Seq<Token>, pos: int)
    requires
        0 <= pos <= toks.len(),
    ensures
        pos <= skip_ws(toks, pos) <= toks.len(),
    decreases toks.len() - pos,
{
    if pos < toks.len() && toks[pos].kind == TokenKind::Whitespace {
        lemma_skip_ws_bounds(toks, pos + 1);
    }
}

pub fn position_span(toks: &[Token], pos: usize) -> (r: Span)
    ensures
        r == span_at(toks@, pos as int),
{
    if pos < toks.len() {
        toks[pos].span
    } else if toks.len() > 0 {
        let e = toks[toks.len() - 1].span.end;
        Span { start: e, end: e }
    } else {
        Span { start: 0, end: 0 }
    }
}

/// Optional whitespace: never fails, skips every whitespace token at `pos`.
pub fn skip_whitespace(toks: &[Token], pos: usize) -> (r: usize)
    requires
        pos <= toks.len(),
    ensures
        r as int == skip_ws(toks@, pos as int),
        pos <= r <= toks.len(),
{
    proof {
        lemma_skip_ws_bounds(toks@, pos as int);
    }
    let mut i = pos;
    while i < toks.len() && toks[i].kind == TokenKind::Whitespace
        invariant
            pos <= i <= toks.len(),
            skip_ws(toks@, i as int) == skip_ws(toks@, pos as int),
        decreases toks.len() - i,
    {
        i = i + 1;
    }
    i
}

pub fn token_is(toks: &[Token], pos: usize, kind: TokenKind) -> (r: bool)
    ensures
        r == kind_at(toks@, pos as int, kind),
{
    pos < toks.len() && toks[pos].kind == kind
}

/// Matches one token of the given kind at `pos`.
pub fn token(toks: &[Token], pos: usize, kind: TokenKind) -> (r: Result<(Token, usize), Failure>)
    requires
        pos <= toks.len(),
    ensures
        r == spec_token(toks@, pos as int, kind),
{
    if token_is(toks, pos, kind) {
        Ok((toks[pos], pos + 1))
    } else {
        Err(Failure { error: ParseError::ExpectedToken { kind, span: position_span(toks, pos) }, committed: false })
    }
}

} // verus!
