use vstd::prelude::*;
use crate::cursor::{kind_at, lemma_skip_ws_bounds, position_span, skip_whitespace, skip_ws, span_at, span_between, token_is};
use crate::error::{commit, spec_commit, Failure, ParseError};
use crate::span::{spec_join, Span};
use crate::token::{Token, TokenKind};

verus! {

/// A binding target: a single name.
#[derive(Clone, Copy, Debug, PartialEq, Eq, Structural)]
pub struct Pattern {
    pub name: Token,
}

/// A type written as a single name.
#[derive(Clone, Copy, Debug, PartialEq, Eq, Structural)]
pub struct Ty {
    pub name: Token,
}

/// The target of a reassignment: a single name.
#[derive(Clone, Copy, Debug, PartialEq, Eq, Structural)]
pub struct Assignable {
    pub name: Token,
}

/// A name or integer literal, optionally called with an empty argument list.
#[derive(Clone, Copy, Debug, PartialEq, Eq)]
pub struct Operand {
    pub head: Token,
    /// The `(` and `)` of a call, when there is one.
    pub call: Option<(Token, Token)>,
}

/// An expression: operands joined by left-associative `+`.
#[derive(Debug, PartialEq, Eq)]
pub enum Expr {
    Operand(Operand),
    Add { lhs: Box<Expr>, plus_token: Token, rhs: Operand },
}

/// A unit struct declaration `struct Name;`.
#[derive(Clone, Copy, Debug, PartialEq, Eq, Structural)]
pub struct Item {
    pub struct_token: Token,
    pub name: Token,
    pub semicolon_token: Token,
}

impl Pattern {
    pub open spec fn spec_span(&self) -> Span {
        self.name.span
    }

    pub fn span(&self) -> (r: Span)
        ensures
            r == self.spec_span(),
    {
        self.name.span
    }
}

impl Ty {
    pub open spec fn spec_span(&self) -> Span {
        self.name.span
    }

    pub fn span(&self) -> (r: Span)
        ensures
            r == self.spec_span(),
    {
        self.name.span
    }
}

impl Assignable {
    pub open spec fn spec_span(&self) -> Span {
        self.name.span
    }

    pub fn span(&self) -> (r: Span)
        ensures
            r == self.spec_span(),
    {
        self.name.span
    }
}

impl Operand {
    pub open spec fn spec_span(&self) -> Span {
        match self.call {
            Some((_, rparen)) => spec_join(self.head.span, rparen.span),
            None => self.head.span,
        }
    }

    pub fn span(&self) -> (r: Span)
        ensures
            r == self.spec_span(),
    {
        match self.call {
            Some((_, rparen)) => Span::join(self.head.span, rparen.span),
            None => self.head.span,
        }
    }
}

impl Expr {
    pub open spec fn spec_span(&self) -> Span
        decreases self,
    {
        match self {
            Expr::Operand(o) => o.spec_span(),
            Expr::Add { lhs, rhs, .. } => spec_join(lhs.spec_span(), rhs.spec_span()),
        }
    }

    pub fn span(&self) -> (r: Span)
        ensures
            r == self.spec_span(),
        decreases self,
    {
        match self {
            Expr::Operand(o) => o.span(),
            Expr::Add { lhs, rhs, .. } => Span::join(lhs.span(), rhs.span()),
        }
    }
}

impl Item {
    pub open spec fn spec_span(&self) -> Span {
        spec_join(self.struct_token.span, self.semicolon_token.span)
    }

    pub fn span(&self) -> (r: Span)
        ensures
            r == self.spec_span(),
    {
        Span::join(self.struct_token.span, self.semicolon_token.span)
    }
}

/// A keyword at `pos` is separated from what follows: by whitespace, or by
/// the end of the input.
pub open spec fn separated(toks: Seq<Token>, pos: int) -> bool {
    kind_at(toks, pos + 1, TokenKind::Whitespace) || pos + 1 == toks.len()
}

pub open spec fn spec_pattern(toks: Seq<Token>, pos: int) -> Result<(Pattern, usize), Failure> {
    if kind_at(toks, pos, TokenKind::Ident) {
        Ok((Pattern { name: toks[pos] }, (pos + 1) as usize))
    } else {
        Err(Failure { error: ParseError::ExpectedPattern { span: span_at(toks, pos) }, committed: false })
    }
}

pub open spec fn spec_ty(toks: Seq<Token>, pos: int) -> Result<(Ty, usize), Failure> {
    if kind_at(toks, pos, TokenKind::Ident) {
        Ok((Ty { name: toks[pos] }, (pos + 1) as usize))
    } else {
        Err(Failure { error: ParseError::ExpectedType { span: span_at(toks, pos) }, committed: false })
    }
}

pub open spec fn spec_assignable(toks: Seq<Token>, pos: int) -> Result<(Assignable, usize), Failure> {
    if kind_at(toks, pos, TokenKind::Ident) {
        Ok((Assignable { name: toks[pos] }, (pos + 1) as usize))
    } else {
        Err(Failure { error: ParseError::ExpectedAssignable { span: span_at(toks, pos) }, committed: false })
    }
}

/// An operand; once a call's `(` is seen, a missing `)` is a committed error.
pub open spec fn spec_operand(toks: Seq<Token>, pos: int) -> Result<(Operand, usize), Failure> {
    if kind_at(toks, pos, TokenKind::Ident) || kind_at(toks, pos, TokenKind::Int) {
        if kind_at(toks, pos + 1, TokenKind::LParen) {
            let r = skip_ws(toks, pos + 2);
            if kind_at(toks, r, TokenKind::RParen) {
                Ok((Operand { head: toks[pos], call: Some((toks[pos + 1], toks[r])) }, (r + 1) as usize))
            } else {
                Err(Failure {
                    error: ParseError::ExpectedToken { kind: TokenKind::RParen, span: span_at(toks, r) },
                    committed: true,
                })
            }
        } else {
            Ok((Operand { head: toks[pos], call: None }, (pos + 1) as usize))
        }
    } else {
        Err(Failure { error: ParseError::ExpectedExpr { span: span_at(toks, pos) }, committed: false })
    }
}

/// Continues an expression whose left part `lhs` ends at `pos` with further
/// `+ operand` pieces; an operand missing after `+` is a committed error.
pub open spec fn spec_expr_tail(toks: Seq<Token>, lhs: Expr, pos: int) -> Result<(Expr, usize), Failure>
    decreases toks.len() - pos,
    via expr_tail_decreases
{
    let j = skip_ws(toks, pos);
    if kind_at(toks, j, TokenKind::Plus) {
        match spec_operand(toks, skip_ws(toks, j + 1)) {
            Ok((rhs, q)) => if q > pos {
                spec_expr_tail(toks, Expr::Add { lhs: Box::new(lhs), plus_token: toks[j], rhs }, q as int)
            } else {
                Ok((lhs, pos as usize))
            },
            Err(f) => Err(spec_commit(f)),
        }
    } else {
        Ok((lhs, pos as usize))
    }
}

#[via_fn]
proof fn expr_tail_decreases(toks: Seq<Token>, lhs: Expr, pos: int) {
    if 0 <= pos <= toks.len() {
        lemma_skip_ws_bounds(toks, pos);
        let j = skip_ws(toks, pos);
    }
}

pub open spec fn spec_expr(toks: Seq<Token>, pos: int) -> Result<(Expr, usize), Failure> {
    match spec_operand(toks, pos) {
        Ok((o, q)) => spec_expr_tail(toks, Expr::Operand(o), q as int),
        Err(f) => Err(f),
    }
}

/// `struct` (separated) commits; then a name and `;` must follow.
pub open spec fn spec_item(toks: Seq<Token>, pos: int) -> Result<(Item, usize), Failure> {
    if !kind_at(toks, pos, TokenKind::Struct) {
        Err(Failure {
            error: ParseError::ExpectedToken { kind: TokenKind::Struct, span: span_at(toks, pos) },
            committed: false,
        })
    } else if !separated(toks, pos) {
        Err(Failure {
            error: ParseError::ExpectedToken { kind: TokenKind::Whitespace, span: span_at(toks, pos + 1) },
            committed: false,
        })
    } else {
        let n = skip_ws(toks, pos + 1);
        if !kind_at(toks, n, TokenKind::Ident) {
            Err(Failure {
                error: ParseError::ExpectedToken { kind: TokenKind::Ident, span: span_at(toks, n) },
                committed: true,
            })
        } else {
            let s = skip_ws(toks, n + 1);
            if !kind_at(toks, s, TokenKind::Semicolon) {
                Err(Failure {
                    error: ParseError::ExpectedToken { kind: TokenKind::Semicolon, span: span_at(toks, s) },
                    committed: true,
                })
            } else {
                Ok((Item { struct_token: toks[pos], name: toks[n], semicolon_token: toks[s] }, (s + 1) as usize))
            }
        }
    }
}

pub proof fn lemma_operand_span(toks: Seq<Token>, pos: int)
    requires
        0 <= pos <= toks.len() <= usize::MAX,
    ensures
        spec_operand(toks, pos) matches Ok((o, q)) ==> pos < q <= toks.len() && o.spec_span()
            == span_between(toks, pos, q as int),
{
    if kind_at(toks, pos + 1, TokenKind::LParen) {
        lemma_skip_ws_bounds(toks, pos + 2);
    }
}

pub proof fn lemma_expr_tail_span(toks: Seq<Token>, start: int, lhs: Expr, pos: int)
    requires
        0 <= start < pos <= toks.len() <= usize::MAX,
        lhs.spec_span() == span_between(toks, start, pos),
    ensures
        spec_expr_tail(toks, lhs, pos) matches Ok((e, q)) ==> pos <= q <= toks.len() && e.spec_span()
            == span_between(toks, start, q as int),
    decreases toks.len() - pos,
{
    lemma_skip_ws_bounds(toks, pos);
    let j = skip_ws(toks, pos);
    if kind_at(toks, j, TokenKind::Plus) {
        let k = skip_ws(toks, j + 1);
        lemma_skip_ws_bounds(toks, j + 1);
        lemma_operand_span(toks, k);
        if let Ok((rhs, q)) = spec_operand(toks, k) {
            let next = Expr::Add { lhs: Box::new(lhs), plus_token: toks[j], rhs };
            assert(next.spec_span() == span_between(toks, start, q as int));
            lemma_expr_tail_span(toks, start, next, q as int);
        }
    }
}

pub proof fn lemma_expr_span(toks: Seq<Token>, pos: int)
    requires
        0 <= pos <= toks.len() <= usize::MAX,
    ensures
        spec_expr(toks, pos) matches Ok((e, q)) ==> pos < q <= toks.len() && e.spec_span()
            == span_between(toks, pos, q as int),
{
    lemma_operand_span(toks, pos);
    if let Ok((o, q)) = spec_operand(toks, pos) {
        lemma_expr_tail_span(toks, pos, Expr::Operand(o), q as int);
    }
}

pub proof fn lemma_item_span(toks: Seq<Token>, pos: int)
    requires
        0 <= pos <= toks.len() <= usize::MAX,
    ensures
        spec_item(toks, pos) matches Ok((it, q)) ==> pos < q <= toks.len() && it.spec_span()
            == span_between(toks, pos, q as int),
{
    if kind_at(toks, pos, TokenKind::Struct) && separated(toks, pos) {
        lemma_skip_ws_bounds(toks, pos + 1);
        let n = skip_ws(toks, pos + 1);
        if kind_at(toks, n, TokenKind::Ident) {
            lemma_skip_ws_bounds(toks, n + 1);
        }
    }
}

/// Whether the keyword at `pos` is followed by whitespace or ends the input.
pub fn keyword_separated(toks: &[Token], pos: usize) -> (r: bool)
    requires
        pos < toks.len(),
    ensures
        r == separated(toks@, pos as int),
{
    pos + 1 == toks.len() || token_is(toks, pos + 1, TokenKind::Whitespace)
}

pub fn pattern(toks: &[Token], pos: usize) -> (r: Result<(Pattern, usize), Failure>)
    requires
        pos <= toks.len(),
    ensures
        r == spec_pattern(toks@, pos as int),
{
    if token_is(toks, pos, TokenKind::Ident) {
        Ok((Pattern { name: toks[pos] }, pos + 1))
    } else {
        Err(Failure { error: ParseError::ExpectedPattern { span: position_span(toks, pos) }, committed: false })
    }
}

pub fn ty(toks: &[Token], pos: usize) -> (r: Result<(Ty, usize), Failure>)
    requires
        pos <= toks.len(),
    ensures
        r == spec_ty(toks@, pos as int),
{
    if token_is(toks, pos, TokenKind::Ident) {
        Ok((Ty { name: toks[pos] }, pos + 1))
    } else {
        Err(Failure { error: ParseError::ExpectedType { span: position_span(toks, pos) }, committed: false })
    }
}

pub fn assignable(toks: &[Token], pos: usize) -> (r: Result<(Assignable, usize), Failure>)
    requires
        pos <= toks.len(),
    ensures
        r == spec_assignable(toks@, pos as int),
{
    if token_is(toks, pos, TokenKind::Ident) {
        Ok((Assignable { name: toks[pos] }, pos + 1))
    } else {
        Err(Failure { error: ParseError::ExpectedAssignable { span: position_span(toks, pos) }, committed: false })
    }
}

pub fn operand(toks: &[Token], pos: usize) -> (r: Result<(Operand, usize), Failure>)
    requires
        pos <= toks.len(),
    ensures
        r == spec_operand(toks@, pos as int),
{
    if token_is(toks, pos, TokenKind::Ident) || token_is(toks, pos, TokenKind::Int) {
        if token_is(toks, pos + 1, TokenKind::LParen) {
            let r = skip_whitespace(toks, pos + 2);
            if token_is(toks, r, TokenKind::RParen) {
                Ok((Operand { head: toks[pos], call: Some((toks[pos + 1], toks[r])) }, r + 1))
            } else {
                Err(Failure {
                    error: ParseError::ExpectedToken { kind: TokenKind::RParen, span: position_span(toks, r) },
                    committed: true,
                })
            }
        } else {
            Ok((Operand { head: toks[pos], call: None }, pos + 1))
        }
    } else {
        Err(Failure { error: ParseError::ExpectedExpr { span: position_span(toks, pos) }, committed: false })
    }
}

/// Parses an expression: an operand followed by any number of `+ operand`.
pub fn expr(toks: &[Token], pos: usize) -> (r: Result<(Expr, usize), Failure>)
    requires
        pos <= toks.len(),
    ensures
        r == spec_expr(toks@, pos as int),
{
    let (first, q0) = match operand(toks, pos) {
        Ok(ok) => ok,
        Err(f) => return Err(f),
    };
    proof {
        lemma_operand_span(toks@, pos as int);
    }
    let ghost target = spec_expr_tail(toks@, Expr::Operand(first), q0 as int);
    let mut lhs = Expr::Operand(first);
    let mut p = q0;
    loop
        invariant
            p <= toks.len(),
            spec_expr_tail(toks@, lhs, p as int) == target,
            target == spec_expr(toks@, pos as int),
        decreases toks.len() - p,
    {
        let j = skip_whitespace(toks, p);
        if token_is(toks, j, TokenKind::Plus) {
            let k = skip_whitespace(toks, j + 1);
            proof {
                lemma_operand_span(toks@, k as int);
            }
            match operand(toks, k) {
                Ok((rhs, q)) => {
                    lhs = Expr::Add { lhs: Box::new(lhs), plus_token: toks[j], rhs };
                    p = q;
                },
                Err(f) => return Err(commit(f)),
            }
        } else {
            return Ok((lhs, p));
        }
    }
}

/// Parses a unit struct declaration.
pub fn item(toks: &[Token], pos: usize) -> (r: Result<(Item, usize), Failure>)
    requires
        pos <= toks.len(),
    ensures
        r == spec_item(toks@, pos as int),
{
    if !token_is(toks, pos, TokenKind::Struct) {
        return Err(Failure {
            error: ParseError::ExpectedToken { kind: TokenKind::Struct, span: position_span(toks, pos) },
            committed: false,
        });
    }
    if !keyword_separated(toks, pos) {
        return Err(Failure {
            error: ParseError::ExpectedToken { kind: TokenKind::Whitespace, span: position_span(toks, pos + 1) },
            committed: false,
        });
    }
    let n = skip_whitespace(toks, pos + 1);
    if !token_is(toks, n, TokenKind::Ident) {
        return Err(Failure {
            error: ParseError::ExpectedToken { kind: TokenKind::Ident, span: position_span(toks, n) },
            committed: true,
        });
    }
    let s = skip_whitespace(toks, n + 1);
    if !token_is(toks, s, TokenKind::Semicolon) {
        return Err(Failure {
            error: ParseError::ExpectedToken { kind: TokenKind::Semicolon, span: position_span(toks, s) },
            committed: true,
        });
    }
    Ok((Item { struct_token: toks[pos], name: toks[n], semicolon_token: toks[s] }, s + 1))
}

} // verus!
