use vstd::prelude::*;
use crate::cursor::{kind_at, lemma_skip_ws_bounds, position_span, skip_whitespace, skip_ws, span_at, span_between, token_is};
use crate::error::{commit, spec_commit, Failure, ParseError};
use crate::span::{spec_join, Span};
use crate::syntax::{
    assignable, expr, item, keyword_separated, lemma_expr_span, lemma_item_span, pattern, separated,
    spec_assignable, spec_expr, spec_item, spec_pattern, spec_ty, ty, Assignable, Expr, Item, Pattern, Ty,
};
use crate::token::{Token, TokenKind};

verus! {

/// One statement: exactly one of the four forms.
#[derive(Debug, PartialEq, Eq)]
pub enum Statement {
    Let(StatementLet),
    Reassignment(StatementReassignment),
    Item(Item),
    /// A bare expression terminated by `;`.
    Expr { expr: Expr, semicolon_token: Token },
}

/// `let <pattern> [: <type>] = <expr> ;`
#[derive(Debug, PartialEq, Eq)]
pub struct StatementLet {
    pub let_token: Token,
    pub pattern: Pattern,
    /// The `:` and the type, present exactly when the source annotates one.
    pub ty: Option<(Token, Ty)>,
    pub eq_token: Token,
    pub expr: Expr,
    pub semicolon_token: Token,
}

/// `<assignable> = <expr> ;`
#[derive(Debug, PartialEq, Eq)]
pub struct StatementReassignment {
    pub assignable: Assignable,
    pub eq_token: Token,
    pub expr: Expr,
    pub semicolon_token: Token,
}

impl StatementLet {
    pub open spec fn spec_span(&self) -> Span {
        spec_join(self.let_token.span, self.semicolon_token.span)
    }

    pub fn span(&self) -> (r: Span)
        ensures
            r == self.spec_span(),
    {
        Span::join(self.let_token.span, self.semicolon_token.span)
    }
}

impl StatementReassignment {
    pub open spec fn spec_span(&self) -> Span {
        spec_join(self.assignable.spec_span(), self.semicolon_token.span)
    }

    pub fn span(&self) -> (r: Span)
        ensures
            r == self.spec_span(),
    {
        Span::join(self.assignable.span(), self.semicolon_token.span)
    }
}

impl Statement {
    pub open spec fn spec_span(&self) -> Span {
        match self {
            Statement::Let(s) => s.spec_span(),
            Statement::Reassignment(s) => s.spec_span(),
            Statement::Item(i) => i.spec_span(),
            Statement::Expr { expr, semicolon_token } => spec_join(expr.spec_span(), semicolon_token.span),
        }
    }

    pub fn span(&self) -> (r: Span)
        ensures
            r == self.spec_span(),
    {
        match self {
            Statement::Let(s) => s.span(),
            Statement::Reassignment(s) => s.span(),
            Statement::Item(i) => i.span(),
            Statement::Expr { expr, semicolon_token } => Span::join(expr.span(), semicolon_token.span),
        }
    }
}

/// The failure reported when no statement form matches at `pos`.
pub open spec fn expected_statement(toks: Seq<Token>, pos: int) -> Failure {
    Failure { error: ParseError::ExpectedStatement { span: span_at(toks, pos) }, committed: false }
}

/// The optional `: <type>` annotation at `pos`, with the whitespace after it.
pub open spec fn spec_type_annotation(toks: Seq<Token>, pos: int) -> Result<
    (Option<(Token, Ty)>, usize),
    Failure,
> {
    if kind_at(toks, pos, TokenKind::Colon) {
        match spec_ty(toks, skip_ws(toks, pos + 1)) {
            Ok((t, q)) => Ok((Some((toks[pos], t)), skip_ws(toks, q as int) as usize)),
            Err(f) => Err(f),
        }
    } else {
        Ok((None, pos as usize))
    }
}

/// `= <expr> ;` at `pos`: the `=`, the expression, the `;` and the position
/// after it. A missing `=` is not committed; every failure after it is.
pub open spec fn spec_assign_tail(toks: Seq<Token>, pos: int) -> Result<(Token, Expr, Token, usize), Failure> {
    if !kind_at(toks, pos, TokenKind::Eq) {
        Err(Failure { error: ParseError::ExpectedToken { kind: TokenKind::Eq, span: span_at(toks, pos) }, committed: false })
    } else {
        match spec_expr(toks, skip_ws(toks, pos + 1)) {
            Err(f) => Err(spec_commit(f)),
            Ok((e, q)) => {
                let s = skip_ws(toks, q as int);
                if kind_at(toks, s, TokenKind::Semicolon) {
                    Ok((toks[pos], e, toks[s], (s + 1) as usize))
                } else {
                    Err(Failure {
                        error: ParseError::ExpectedToken { kind: TokenKind::Semicolon, span: span_at(toks, s) },
                        committed: true,
                    })
                }
            },
        }
    }
}

/// The let form. It commits once the keyword and its separating whitespace
/// (or the end of input) are seen: every later failure is committed.
pub open spec fn spec_statement_let(toks: Seq<Token>, pos: int) -> Result<(StatementLet, usize), Failure> {
    if !kind_at(toks, pos, TokenKind::Let) {
        Err(Failure { error: ParseError::ExpectedToken { kind: TokenKind::Let, span: span_at(toks, pos) }, committed: false })
    } else if !separated(toks, pos) {
        Err(Failure {
            error: ParseError::ExpectedToken { kind: TokenKind::Whitespace, span: span_at(toks, pos + 1) },
            committed: false,
        })
    } else {
        match spec_pattern(toks, skip_ws(toks, pos + 1)) {
            Err(f) => Err(spec_commit(f)),
            Ok((pattern, p)) => match spec_type_annotation(toks, skip_ws(toks, p as int)) {
                Err(f) => Err(spec_commit(f)),
                Ok((ty, a)) => match spec_assign_tail(toks, a as int) {
                    Err(f) => Err(spec_commit(f)),
                    Ok((eq_token, expr, semicolon_token, end)) => Ok(
                        (StatementLet { let_token: toks[pos], pattern, ty, eq_token, expr, semicolon_token }, end),
                    ),
                },
            },
        }
    }
}

/// The reassignment form; it commits only once the `=` is seen.
pub open spec fn spec_statement_reassignment(toks: Seq<Token>, pos: int) -> Result<
    (StatementReassignment, usize),
    Failure,
> {
    match spec_assignable(toks, pos) {
        Err(f) => Err(f),
        Ok((target, p)) => match spec_assign_tail(toks, skip_ws(toks, p as int)) {
            Err(f) => Err(f),
            Ok((eq_token, expr, semicolon_token, end)) => Ok(
                (StatementReassignment { assignable: target, eq_token, expr, semicolon_token }, end),
            ),
        },
    }
}

/// The bare-expression form. Its failures never commit, even where the
/// expression grammar itself had committed.
pub open spec fn spec_expr_statement(toks: Seq<Token>, pos: int) -> Result<(Statement, usize), Failure> {
    match spec_expr(toks, pos) {
        Err(f) => Err(Failure { error: f.error, committed: false }),
        Ok((e, q)) => {
            let s = skip_ws(toks, q as int);
            if kind_at(toks, s, TokenKind::Semicolon) {
                Ok((Statement::Expr { expr: e, semicolon_token: toks[s] }, (s + 1) as usize))
            } else {
                Err(Failure {
                    error: ParseError::ExpectedToken { kind: TokenKind::Semicolon, span: span_at(toks, s) },
                    committed: false,
                })
            }
        },
    }
}

/// The dispatcher: reassignment, let, item, then bare expression. The first
/// alternative that succeeds wins; a committed failure ends the search and is
/// passed on as it is; when all fail uncommitted the result is
/// `ExpectedStatement` at `pos`.
pub open spec fn spec_statement(toks: Seq<Token>, pos: int) -> Result<(Statement, usize), Failure> {
    match spec_statement_reassignment(toks, pos) {
        Ok((s, e)) => Ok((Statement::Reassignment(s), e)),
        Err(f) => if f.committed {
            Err(f)
        } else {
            match spec_statement_let(toks, pos) {
                Ok((s, e)) => Ok((Statement::Let(s), e)),
                Err(f) => if f.committed {
                    Err(f)
                } else {
                    match spec_item(toks, pos) {
                        Ok((i, e)) => Ok((Statement::Item(i), e)),
                        Err(f) => if f.committed {
                            Err(f)
                        } else {
                            match spec_expr_statement(toks, pos) {
                                Ok(r) => Ok(r),
                                Err(_) => Err(expected_statement(toks, pos)),
                            }
                        },
                    }
                },
            }
        },
    }
}

fn type_annotation(toks: &[Token], pos: usize) -> (r: Result<(Option<(Token, Ty)>, usize), Failure>)
    requires
        pos <= toks.len(),
    ensures
        r == spec_type_annotation(toks@, pos as int),
        r matches Ok((_, a)) ==> a <= toks.len(),
{
    if token_is(toks, pos, TokenKind::Colon) {
        let k = skip_whitespace(toks, pos + 1);
        match ty(toks, k) {
            Ok((t, q)) => {
                let a = skip_whitespace(toks, q);
                Ok((Some((toks[pos], t)), a))
            },
            Err(f) => Err(f),
        }
    } else {
        Ok((None, pos))
    }
}

fn assign_tail(toks: &[Token], pos: usize) -> (r: Result<(Token, Expr, Token, usize), Failure>)
    requires
        pos <= toks.len(),
    ensures
        r == spec_assign_tail(toks@, pos as int),
{
    if !token_is(toks, pos, TokenKind::Eq) {
        return Err(Failure {
            error: ParseError::ExpectedToken { kind: TokenKind::Eq, span: position_span(toks, pos) },
            committed: false,
        });
    }
    let k = skip_whitespace(toks, pos + 1);
    proof {
        lemma_expr_span(toks@, k as int);
    }
    match expr(toks, k) {
        Err(f) => Err(commit(f)),
        Ok((e, q)) => {
            let s = skip_whitespace(toks, q);
            if token_is(toks, s, TokenKind::Semicolon) {
                Ok((toks[pos], e, toks[s], s + 1))
            } else {
                Err(Failure {
                    error: ParseError::ExpectedToken { kind: TokenKind::Semicolon, span: position_span(toks, s) },
                    committed: true,
                })
            }
        },
    }
}

/// Parses the let form at `pos`: `let <pattern> [: <type>] = <expr> ;`.
pub fn statement_let(toks: &[Token], pos: usize) -> (r: Result<(StatementLet, usize), Failure>)
    requires
        pos <= toks.len(),
    ensures
        r == spec_statement_let(toks@, pos as int),
        r matches Ok((l, end)) ==> pos < end <= toks.len() && l.spec_span() == span_between(toks@, pos as int, end as int),
{
    proof {
        lemma_let_span(toks@, pos as int);
    }
    if !token_is(toks, pos, TokenKind::Let) {
        return Err(Failure {
            error: ParseError::ExpectedToken { kind: TokenKind::Let, span: position_span(toks, pos) },
            committed: false,
        });
    }
    if !keyword_separated(toks, pos) {
        return Err(Failure {
            error: ParseError::ExpectedToken { kind: TokenKind::Whitespace, span: position_span(toks, pos + 1) },
            committed: false,
        });
    }
    let k = skip_whitespace(toks, pos + 1);
    let (pat, p) = match pattern(toks, k) {
        Ok(ok) => ok,
        Err(f) => return Err(commit(f)),
    };
    let j = skip_whitespace(toks, p);
    let (annotation, a) = match type_annotation(toks, j) {
        Ok(ok) => ok,
        Err(f) => return Err(commit(f)),
    };
    match assign_tail(toks, a) {
        Err(f) => Err(commit(f)),
        Ok((eq_token, e, semicolon_token, end)) => Ok((
            StatementLet { let_token: toks[pos], pattern: pat, ty: annotation, eq_token, expr: e, semicolon_token },
            end,
        )),
    }
}

/// Parses the reassignment form at `pos`: `<assignable> = <expr> ;`.
pub fn statement_reassignment(toks: &[Token], pos: usize) -> (r: Result<(StatementReassignment, usize), Failure>)
    requires
        pos <= toks.len(),
    ensures
        r == spec_statement_reassignment(toks@, pos as int),
        r matches Ok((s, end)) ==> pos < end <= toks.len() && s.spec_span() == span_between(toks@, pos as int, end as int),
{
    proof {
        lemma_reassignment_span(toks@, pos as int);
    }
    let (target, p) = match assignable(toks, pos) {
        Ok(ok) => ok,
        Err(f) => return Err(f),
    };
    let j = skip_whitespace(toks, p);
    match assign_tail(toks, j) {
        Err(f) => Err(f),
        Ok((eq_token, e, semicolon_token, end)) => Ok((
            StatementReassignment { assignable: target, eq_token, expr: e, semicolon_token },
            end,
        )),
    }
}

fn expr_statement(toks: &[Token], pos: usize) -> (r: Result<(Statement, usize), Failure>)
    requires
        pos <= toks.len(),
    ensures
        r == spec_expr_statement(toks@, pos as int),
{
    proof {
        lemma_expr_span(toks@, pos as int);
    }
    match expr(toks, pos) {
        Err(f) => Err(Failure { error: f.error, committed: false }),
        Ok((e, q)) => {
            let s = skip_whitespace(toks, q);
            if token_is(toks, s, TokenKind::Semicolon) {
                Ok((Statement::Expr { expr: e, semicolon_token: toks[s] }, s + 1))
            } else {
                Err(Failure {
                    error: ParseError::ExpectedToken { kind: TokenKind::Semicolon, span: position_span(toks, s) },
                    committed: false,
                })
            }
        },
    }
}

/// Parses one statement at `pos`, trying reassignment, let, item and bare
/// expression in that order. On success the position after the statement's
/// `;` comes back with the node; nothing else is consumed.
pub fn statement(toks: &[Token], pos: usize) -> (r: Result<(Statement, usize), Failure>)
    requires
        pos <= toks.len(),
    ensures
        r == spec_statement(toks@, pos as int),
        r matches Ok((s, end)) ==> pos < end <= toks.len() && s.spec_span() == span_between(toks@, pos as int, end as int),
{
    proof {
        lemma_statement_span(toks@, pos as int);
    }
    match statement_reassignment(toks, pos) {
        Ok((s, e)) => return Ok((Statement::Reassignment(s), e)),
        Err(f) => if f.committed {
            return Err(f);
        },
    }
    match statement_let(toks, pos) {
        Ok((s, e)) => return Ok((Statement::Let(s), e)),
        Err(f) => if f.committed {
            return Err(f);
        },
    }
    match item(toks, pos) {
        Ok((i, e)) => return Ok((Statement::Item(i), e)),
        Err(f) => if f.committed {
            return Err(f);
        },
    }
    match expr_statement(toks, pos) {
        Ok(r) => Ok(r),
        Err(_) => Err(Failure { error: ParseError::ExpectedStatement { span: position_span(toks, pos) }, committed: false }),
    }
}

proof fn lemma_assign_tail_span(toks: Seq<Token>, pos: int)
    requires
        0 <= pos <= toks.len() <= usize::MAX,
    ensures
        spec_assign_tail(toks, pos) matches Ok((eq_token, _, semicolon_token, end)) ==> pos < end
            <= toks.len() && eq_token == toks[pos] && semicolon_token == toks[end - 1],
{
    if kind_at(toks, pos, TokenKind::Eq) {
        lemma_skip_ws_bounds(toks, pos + 1);
        let k = skip_ws(toks, pos + 1);
        lemma_expr_span(toks, k);
        if let Ok((_, q)) = spec_expr(toks, k) {
            lemma_skip_ws_bounds(toks, q as int);
        }
    }
}

/// A parsed let statement covers exactly the tokens it consumed.
pub proof fn lemma_let_span(toks: Seq<Token>, pos: int)
    requires
        0 <= pos <= toks.len() <= usize::MAX,
    ensures
        spec_statement_let(toks, pos) matches Ok((l, end)) ==> pos < end <= toks.len() && l.spec_span()
            == span_between(toks, pos, end as int),
{
    if kind_at(toks, pos, TokenKind::Let) && separated(toks, pos) {
        lemma_skip_ws_bounds(toks, pos + 1);
        if let Ok((_, p)) = spec_pattern(toks, skip_ws(toks, pos + 1)) {
            lemma_skip_ws_bounds(toks, p as int);
            let j = skip_ws(toks, p as int);
            if kind_at(toks, j, TokenKind::Colon) {
                lemma_skip_ws_bounds(toks, j + 1);
                if let Ok((_, q)) = spec_ty(toks, skip_ws(toks, j + 1)) {
                    lemma_skip_ws_bounds(toks, q as int);
                }
            }
            if let Ok((_, a)) = spec_type_annotation(toks, j) {
                lemma_assign_tail_span(toks, a as int);
            }
        }
    }
}

/// A parsed reassignment covers exactly the tokens it consumed.
pub proof fn lemma_reassignment_span(toks: Seq<Token>, pos: int)
    requires
        0 <= pos <= toks.len() <= usize::MAX,
    ensures
        spec_statement_reassignment(toks, pos) matches Ok((r, end)) ==> pos < end <= toks.len()
            && r.spec_span() == span_between(toks, pos, end as int),
{
    if let Ok((_, p)) = spec_assignable(toks, pos) {
        lemma_skip_ws_bounds(toks, p as int);
        lemma_assign_tail_span(toks, skip_ws(toks, p as int));
    }
}

proof fn lemma_expr_statement_span(toks: Seq<Token>, pos: int)
    requires
        0 <= pos <= toks.len() <= usize::MAX,
    ensures
        spec_expr_statement(toks, pos) matches Ok((s, end)) ==> pos < end <= toks.len() && s.spec_span()
            == span_between(toks, pos, end as int),
{
    lemma_expr_span(toks, pos);
    if let Ok((_, q)) = spec_expr(toks, pos) {
        lemma_skip_ws_bounds(toks, q as int);
    }
}

/// A parsed statement, whatever its form, covers exactly the tokens it
/// consumed: its span runs from the first character of its first token to
/// the last character of its last, which is also the join of the spans of
/// the statement's first and last parts.
pub proof fn lemma_statement_span(toks: Seq<Token>, pos: int)
    requires
        0 <= pos <= toks.len() <= usize::MAX,
    ensures
        spec_statement(toks, pos) matches Ok((s, end)) ==> pos < end <= toks.len() && s.spec_span()
            == span_between(toks, pos, end as int),
{
    lemma_reassignment_span(toks, pos);
    lemma_let_span(toks, pos);
    lemma_item_span(toks, pos);
    lemma_expr_statement_span(toks, pos);
}

} // verus!
