use vstd::prelude::*;
use crate::cursor::{kind_at, lemma_skip_ws_bounds, skip_ws, span_between};
use crate::error::Failure;
use crate::statement::{
    expected_statement, lemma_let_span, lemma_reassignment_span, lemma_statement_span, spec_statement,
    spec_statement_let, spec_statement_reassignment, Statement,
};
use crate::syntax::{lemma_expr_span, separated, spec_expr, spec_pattern};
use crate::token::{Token, TokenKind};

verus! {

/// Wherever the let form parses, the statement parser returns it as a `Let`
/// statement consuming the same tokens, and its span runs from the first
/// character of the keyword to the `;` inclusive.
pub proof fn law_let_statement(toks: Seq<Token>, pos: int)
    requires
        0 <= pos <= toks.len() <= usize::MAX,
        spec_statement_let(toks, pos) is Ok,
    ensures
        spec_statement_let(toks, pos) matches Ok((l, end)) ==> {
            &&& spec_statement(toks, pos) == Ok::<(Statement, usize), Failure>((Statement::Let(l), end))
            &&& toks[pos].kind == TokenKind::Let
            &&& toks[end - 1].kind == TokenKind::Semicolon
            &&& Statement::Let(l).spec_span() == span_between(toks, pos, end as int)
        },
{
    lemma_let_span(toks, pos);
}

/// Wherever an assignable followed by `= <expr> ;` stands, the reassignment
/// form wins over every later alternative: the result is a `Reassignment`
/// whose span runs from the assignable's first character to the `;`.
pub proof fn law_reassignment_statement(toks: Seq<Token>, pos: int)
    requires
        0 <= pos <= toks.len() <= usize::MAX,
        spec_statement_reassignment(toks, pos) is Ok,
    ensures
        spec_statement_reassignment(toks, pos) matches Ok((r, end)) ==> {
            &&& spec_statement(toks, pos) == Ok::<(Statement, usize), Failure>((Statement::Reassignment(r), end))
            &&& toks[end - 1].kind == TokenKind::Semicolon
            &&& Statement::Reassignment(r).spec_span() == span_between(toks, pos, end as int)
        },
{
    lemma_reassignment_span(toks, pos);
}

/// An expression at `pos` that is not the start of a reassignment becomes an
/// expression statement when `;` follows it (after optional whitespace), with
/// the span from its first character to the `;`; when no `;` follows, the
/// result is `ExpectedStatement` at `pos`.
pub proof fn law_expr_statement(toks: Seq<Token>, pos: int)
    requires
        0 <= pos <= toks.len() <= usize::MAX,
        spec_statement_reassignment(toks, pos) matches Err(f) && !f.committed,
        spec_expr(toks, pos) is Ok,
    ensures
        spec_expr(toks, pos) matches Ok((e, q)) ==> {
            let s = skip_ws(toks, q as int);
            &&& kind_at(toks, s, TokenKind::Semicolon) ==> spec_statement(toks, pos) == Ok::<(Statement, usize), Failure>(
                (Statement::Expr { expr: e, semicolon_token: toks[s] }, (s + 1) as usize),
            ) && span_between(toks, pos, s + 1) == (Statement::Expr {
                expr: e,
                semicolon_token: toks[s],
            }).spec_span()
            &&& !kind_at(toks, s, TokenKind::Semicolon) ==> spec_statement(toks, pos) == Err::<
                (Statement, usize),
                Failure,
            >(expected_statement(toks, pos))
        },
{
    lemma_expr_span(toks, pos);
    lemma_statement_span(toks, pos);
    if let Ok((_, q)) = spec_expr(toks, pos) {
        lemma_skip_ws_bounds(toks, q as int);
    }
}

/// Once the declaration keyword and its separating whitespace (or the end of
/// input) are seen, the let form is committed: the statement parser's result
/// is the let form's, and any failure is that of the let grammar, marked
/// committed, never `ExpectedStatement` nor a later alternative. A bad
/// pattern gives the pattern grammar's own error.
pub proof fn law_let_commits(toks: Seq<Token>, pos: int)
    requires
        0 <= pos <= toks.len() <= usize::MAX,
        kind_at(toks, pos, TokenKind::Let),
        separated(toks, pos),
    ensures
        spec_statement(toks, pos) == (match spec_statement_let(toks, pos) {
            Ok((l, end)) => Ok::<(Statement, usize), Failure>((Statement::Let(l), end)),
            Err(f) => Err(f),
        }),
        spec_statement_let(toks, pos) matches Err(f) ==> f.committed,
        spec_pattern(toks, skip_ws(toks, pos + 1)) matches Err(pf) ==> spec_statement(toks, pos) == Err::<
            (Statement, usize),
            Failure,
        >(Failure { error: pf.error, committed: true }),
{
}

} // verus!
