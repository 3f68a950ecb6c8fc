use vstd::prelude::*;
use crate::span::Span;
use crate::token::TokenKind;

verus! {

/// What a parse attempt expected and where it looked for it.
#[derive(Clone, Copy, Debug, PartialEq, Eq, Structural)]
pub enum ParseError {
    /// No statement alternative matched at the dispatch position.
    ExpectedStatement { span: Span },
    /// A token of the given kind was required here.
    ExpectedToken { kind: TokenKind, span: Span },
    ExpectedPattern { span: Span },
    ExpectedType { span: Span },
    ExpectedAssignable { span: Span },
    ExpectedExpr { span: Span },
}

/// A failed parse attempt. `committed` tells an enclosing alternation whether
/// it may still try a sibling alternative (`false`) or must pass the error on.
#[derive(Clone, Copy, Debug, PartialEq, Eq, Structural)]
pub struct Failure {
    pub error: ParseError,
    pub committed: bool,
}

/// The same failure, marked past the point of no return.
pub open spec fn spec_commit(f: Failure) -> Failure {
    Failure { error: f.error, committed: true }
}

pub fn commit(f: Failure) -> (r: Failure)
    ensures
        r == spec_commit(f),
{
    Failure { error: f.error, committed: true }
}

} // verus!
