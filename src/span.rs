use vstd::prelude::*;

verus! {

/// A half-open range `[start, end)` over the source text.
#[derive(Clone, Copy, Debug, PartialEq, Eq, Structural)]
pub struct Span {
    pub start: usize,
    pub end: usize,
}

/// The range that starts where `a` starts and ends where `b` ends.
pub open spec fn spec_join(a: Span, b: Span) -> Span {
    Span { start: a.start, end: b.end }
}

impl Span {
    pub fn new(start: usize, end: usize) -> (r: Span)
        ensures
            r.start == start,
            r.end == end,
    {
        Span { start, end }
    }

    /// Joins the span of a node's first element with that of its last.
    pub fn join(a: Span, b: Span) -> (r: Span)
        ensures
            r == spec_join(a, b),
    {
        Span { start: a.start, end: b.end }
    }
}

} // verus!
