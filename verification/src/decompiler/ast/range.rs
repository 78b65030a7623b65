use vstd::prelude::*;

use crate::decompiler::ast::expr::ExprKind;

verus! {

/// A range, such as `<1, 5>`.
#[derive(Debug, PartialEq, Eq)]
pub struct RangeNode {
    /// The start of the range.
    pub start: ExprKind,
    /// The end of the range.
    pub end: ExprKind,
}

impl RangeNode {
    /// Creates a range.
    pub fn new(start: ExprKind, end: ExprKind) -> (n: Self)
        ensures
            n.start == start,
            n.end == end,
    {
        RangeNode { start, end }
    }
}

} // verus!
