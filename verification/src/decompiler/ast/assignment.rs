use vstd::prelude::*;

use crate::decompiler::ast::expr::ExprKind;
use crate::decompiler::ast::AstNodeError;

verus! {

/// An assignment, such as `variable = value`.
#[derive(Debug, PartialEq, Eq)]
pub struct AssignmentNode {
    /// The left-hand side, usually a variable.
    pub lhs: ExprKind,
    /// The value to assign.
    pub rhs: ExprKind,
}

impl AssignmentNode {
    /// Creates an assignment; every pair of operands is accepted.
    pub fn new(lhs: ExprKind, rhs: ExprKind) -> (r: Result<Self, AstNodeError>)
        ensures
            r matches Ok(n) && n.lhs == lhs && n.rhs == rhs,
    {
        Ok(AssignmentNode { lhs, rhs })
    }
}

} // verus!
