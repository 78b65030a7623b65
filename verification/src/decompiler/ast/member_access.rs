use vstd::prelude::*;

use crate::decompiler::ast::expr::ExprKind;
use crate::decompiler::ast::AstNodeError;

verus! {

/// An access to a member of an object, such as `player.chat`.
#[derive(Debug, PartialEq, Eq)]
pub struct MemberAccessNode {
    /// The object.
    pub lhs: ExprKind,
    /// The member.
    pub rhs: ExprKind,
}

impl MemberAccessNode {
    /// Creates a member access; every pair of operands is accepted.
    pub fn new(lhs: ExprKind, rhs: ExprKind) -> (r: Result<Self, AstNodeError>)
        ensures
            r matches Ok(n) && n.lhs == lhs && n.rhs == rhs,
    {
        Ok(MemberAccessNode { lhs, rhs })
    }
}

} // verus!
