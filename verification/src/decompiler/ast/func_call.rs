use vstd::prelude::*;

use crate::decompiler::ast::expr::ExprKind;

verus! {

/// A call of a function, such as `foo(1, 2)`.
#[derive(Debug, PartialEq, Eq)]
pub struct FunctionCallNode {
    /// The function called.
    pub name: ExprKind,
    /// The arguments, in order.
    pub arguments: Vec<ExprKind>,
}

impl FunctionCallNode {
    /// Creates a function call.
    pub fn new(name: ExprKind, arguments: Vec<ExprKind>) -> (n: Self)
        ensures
            n.name == name,
            n.arguments == arguments,
    {
        FunctionCallNode { name, arguments }
    }
}

} // verus!
