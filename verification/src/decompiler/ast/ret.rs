use vstd::prelude::*;

use crate::decompiler::ast::expr::ExprKind;

verus! {

/// A return, such as `return 5`.
#[derive(Debug, PartialEq, Eq)]
pub struct ReturnNode {
    /// The value to return.
    pub ret: ExprKind,
}

impl ReturnNode {
    /// Creates a return.
    pub fn new(ret: ExprKind) -> (n: Self)
        ensures
            n.ret == ret,
    {
        ReturnNode { ret }
    }
}

} // verus!
