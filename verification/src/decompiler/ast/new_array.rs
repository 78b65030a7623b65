use vstd::prelude::*;

use crate::decompiler::ast::expr::ExprKind;

verus! {

/// The creation of an array of a given size.
#[derive(Debug, PartialEq, Eq)]
pub struct NewArrayNode {
    /// The number of elements in the array.
    pub arg: ExprKind,
}

impl NewArrayNode {
    /// Creates an array creation.
    pub fn new(arg: ExprKind) -> (n: Self)
        ensures
            n.arg == arg,
    {
        NewArrayNode { arg }
    }
}

} // verus!
