use vstd::prelude::*;

use crate::decompiler::ast::expr::ExprKind;

verus! {

/// An array literal.
#[derive(Debug, PartialEq, Eq)]
pub struct ArrayNode {
    /// The elements of the array.
    pub elements: Vec<ExprKind>,
}

impl ArrayNode {
    /// Creates an array.
    pub fn new(elements: Vec<ExprKind>) -> (n: Self)
        ensures
            n.elements == elements,
    {
        ArrayNode { elements }
    }
}

} // verus!
