use vstd::prelude::*;

use crate::decompiler::ast::expr::ExprKind;
use crate::decompiler::ast::phi::PhiNode;
use crate::decompiler::ast::ptr::P;

verus! {

/// An array whose elements are merged, through a phi node, from predecessor blocks.
#[derive(Debug, PartialEq, Eq)]
pub struct PhiArrayNode {
    /// The phi node that merges the array.
    pub phi: P<PhiNode>,
    /// The elements in the array.
    pub elements: Vec<ExprKind>,
}

impl PhiArrayNode {
    /// Creates a phi array.
    pub fn new(phi: P<PhiNode>, elements: Vec<ExprKind>) -> (n: Self)
        ensures
            n.phi == phi,
            n.elements == elements,
    {
        PhiArrayNode { phi, elements }
    }
}

} // verus!
