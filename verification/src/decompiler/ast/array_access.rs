use vstd::prelude::*;

use crate::decompiler::ast::expr::ExprKind;
use crate::decompiler::ast::ssa::SsaVersion;

verus! {

/// An access to an element of an array, such as `arr[5]`.
#[derive(Debug, PartialEq, Eq)]
pub struct ArrayAccessNode {
    /// The array to access.
    pub arr: ExprKind,
    /// The index to access.
    pub index: ExprKind,
    /// The SSA version of the element.
    pub ssa_version: Option<SsaVersion>,
}

impl ArrayAccessNode {
    /// Creates an array access without an SSA version.
    pub fn new(arr: ExprKind, index: ExprKind) -> (n: Self)
        ensures
            n.arr == arr,
            n.index == index,
            n.ssa_version is None,
    {
        ArrayAccessNode { arr, index, ssa_version: None }
    }
}

} // verus!
