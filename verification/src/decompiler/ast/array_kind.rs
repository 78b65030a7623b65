use vstd::prelude::*;

use crate::decompiler::ast::array_node::ArrayNode;
use crate::decompiler::ast::phi_array::PhiArrayNode;
use crate::decompiler::ast::ptr::P;

verus! {

/// Represents the kind of an array node in the AST.
#[derive(Debug, PartialEq, Eq)]
pub enum ArrayKind {
    /// An array whose elements come partly from predecessor blocks.
    PhiArray(P<PhiArrayNode>),
    /// An array built entirely in one block.
    MergedArray(P<ArrayNode>),
}

} // verus!
