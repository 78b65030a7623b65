use vstd::prelude::*;

use crate::decompiler::ast::convert::{ast_views, into_asts, IntoAst};
use crate::decompiler::ast::view::asts_v;
use crate::decompiler::ast::AstKind;

verus! {

/// A block of nodes.
#[derive(Debug, PartialEq, Eq)]
pub struct BlockNode {
    /// The nodes of the block, in order.
    pub instructions: Vec<AstKind>,
}

impl BlockNode {
    /// Creates a block of the given nodes, in order.
    pub fn new<V: IntoAst>(instructions: Vec<V>) -> (b: Self)
        ensures
            asts_v(b.instructions@) == ast_views(instructions@),
    {
        BlockNode { instructions: into_asts(instructions) }
    }
}

} // verus!
