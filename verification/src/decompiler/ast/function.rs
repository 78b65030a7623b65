use vstd::prelude::*;

use crate::decompiler::ast::block::BlockNode;
use crate::decompiler::ast::expr::ExprKind;
use crate::decompiler::ast::ptr::P;

verus! {

/// A function: its name (none for the entry point), its parameters and its body.
#[derive(Debug, PartialEq, Eq)]
pub struct FunctionNode {
    /// The name of the function.
    pub name: Option<String>,
    /// The parameters.
    pub params: Vec<ExprKind>,
    /// The body.
    pub body: P<BlockNode>,
}

impl FunctionNode {
    /// Returns the name.
    pub fn name(&self) -> (n: &Option<String>)
        ensures
            *n == self.name,
    {
        &self.name
    }
}

} // verus!
