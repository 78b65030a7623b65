use vstd::prelude::*;

use crate::decompiler::ast::assignment::AssignmentNode;
use crate::decompiler::ast::ptr::P;
use crate::decompiler::ast::ret::ReturnNode;
use crate::decompiler::ast::vbranch::VirtualBranchNode;

verus! {

/// Represents a statement node in the AST.
#[derive(Debug, PartialEq, Eq)]
pub enum StatementKind {
    /// An assignment.
    Assignment(P<AssignmentNode>),
    /// A return.
    Return(P<ReturnNode>),
    /// A branch to another region.
    VirtualBranch(P<VirtualBranchNode>),
}

} // verus!
