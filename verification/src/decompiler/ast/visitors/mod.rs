/// The context in which nodes are emitted.
pub mod emit_context;
/// Emission of nodes as GS2 source text.
pub mod emitter;

use vstd::prelude::*;

use crate::decompiler::ast::array_access::ArrayAccessNode;
use crate::decompiler::ast::array_kind::ArrayKind;
use crate::decompiler::ast::array_node::ArrayNode;
use crate::decompiler::ast::assignment::AssignmentNode;
use crate::decompiler::ast::bin_op::BinaryOperationNode;
use crate::decompiler::ast::block::BlockNode;
use crate::decompiler::ast::control_flow::ControlFlowNode;
use crate::decompiler::ast::expr::ExprKind;
use crate::decompiler::ast::func_call::FunctionCallNode;
use crate::decompiler::ast::function::FunctionNode;
use crate::decompiler::ast::identifier::IdentifierNode;
use crate::decompiler::ast::literal::LiteralNode;
use crate::decompiler::ast::member_access::MemberAccessNode;
use crate::decompiler::ast::new::NewNode;
use crate::decompiler::ast::new_array::NewArrayNode;
use crate::decompiler::ast::phi::PhiNode;
use crate::decompiler::ast::phi_array::PhiArrayNode;
use crate::decompiler::ast::ptr::P;
use crate::decompiler::ast::range::RangeNode;
use crate::decompiler::ast::ret::ReturnNode;
use crate::decompiler::ast::statement::StatementKind;
use crate::decompiler::ast::unary_op::UnaryOperationNode;
use crate::decompiler::ast::vbranch::VirtualBranchNode;
use crate::decompiler::ast::view::AstV;
use crate::decompiler::ast::AstKind;

verus! {

/// A visitor of the AST: one method per kind of node.
pub trait AstVisitor {
    /// What a visit produces.
    type Output;

    /// Whether the visitor can visit a node that contains nested blocks (a function, a block
    /// or a control-flow construct), given the visitor's state.
    spec fn accepts(&self, node: AstV) -> bool;

    /// Visits an AST node.
    fn visit_node(&mut self, node: &AstKind) -> Self::Output
        requires
            old(self).accepts(node@),
    ;

    /// Visits a statement node.
    fn visit_statement(&mut self, node: &StatementKind) -> Self::Output;

    /// Visits an assignment node.
    fn visit_assignment(&mut self, node: &P<AssignmentNode>) -> Self::Output;

    /// Visits an expression node.
    fn visit_expr(&mut self, node: &ExprKind) -> Self::Output;

    /// Visits a binary operation node.
    fn visit_bin_op(&mut self, node: &P<BinaryOperationNode>) -> Self::Output;

    /// Visits a unary operation node.
    fn visit_unary_op(&mut self, node: &P<UnaryOperationNode>) -> Self::Output;

    /// Visits an identifier node.
    fn visit_identifier(&mut self, node: &P<IdentifierNode>) -> Self::Output;

    /// Visits a literal node.
    fn visit_literal(&mut self, node: &P<LiteralNode>) -> Self::Output;

    /// Visits a member access node.
    fn visit_member_access(&mut self, node: &P<MemberAccessNode>) -> Self::Output;

    /// Visits a function call node.
    fn visit_function_call(&mut self, node: &P<FunctionCallNode>) -> Self::Output;

    /// Visits an array.
    fn visit_array(&mut self, node: &ArrayKind) -> Self::Output;

    /// Visits an array built in one block.
    fn visit_array_node(&mut self, node: &P<ArrayNode>) -> Self::Output;

    /// Visits an array merged from predecessor blocks.
    fn visit_phi_array(&mut self, node: &P<PhiArrayNode>) -> Self::Output;

    /// Visits an array access node.
    fn visit_array_access(&mut self, node: &P<ArrayAccessNode>) -> Self::Output;

    /// Visits a function node.
    fn visit_function(&mut self, node: &P<FunctionNode>) -> Self::Output
        requires
            old(self).accepts((AstKind::Function(*node))@),
    ;

    /// Visits a return node.
    fn visit_return(&mut self, node: &P<ReturnNode>) -> Self::Output;

    /// Visits a block node.
    fn visit_block(&mut self, node: &P<BlockNode>) -> Self::Output
        requires
            old(self).accepts((AstKind::Block(*node))@),
    ;

    /// Visits a control-flow node.
    fn visit_control_flow(&mut self, node: &P<ControlFlowNode>) -> Self::Output
        requires
            old(self).accepts((AstKind::ControlFlow(*node))@),
    ;

    /// Visits a phi node.
    fn visit_phi(&mut self, node: &P<PhiNode>) -> Self::Output;

    /// Visits an object creation node.
    fn visit_new(&mut self, node: &P<NewNode>) -> Self::Output;

    /// Visits an array creation node.
    fn visit_new_array(&mut self, node: &P<NewArrayNode>) -> Self::Output;

    /// Visits a branch to another region.
    fn visit_virtual_branch(&mut self, node: &P<VirtualBranchNode>) -> Self::Output;

    /// Visits a range node.
    fn visit_range(&mut self, node: &P<RangeNode>) -> Self::Output;
}

} // verus!
