use vstd::prelude::*;

use crate::decompiler::ast::array_access::ArrayAccessNode;
use crate::decompiler::ast::array_kind::ArrayKind;
use crate::decompiler::ast::bin_op::BinaryOperationNode;
use crate::decompiler::ast::func_call::FunctionCallNode;
use crate::decompiler::ast::identifier::IdentifierNode;
use crate::decompiler::ast::literal::LiteralNode;
use crate::decompiler::ast::member_access::MemberAccessNode;
use crate::decompiler::ast::new::NewNode;
use crate::decompiler::ast::new_array::NewArrayNode;
use crate::decompiler::ast::phi::PhiNode;
use crate::decompiler::ast::ptr::P;
use crate::decompiler::ast::range::RangeNode;
use crate::decompiler::ast::unary_op::UnaryOperationNode;

verus! {

/// Represents an expression node in the AST.
#[derive(Debug, PartialEq, Eq)]
pub enum ExprKind {
    /// A literal.
    Literal(P<LiteralNode>),
    /// A binary operation.
    BinOp(P<BinaryOperationNode>),
    /// A unary operation.
    UnaryOp(P<UnaryOperationNode>),
    /// A function call.
    FunctionCall(P<FunctionCallNode>),
    /// An array.
    Array(ArrayKind),
    /// An object creation.
    New(P<NewNode>),
    /// An array creation.
    NewArray(P<NewArrayNode>),
    /// A member access.
    MemberAccess(P<MemberAccessNode>),
    /// An identifier.
    Identifier(P<IdentifierNode>),
    /// An array access.
    ArrayAccess(P<ArrayAccessNode>),
    /// A phi node.
    Phi(P<PhiNode>),
    /// A range.
    Range(P<RangeNode>),
}

} // verus!
