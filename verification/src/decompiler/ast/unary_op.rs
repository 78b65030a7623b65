use vstd::prelude::*;

use crate::decompiler::ast::expr::ExprKind;
use crate::decompiler::ast::literal::LiteralNode;
use crate::decompiler::ast::view::{ExprV, LiteralV};
use crate::decompiler::ast::AstNodeError;

verus! {

/// The operator of a unary operation.
#[derive(Debug, Clone, Copy, PartialEq, Eq, Hash, Structural)]
pub enum UnaryOpType {
    /// Logical negation.
    LogicalNot,
    /// Bitwise complement.
    BitwiseNot,
    /// Arithmetic negation.
    Negate,
}

/// The operator's text.
pub open spec fn unaryoptype_text(op: UnaryOpType) -> Seq<char> {
    match op {
        UnaryOpType::LogicalNot => "!"@,
        UnaryOpType::BitwiseNot => "~"@,
        UnaryOpType::Negate => "-"@,
    }
}

impl UnaryOpType {
    /// The operator's text.
    pub fn as_str(&self) -> (s: &'static str)
        ensures
            s@ == unaryoptype_text(*self),
    {
        match self {
            UnaryOpType::LogicalNot => "!",
            UnaryOpType::BitwiseNot => "~",
            UnaryOpType::Negate => "-",
        }
    }

    /// All the operators, in declaration order.
    pub fn all_variants() -> (v: Vec<Self>)
        ensures
            v@ == seq![UnaryOpType::LogicalNot, UnaryOpType::BitwiseNot, UnaryOpType::Negate],
    {
        let mut v = Vec::new();
        v.push(UnaryOpType::LogicalNot);
        v.push(UnaryOpType::BitwiseNot);
        v.push(UnaryOpType::Negate);
        v
    }

    /// The operator's text, as a `String`.
    pub fn to_string(&self) -> (s: String)
        ensures
            s@ == unaryoptype_text(*self),
    {
        String::from_str(self.as_str())
    }
}

/// Represents a unary operation node in the AST, such as `-a` or `!b`.
#[derive(Debug, PartialEq, Eq)]
pub struct UnaryOperationNode {
    /// The operand of the unary operation.
    pub operand: ExprKind,
    /// The unary operation type.
    pub op_type: UnaryOpType,
}

/// A unary operation applies to any operand but a string literal.
pub open spec fn valid_unary_operand(e: ExprKind) -> bool {
    !(e matches ExprKind::Literal(p) && *p.ptr matches LiteralNode::String(_))
}

/// A unary operation applies to any operand but a string literal, stated of the operand's
/// abstract value.
pub open spec fn valid_operand_v(e: ExprV) -> bool {
    !(e matches ExprV::Literal(LiteralV::String(_)))
}

/// The two statements of what a unary operation accepts agree.
pub proof fn lemma_valid_operand(e: ExprKind)
    ensures
        valid_unary_operand(e) == valid_operand_v(e@),
{
}

impl UnaryOperationNode {
    /// Creates a unary operation; a string literal is refused as its operand.
    pub fn new(operand: ExprKind, op_type: UnaryOpType) -> (r: Result<Self, AstNodeError>)
        ensures
            valid_unary_operand(operand) ==> (r matches Ok(n) && n.operand == operand && n.op_type == op_type),
            !valid_unary_operand(operand) ==> r == Err::<Self, AstNodeError>(AstNodeError::InvalidOperand),
    {
        match Self::validate_operand(&operand) {
            Ok(()) => Ok(UnaryOperationNode { operand, op_type }),
            Err(e) => Err(e),
        }
    }

    fn validate_operand(expr: &ExprKind) -> (r: Result<(), AstNodeError>)
        ensures
            valid_unary_operand(*expr) ==> r is Ok,
            !valid_unary_operand(*expr) ==> r == Err::<(), AstNodeError>(AstNodeError::InvalidOperand),
    {
        if let ExprKind::Literal(lit) = expr {
            if let LiteralNode::String(_) = lit.as_ref() {
                return Err(AstNodeError::InvalidOperand);
            }
        }
        Ok(())
    }
}

} // verus!
