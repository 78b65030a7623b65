use vstd::prelude::*;

use crate::decompiler::ast::expr::ExprKind;
use crate::decompiler::ast::AstNodeError;

verus! {

/// The operator of a binary operation.
#[derive(Debug, Clone, Copy, PartialEq, Eq, Hash, Structural)]
pub enum BinOpType {
    /// Addition.
    Add,
    /// Subtraction.
    Sub,
    /// Multiplication.
    Mul,
    /// Division.
    Div,
    /// Remainder.
    Mod,
    /// Bitwise and.
    And,
    /// Bitwise or.
    Or,
    /// Bitwise exclusive or.
    Xor,
    /// Logical and.
    LogicalAnd,
    /// Logical or.
    LogicalOr,
    /// Equality.
    Equal,
    /// Inequality.
    NotEqual,
    /// Greater than.
    Greater,
    /// Less than.
    Less,
    /// Greater than or equal.
    GreaterOrEqual,
    /// Less than or equal.
    LessOrEqual,
    /// Left shift.
    ShiftLeft,
    /// Right shift.
    ShiftRight,
    /// Membership.
    In,
    /// String join.
    Join,
    /// Exponentiation.
    Power,
    /// Iteration over a collection.
    Foreach,
}

/// The operator's text.
pub open spec fn binoptype_text(op: BinOpType) -> Seq<char> {
    match op {
        BinOpType::Add => "+"@,
        BinOpType::Sub => "-"@,
        BinOpType::Mul => "*"@,
        BinOpType::Div => "/"@,
        BinOpType::Mod => "%"@,
        BinOpType::And => "&"@,
        BinOpType::Or => "|"@,
        BinOpType::Xor => "xor"@,
        BinOpType::LogicalAnd => "&&"@,
        BinOpType::LogicalOr => "||"@,
        BinOpType::Equal => "=="@,
        BinOpType::NotEqual => "!="@,
        BinOpType::Greater => ">"@,
        BinOpType::Less => "<"@,
        BinOpType::GreaterOrEqual => ">="@,
        BinOpType::LessOrEqual => "<="@,
        BinOpType::ShiftLeft => "<<"@,
        BinOpType::ShiftRight => ">>"@,
        BinOpType::In => "in"@,
        BinOpType::Join => "@"@,
        BinOpType::Power => "^"@,
        BinOpType::Foreach => ":"@,
    }
}

impl BinOpType {
    /// The operator's text.
    pub fn as_str(&self) -> (s: &'static str)
        ensures
            s@ == binoptype_text(*self),
    {
        match self {
            BinOpType::Add => "+",
            BinOpType::Sub => "-",
            BinOpType::Mul => "*",
            BinOpType::Div => "/",
            BinOpType::Mod => "%",
            BinOpType::And => "&",
            BinOpType::Or => "|",
            BinOpType::Xor => "xor",
            BinOpType::LogicalAnd => "&&",
            BinOpType::LogicalOr => "||",
            BinOpType::Equal => "==",
            BinOpType::NotEqual => "!=",
            BinOpType::Greater => ">",
            BinOpType::Less => "<",
            BinOpType::GreaterOrEqual => ">=",
            BinOpType::LessOrEqual => "<=",
            BinOpType::ShiftLeft => "<<",
            BinOpType::ShiftRight => ">>",
            BinOpType::In => "in",
            BinOpType::Join => "@",
            BinOpType::Power => "^",
            BinOpType::Foreach => ":",
        }
    }

    /// All the operators, in declaration order.
    pub fn all_variants() -> (v: Vec<Self>)
        ensures
            v@ == seq![BinOpType::Add, BinOpType::Sub, BinOpType::Mul, BinOpType::Div, BinOpType::Mod, BinOpType::And, BinOpType::Or, BinOpType::Xor, BinOpType::LogicalAnd, BinOpType::LogicalOr, BinOpType::Equal, BinOpType::NotEqual, BinOpType::Greater, BinOpType::Less, BinOpType::GreaterOrEqual, BinOpType::LessOrEqual, BinOpType::ShiftLeft, BinOpType::ShiftRight, BinOpType::In, BinOpType::Join, BinOpType::Power, BinOpType::Foreach],
    {
        let mut v = Vec::new();
        v.push(BinOpType::Add);
        v.push(BinOpType::Sub);
        v.push(BinOpType::Mul);
        v.push(BinOpType::Div);
        v.push(BinOpType::Mod);
        v.push(BinOpType::And);
        v.push(BinOpType::Or);
        v.push(BinOpType::Xor);
        v.push(BinOpType::LogicalAnd);
        v.push(BinOpType::LogicalOr);
        v.push(BinOpType::Equal);
        v.push(BinOpType::NotEqual);
        v.push(BinOpType::Greater);
        v.push(BinOpType::Less);
        v.push(BinOpType::GreaterOrEqual);
        v.push(BinOpType::LessOrEqual);
        v.push(BinOpType::ShiftLeft);
        v.push(BinOpType::ShiftRight);
        v.push(BinOpType::In);
        v.push(BinOpType::Join);
        v.push(BinOpType::Power);
        v.push(BinOpType::Foreach);
        v
    }

    /// The operator's text, as a `String`.
    pub fn to_string(&self) -> (s: String)
        ensures
            s@ == binoptype_text(*self),
    {
        String::from_str(self.as_str())
    }
}

/// Represents a binary operation node in the AST, such as `a + b`.
#[derive(Debug, PartialEq, Eq)]
pub struct BinaryOperationNode {
    /// The left-hand side of the binary operation.
    pub lhs: ExprKind,
    /// The right-hand side of the binary operation.
    pub rhs: ExprKind,
    /// The binary operation type.
    pub op_type: BinOpType,
}

impl BinaryOperationNode {
    /// Creates a binary operation; every pair of operands is accepted.
    pub fn new(lhs: ExprKind, rhs: ExprKind, op_type: BinOpType) -> (r: Result<Self, AstNodeError>)
        ensures
            r matches Ok(n) && n.lhs == lhs && n.rhs == rhs && n.op_type == op_type,
    {
        Ok(BinaryOperationNode { lhs, rhs, op_type })
    }
}

} // verus!
