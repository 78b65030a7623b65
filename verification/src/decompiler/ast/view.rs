use vstd::prelude::*;

use crate::decompiler::ast::array_access::ArrayAccessNode;
use crate::decompiler::ast::array_kind::ArrayKind;
use crate::decompiler::ast::array_node::ArrayNode;
use crate::decompiler::ast::assignment::AssignmentNode;
use crate::decompiler::ast::bin_op::{BinOpType, BinaryOperationNode};
use crate::decompiler::ast::block::BlockNode;
use crate::decompiler::ast::control_flow::{ControlFlowNode, ControlFlowType};
use crate::decompiler::ast::expr::ExprKind;
use crate::decompiler::ast::func_call::FunctionCallNode;
use crate::decompiler::ast::function::FunctionNode;
use crate::decompiler::ast::identifier::IdentifierNode;
use crate::decompiler::ast::literal::LiteralNode;
use crate::decompiler::ast::member_access::MemberAccessNode;
use crate::decompiler::ast::meta::{property_views, Metadata};
use crate::decompiler::ast::new::NewNode;
use crate::decompiler::ast::new_array::NewArrayNode;
use crate::decompiler::ast::phi::PhiNode;
use crate::decompiler::ast::phi_array::PhiArrayNode;
use crate::decompiler::ast::ptr::P;
use crate::decompiler::ast::range::RangeNode;
use crate::decompiler::ast::ret::ReturnNode;
use crate::decompiler::ast::statement::StatementKind;
use crate::decompiler::ast::unary_op::{UnaryOpType, UnaryOperationNode};
use crate::decompiler::ast::vbranch::VirtualBranchNode;
use crate::decompiler::ast::AstKind;

verus! {

/// The abstract value of a literal.
pub enum LiteralV {
    /// A string.
    String(Seq<char>),
    /// A number.
    Number(i32),
    /// A floating-point number, as its text.
    Float(Seq<char>),
    /// A boolean.
    Boolean(bool),
    /// Null.
    Null,
}

/// The abstract value of an expression: what it means, without node identifiers or metadata.
pub enum ExprV {
    /// A literal.
    Literal(LiteralV),
    /// A binary operation: its operands and operator.
    BinOp(Box<ExprV>, Box<ExprV>, BinOpType),
    /// A unary operation: its operand and operator.
    UnaryOp(Box<ExprV>, UnaryOpType),
    /// A function call: the function and its arguments.
    FunctionCall(Box<ExprV>, Seq<ExprV>),
    /// An array: the index of its phi node when it is merged from predecessors, and its
    /// elements.
    Array(Option<usize>, Seq<ExprV>),
    /// An object creation: the type and the argument.
    New(Box<ExprV>, Box<ExprV>),
    /// An array creation: the size.
    NewArray(Box<ExprV>),
    /// A member access: the object and the member.
    MemberAccess(Box<ExprV>, Box<ExprV>),
    /// An identifier: its name and SSA version.
    Identifier(Seq<char>, Option<usize>),
    /// An array access: the array and the index.
    ArrayAccess(Box<ExprV>, Box<ExprV>),
    /// A phi node: its index.
    Phi(usize),
    /// A range: its start and end.
    Range(Box<ExprV>, Box<ExprV>),
}

/// The abstract value of a statement.
pub enum StmtV {
    /// An assignment: the target and the value.
    Assignment(ExprV, ExprV),
    /// A return: the value.
    Return(ExprV),
    /// A branch: the index of the target region.
    VirtualBranch(usize),
}

/// The abstract value of an AST node; nodes that stand on their own carry their comments.
pub enum AstV {
    /// An expression.
    Expression(ExprV),
    /// A statement, with its comments.
    Statement(Seq<Seq<char>>, StmtV),
    /// A function, with its comments: name, parameters and body.
    Function(Seq<Seq<char>>, Option<Seq<char>>, Seq<ExprV>, Seq<AstV>),
    /// A block, with its comments: its nodes.
    Block(Seq<Seq<char>>, Seq<AstV>),
    /// A control-flow construct, with its comments: kind, condition and body.
    ControlFlow(Seq<Seq<char>>, ControlFlowType, Option<ExprV>, Seq<AstV>),
    /// Nothing.
    Empty,
}

/// The abstract value of a literal.
pub open spec fn literal_v(l: LiteralNode) -> LiteralV {
    match l {
        LiteralNode::String(s) => LiteralV::String(s@),
        LiteralNode::Number(n) => LiteralV::Number(n),
        LiteralNode::Float(s) => LiteralV::Float(s@),
        LiteralNode::Boolean(b) => LiteralV::Boolean(b),
        LiteralNode::Null => LiteralV::Null,
    }
}

/// The number of an optional SSA version.
pub open spec fn version_v(v: Option<crate::decompiler::ast::ssa::SsaVersion>) -> Option<usize> {
    match v {
        Some(x) => Some(x.0),
        None => None,
    }
}

/// The abstract value of an expression.
pub open spec fn expr_v(e: ExprKind) -> ExprV
    decreases e,
{
    match e {
        ExprKind::Literal(p) => ExprV::Literal(literal_v(*p.ptr)),
        ExprKind::BinOp(p) => ExprV::BinOp(Box::new(expr_v(p.ptr.lhs)), Box::new(expr_v(p.ptr.rhs)), p.ptr.op_type),
        ExprKind::UnaryOp(p) => ExprV::UnaryOp(Box::new(expr_v(p.ptr.operand)), p.ptr.op_type),
        ExprKind::FunctionCall(p) => ExprV::FunctionCall(Box::new(expr_v(p.ptr.name)), exprs_v(p.ptr.arguments@)),
        ExprKind::Array(ArrayKind::MergedArray(p)) => ExprV::Array(None, exprs_v(p.ptr.elements@)),
        ExprKind::Array(ArrayKind::PhiArray(p)) => ExprV::Array(Some(p.ptr.phi.ptr.idx), exprs_v(p.ptr.elements@)),
        ExprKind::New(p) => ExprV::New(Box::new(expr_v(p.ptr.new_type)), Box::new(expr_v(p.ptr.arg))),
        ExprKind::NewArray(p) => ExprV::NewArray(Box::new(expr_v(p.ptr.arg))),
        ExprKind::MemberAccess(p) => ExprV::MemberAccess(Box::new(expr_v(p.ptr.lhs)), Box::new(expr_v(p.ptr.rhs))),
        ExprKind::Identifier(p) => ExprV::Identifier(p.ptr.id@, version_v(p.ptr.ssa_version)),
        ExprKind::ArrayAccess(p) => ExprV::ArrayAccess(Box::new(expr_v(p.ptr.arr)), Box::new(expr_v(p.ptr.index))),
        ExprKind::Phi(p) => ExprV::Phi(p.ptr.idx),
        ExprKind::Range(p) => ExprV::Range(Box::new(expr_v(p.ptr.start)), Box::new(expr_v(p.ptr.end))),
    }
}

/// The abstract values of a sequence of expressions.
pub open spec fn exprs_v(s: Seq<ExprKind>) -> Seq<ExprV>
    decreases s,
{
    if s.len() == 0 {
        Seq::empty()
    } else {
        exprs_v(s.drop_last()).push(expr_v(s.last()))
    }
}

/// The abstract value of a statement.
pub open spec fn stmt_v(s: StatementKind) -> StmtV {
    match s {
        StatementKind::Assignment(p) => StmtV::Assignment(expr_v(p.ptr.lhs), expr_v(p.ptr.rhs)),
        StatementKind::Return(p) => StmtV::Return(expr_v(p.ptr.ret)),
        StatementKind::VirtualBranch(p) => StmtV::VirtualBranch(p.ptr.branch.index),
    }
}

/// The comments of a statement.
pub open spec fn stmt_comments(s: StatementKind) -> Seq<Seq<char>> {
    match s {
        StatementKind::Assignment(p) => p.metadata.comment_views(),
        StatementKind::Return(p) => p.metadata.comment_views(),
        StatementKind::VirtualBranch(p) => p.metadata.comment_views(),
    }
}

/// The abstract value of an AST node.
pub open spec fn ast_v(a: AstKind) -> AstV
    decreases a,
{
    match a {
        AstKind::Expression(e) => AstV::Expression(expr_v(e)),
        AstKind::Statement(s) => AstV::Statement(stmt_comments(s), stmt_v(s)),
        AstKind::Function(p) => AstV::Function(
            p.metadata.comment_views(),
            match p.ptr.name {
                Some(n) => Some(n@),
                None => None,
            },
            exprs_v(p.ptr.params@),
            asts_v(p.ptr.body.ptr.instructions@),
        ),
        AstKind::Block(p) => AstV::Block(p.metadata.comment_views(), asts_v(p.ptr.instructions@)),
        AstKind::ControlFlow(p) => AstV::ControlFlow(
            p.metadata.comment_views(),
            p.ptr.ty,
            match p.ptr.expr {
                Some(e) => Some(expr_v(e)),
                None => None,
            },
            asts_v(p.ptr.then_block.ptr.instructions@),
        ),
        AstKind::Empty => AstV::Empty,
    }
}

/// The abstract values of a sequence of AST nodes.
pub open spec fn asts_v(s: Seq<AstKind>) -> Seq<AstV>
    decreases s,
{
    if s.len() == 0 {
        Seq::empty()
    } else {
        asts_v(s.drop_last()).push(ast_v(s.last()))
    }
}

/// The abstract values of a sequence of expressions, one for each, in order.
pub proof fn lemma_exprs_v(s: Seq<ExprKind>)
    ensures
        exprs_v(s).len() == s.len(),
        forall|i: int| 0 <= i < s.len() ==> #[trigger] exprs_v(s)[i] == s[i]@,
    decreases s.len(),
{
    if s.len() > 0 {
        lemma_exprs_v(s.drop_last());
    }
}

/// The abstract values of a sequence of AST nodes, one for each, in order.
pub proof fn lemma_asts_v(s: Seq<AstKind>)
    ensures
        asts_v(s).len() == s.len(),
        forall|i: int| 0 <= i < s.len() ==> #[trigger] asts_v(s)[i] == s[i]@,
    decreases s.len(),
{
    if s.len() > 0 {
        lemma_asts_v(s.drop_last());
    }
}

impl View for ExprKind {
    type V = ExprV;

    open spec fn view(&self) -> ExprV {
        expr_v(*self)
    }
}

impl View for AstKind {
    type V = AstV;

    open spec fn view(&self) -> AstV {
        ast_v(*self)
    }
}

impl View for StatementKind {
    type V = StmtV;

    open spec fn view(&self) -> StmtV {
        stmt_v(*self)
    }
}

impl View for LiteralNode {
    type V = LiteralV;

    open spec fn view(&self) -> LiteralV {
        literal_v(*self)
    }
}

} // verus!
