use vstd::prelude::*;

use crate::decompiler::ast::array_access::ArrayAccessNode;
use crate::decompiler::ast::array_kind::ArrayKind;
use crate::decompiler::ast::array_node::ArrayNode;
use crate::decompiler::ast::func_call::FunctionCallNode;
use crate::decompiler::ast::new::NewNode;
use crate::decompiler::ast::assignment::AssignmentNode;
use crate::decompiler::ast::bin_op::{BinOpType, BinaryOperationNode};
use crate::decompiler::ast::block::BlockNode;
use crate::decompiler::ast::control_flow::{ControlFlowNode, ControlFlowType};
use crate::decompiler::ast::convert::{ast_views, expr_views, into_exprs, IntoAst, IntoExpr};
use crate::decompiler::ast::expr::ExprKind;
use crate::decompiler::ast::function::FunctionNode;
use crate::decompiler::ast::identifier::IdentifierNode;
use crate::decompiler::ast::literal::LiteralNode;
use crate::decompiler::ast::member_access::MemberAccessNode;
use crate::decompiler::ast::phi::PhiNode;
use crate::decompiler::ast::ptr::P;
use crate::decompiler::ast::ret::ReturnNode;
use crate::decompiler::ast::ssa::SsaVersion;
use crate::decompiler::ast::statement::StatementKind;
use crate::decompiler::ast::unary_op::{valid_operand_v, UnaryOpType, UnaryOperationNode};
use crate::decompiler::ast::vbranch::VirtualBranchNode;
use crate::decompiler::ast::view::{exprs_v, AstV, ExprV, LiteralV, StmtV};
use crate::decompiler::ast::visitors::emit_context::{default_context, EmitContext};
use crate::decompiler::ast::visitors::emitter::{ast_fits, ast_text, emit_ast_into};
use crate::decompiler::structure_analysis::region::RegionId;
use crate::opcode::Opcode;

/// Accesses to an element of an array.
pub mod array_access;
/// The kinds of arrays.
pub mod array_kind;
/// Arrays built in one block.
pub mod array_node;
/// Assignments.
pub mod assignment;
/// Binary operations.
pub mod bin_op;
/// Blocks of nodes.
pub mod block;
/// Control-flow constructs.
pub mod control_flow;
/// Verified copies of nodes.
pub mod copies;
/// Conversions of nodes into expressions and AST nodes.
pub mod convert;
/// Expressions.
pub mod expr;
/// Function calls.
pub mod func_call;
/// Functions.
pub mod function;
/// Identifiers.
pub mod identifier;
/// Literals.
pub mod literal;
/// Member accesses.
pub mod member_access;
/// Metadata of nodes.
pub mod meta;
/// Object creations.
pub mod new;
/// Array creations.
pub mod new_array;
/// Node identifiers.
pub mod node_id;
/// Phi nodes.
pub mod phi;
/// Arrays merged from predecessor blocks.
pub mod phi_array;
/// The pointer that holds nodes.
pub mod ptr;
/// Ranges.
pub mod range;
/// Returns.
pub mod ret;
/// SSA versions.
pub mod ssa;
/// Statements.
pub mod statement;
/// Unary operations.
pub mod unary_op;
/// Branches to regions.
pub mod vbranch;
/// The abstract values of nodes.
pub mod view;
/// Emission of nodes as text.
pub mod visitors;

verus! {

/// An error when building an AST node.
#[derive(Debug, Clone, Copy, PartialEq, Eq, Structural)]
pub enum AstNodeError {
    /// The operand is of a kind the node does not accept.
    InvalidOperand,
}

/// A node of the AST.
#[derive(Debug, PartialEq, Eq)]
pub enum AstKind {
    /// An expression.
    Expression(ExprKind),
    /// A statement.
    Statement(StatementKind),
    /// A function.
    Function(P<FunctionNode>),
    /// A block.
    Block(P<BlockNode>),
    /// A control-flow construct.
    ControlFlow(P<ControlFlowNode>),
    /// Nothing.
    Empty,
}

/// An identifier without SSA version.
pub fn new_id(name: &str) -> (p: P<IdentifierNode>)
    ensures
        p.expr_view() == ExprV::Identifier(name@, None),
{
    P(IdentifierNode::new(name))
}

/// An identifier with an SSA version.
pub fn new_id_with_version(name: &str, version: SsaVersion) -> (p: P<IdentifierNode>)
    ensures
        p.expr_view() == ExprV::Identifier(name@, Some(version.0)),
{
    P(IdentifierNode::with_ssa(name, version))
}

/// A string literal.
pub fn new_str(s: &str) -> (p: P<LiteralNode>)
    ensures
        p.expr_view() == ExprV::Literal(LiteralV::String(s@)),
{
    P(LiteralNode::String(String::from_str(s)))
}

/// A number literal.
pub fn new_num(n: i32) -> (p: P<LiteralNode>)
    ensures
        p.expr_view() == ExprV::Literal(LiteralV::Number(n)),
{
    P(LiteralNode::Number(n))
}

/// A floating-point literal, kept as its text.
pub fn new_float(s: &str) -> (p: P<LiteralNode>)
    ensures
        p.expr_view() == ExprV::Literal(LiteralV::Float(s@)),
{
    P(LiteralNode::Float(String::from_str(s)))
}

/// A boolean literal.
pub fn new_bool(b: bool) -> (p: P<LiteralNode>)
    ensures
        p.expr_view() == ExprV::Literal(LiteralV::Boolean(b)),
{
    P(LiteralNode::Boolean(b))
}

/// The null literal.
pub fn new_null() -> (p: P<LiteralNode>)
    ensures
        p.expr_view() == ExprV::Literal(LiteralV::Null),
{
    P(LiteralNode::Null)
}

/// A binary operation.
pub fn new_bin_op<L: IntoExpr, R: IntoExpr>(lhs: L, rhs: R, op_type: BinOpType) -> (r: Result<
    P<BinaryOperationNode>,
    AstNodeError,
>)
    ensures
        r matches Ok(p) && p.expr_view() == ExprV::BinOp(
            Box::new(lhs.expr_view()),
            Box::new(rhs.expr_view()),
            op_type,
        ),
{
    match BinaryOperationNode::new(lhs.into_expr(), rhs.into_expr(), op_type) {
        Ok(n) => Ok(P(n)),
        Err(e) => Err(e),
    }
}

/// A unary operation; a string literal is refused as its operand.
pub fn new_unary_op<E: IntoExpr>(operand: E, op_type: UnaryOpType) -> (r: Result<
    P<UnaryOperationNode>,
    AstNodeError,
>)
    ensures
        valid_operand_v(operand.expr_view()) ==> (r matches Ok(p) && p.expr_view() == ExprV::UnaryOp(
            Box::new(operand.expr_view()),
            op_type,
        )),
        !valid_operand_v(operand.expr_view()) ==> r == Err::<P<UnaryOperationNode>, AstNodeError>(
            AstNodeError::InvalidOperand,
        ),
{
    let e = operand.into_expr();
    proof {
        crate::decompiler::ast::unary_op::lemma_valid_operand(e);
    }
    match UnaryOperationNode::new(e, op_type) {
        Ok(n) => Ok(P(n)),
        Err(e) => Err(e),
    }
}

/// An assignment of `rhs` to `lhs`.
pub fn new_assignment<L: IntoExpr, R: IntoExpr>(lhs: L, rhs: R) -> (p: P<AssignmentNode>)
    ensures
        p.ast_view() == AstV::Statement(Seq::empty(), StmtV::Assignment(lhs.expr_view(), rhs.expr_view())),
{
    P(AssignmentNode { lhs: lhs.into_expr(), rhs: rhs.into_expr() })
}

/// A return of `ret`.
pub fn new_return<E: IntoExpr>(ret: E) -> (p: P<ReturnNode>)
    ensures
        p.ast_view() == AstV::Statement(Seq::empty(), StmtV::Return(ret.expr_view())),
{
    P(ReturnNode::new(ret.into_expr()))
}

/// An access to member `rhs` of `lhs`.
pub fn new_member_access<L: IntoExpr, R: IntoExpr>(lhs: L, rhs: R) -> (r: Result<
    P<MemberAccessNode>,
    AstNodeError,
>)
    ensures
        r matches Ok(p) && p.expr_view() == ExprV::MemberAccess(
            Box::new(lhs.expr_view()),
            Box::new(rhs.expr_view()),
        ),
{
    match MemberAccessNode::new(lhs.into_expr(), rhs.into_expr()) {
        Ok(n) => Ok(P(n)),
        Err(e) => Err(e),
    }
}

/// An array of the given elements, in order.
pub fn new_array<E: IntoExpr>(elements: Vec<E>) -> (p: P<ArrayNode>)
    ensures
        p.expr_view() == ExprV::Array(None, expr_views(elements@)),
{
    P(ArrayNode::new(into_exprs(elements)))
}

/// An object creation of type `new_type` with argument `arg`.
pub fn new_new<T: IntoExpr, A: IntoExpr>(new_type: T, arg: A) -> (r: Result<P<NewNode>, AstNodeError>)
    ensures
        r matches Ok(p) && p.expr_view() == ExprV::New(Box::new(new_type.expr_view()), Box::new(arg.expr_view())),
{
    match NewNode::new(new_type.into_expr(), arg.into_expr()) {
        Ok(n) => Ok(P(n)),
        Err(e) => Err(e),
    }
}

/// A call of the function named by the first element of the array, with the other elements
/// as arguments; refused for an empty array, which names no function.
pub fn new_fn_call(arr: ArrayKind) -> (r: Result<P<FunctionCallNode>, AstNodeError>)
    ensures
        ({
            let elements = ExprKind::Array(arr)@->Array_1;
            if elements.len() == 0 {
                r == Err::<P<FunctionCallNode>, AstNodeError>(AstNodeError::InvalidOperand)
            } else {
                r matches Ok(p) && p.expr_view() == ExprV::FunctionCall(Box::new(elements[0]), elements.drop_first())
            }
        }),
{
    let mut elements = match arr {
        ArrayKind::MergedArray(p) => p.into_inner().elements,
        ArrayKind::PhiArray(p) => p.into_inner().elements,
    };
    proof {
        crate::decompiler::ast::view::lemma_exprs_v(elements@);
    }
    if elements.len() == 0 {
        return Err(AstNodeError::InvalidOperand);
    }
    let ghost all = elements@;
    let name = elements.remove(0);
    proof {
        crate::decompiler::ast::view::lemma_exprs_v(elements@);
        assert(elements@ =~= all.drop_first());
        assert(exprs_v(elements@) =~= exprs_v(all).drop_first());
    }
    Ok(P(FunctionCallNode::new(name, elements)))
}

/// An access to element `index` of `arr`.
pub fn new_array_access<A: IntoExpr, I: IntoExpr>(arr: A, index: I) -> (p: P<ArrayAccessNode>)
    ensures
        p.expr_view() == ExprV::ArrayAccess(Box::new(arr.expr_view()), Box::new(index.expr_view())),
{
    P(ArrayAccessNode::new(arr.into_expr(), index.into_expr()))
}

/// A function of the given name, parameters and body.
pub fn new_fn<E: IntoExpr, V: IntoAst>(name: Option<String>, params: Vec<E>, body: Vec<V>) -> (p: P<
    FunctionNode,
>)
    ensures
        p.ast_view() == AstV::Function(
            Seq::empty(),
            match name {
                Some(n) => Some(n@),
                None => None,
            },
            expr_views(params@),
            ast_views(body@),
        ),
{
    P(FunctionNode { name, params: into_exprs(params), body: P(BlockNode::new(body)) })
}

/// `if (condition)` over `body`.
pub fn new_if<E: IntoExpr, V: IntoAst>(condition: E, body: Vec<V>) -> (p: P<ControlFlowNode>)
    ensures
        p.ast_view() == AstV::ControlFlow(
            Seq::empty(),
            ControlFlowType::If,
            Some(condition.expr_view()),
            ast_views(body@),
        ),
{
    P(ControlFlowNode::new(ControlFlowType::If, Some(condition), body))
}

/// `else` over `body`.
pub fn new_else<V: IntoAst>(body: Vec<V>) -> (p: P<ControlFlowNode>)
    ensures
        p.ast_view() == AstV::ControlFlow(Seq::empty(), ControlFlowType::Else, None, ast_views(body@)),
{
    P(ControlFlowNode::new(ControlFlowType::Else, None::<ExprKind>, body))
}

/// `do` over `body`, `while (condition)`.
pub fn new_do_while<E: IntoExpr, V: IntoAst>(condition: E, body: Vec<V>) -> (p: P<ControlFlowNode>)
    ensures
        p.ast_view() == AstV::ControlFlow(
            Seq::empty(),
            ControlFlowType::DoWhile,
            Some(condition.expr_view()),
            ast_views(body@),
        ),
{
    P(ControlFlowNode::new(ControlFlowType::DoWhile, Some(condition), body))
}

/// The condition under which a branch with `opcode` runs its body: the jump expression
/// itself, or its logical negation after `Jne`.
pub open spec fn branch_condition(condition: ExprV, opcode: Option<Opcode>) -> ExprV {
    if opcode == Some(Opcode::Jne) {
        ExprV::UnaryOp(Box::new(condition), UnaryOpType::LogicalNot)
    } else {
        condition
    }
}

/// Whether the condition of a branch with `opcode` can be built: a string literal cannot be
/// negated.
pub open spec fn branch_condition_valid(condition: ExprV, opcode: Option<Opcode>) -> bool {
    opcode == Some(Opcode::Jne) ==> valid_operand_v(condition)
}

fn condition_for<E: IntoExpr>(condition: E, opcode: Option<Opcode>) -> (r: Result<ExprKind, AstNodeError>)
    ensures
        branch_condition_valid(condition.expr_view(), opcode) ==> (r matches Ok(e) && e@ == branch_condition(
            condition.expr_view(),
            opcode,
        )),
        !branch_condition_valid(condition.expr_view(), opcode) ==> r == Err::<ExprKind, AstNodeError>(
            AstNodeError::InvalidOperand,
        ),
{
    match opcode {
        Some(Opcode::Jne) => match new_unary_op(condition, UnaryOpType::LogicalNot) {
            Ok(p) => Ok(ExprKind::UnaryOp(p)),
            Err(e) => Err(e),
        },
        _ => Ok(condition.into_expr()),
    }
}

/// `while` over `body`, under the condition the branch `opcode` gives.
pub fn new_cyclic_condition<E: IntoExpr, V: IntoAst>(condition: E, body: Vec<V>, opcode: Option<Opcode>) -> (r: Result<
    P<ControlFlowNode>,
    AstNodeError,
>)
    ensures
        branch_condition_valid(condition.expr_view(), opcode) ==> (r matches Ok(p) && p.ast_view()
            == AstV::ControlFlow(
            Seq::empty(),
            ControlFlowType::While,
            Some(branch_condition(condition.expr_view(), opcode)),
            ast_views(body@),
        )),
        !branch_condition_valid(condition.expr_view(), opcode) ==> r == Err::<P<ControlFlowNode>, AstNodeError>(
            AstNodeError::InvalidOperand,
        ),
{
    match condition_for(condition, opcode) {
        Ok(c) => Ok(P(ControlFlowNode::new(ControlFlowType::While, Some(c), body))),
        Err(e) => Err(e),
    }
}

/// `if` over `body`, under the condition the branch `opcode` gives.
pub fn new_acylic_condition<E: IntoExpr, V: IntoAst>(condition: E, body: Vec<V>, opcode: Option<Opcode>) -> (r: Result<
    P<ControlFlowNode>,
    AstNodeError,
>)
    ensures
        branch_condition_valid(condition.expr_view(), opcode) ==> (r matches Ok(p) && p.ast_view()
            == AstV::ControlFlow(
            Seq::empty(),
            ControlFlowType::If,
            Some(branch_condition(condition.expr_view(), opcode)),
            ast_views(body@),
        )),
        !branch_condition_valid(condition.expr_view(), opcode) ==> r == Err::<P<ControlFlowNode>, AstNodeError>(
            AstNodeError::InvalidOperand,
        ),
{
    match condition_for(condition, opcode) {
        Ok(c) => Ok(P(ControlFlowNode::new(ControlFlowType::If, Some(c), body))),
        Err(e) => Err(e),
    }
}

/// A branch to region `branch`.
pub fn new_virtual_branch(branch: RegionId) -> (p: P<VirtualBranchNode>)
    ensures
        p.ast_view() == AstV::Statement(Seq::empty(), StmtV::VirtualBranch(branch.index)),
{
    P(VirtualBranchNode::new(branch))
}

/// A phi node of index `idx`, not resolved, with no regions.
pub fn new_phi(idx: usize) -> (p: PhiNode)
    ensures
        p.idx == idx,
        !p.resolved,
        p.region_ids@.len() == 0,
{
    PhiNode::new(idx)
}

/// The text of a node in the default context.
pub fn emit<N: IntoAst>(node: N) -> (s: String)
    requires
        ast_fits(node.ast_view(), 0, 4),
    ensures
        s@ == ast_text(node.ast_view(), default_context()),
{
    let a = node.into_ast();
    let mut out = String::new();
    let c = EmitContext::default();
    emit_ast_into(&mut out, &a, c);
    out
}

} // verus!
