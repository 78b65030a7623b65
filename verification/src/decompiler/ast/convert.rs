use vstd::prelude::*;

use crate::decompiler::ast::array_access::ArrayAccessNode;
use crate::decompiler::ast::array_kind::ArrayKind;
use crate::decompiler::ast::array_node::ArrayNode;
use crate::decompiler::ast::assignment::AssignmentNode;
use crate::decompiler::ast::bin_op::BinaryOperationNode;
use crate::decompiler::ast::block::BlockNode;
use crate::decompiler::ast::control_flow::ControlFlowNode;
use crate::decompiler::ast::expr::ExprKind;
use crate::decompiler::ast::func_call::FunctionCallNode;
use crate::decompiler::ast::function::FunctionNode;
use crate::decompiler::ast::identifier::IdentifierNode;
use crate::decompiler::ast::literal::LiteralNode;
use crate::decompiler::ast::member_access::MemberAccessNode;
use crate::decompiler::ast::new::NewNode;
use crate::decompiler::ast::new_array::NewArrayNode;
use crate::decompiler::ast::phi::PhiNode;
use crate::decompiler::ast::phi_array::PhiArrayNode;
use crate::decompiler::ast::ptr::P;
use crate::decompiler::ast::range::RangeNode;
use crate::decompiler::ast::ret::ReturnNode;
use crate::decompiler::ast::statement::StatementKind;
use crate::decompiler::ast::unary_op::UnaryOperationNode;
use crate::decompiler::ast::vbranch::VirtualBranchNode;
use crate::decompiler::ast::view::{asts_v, exprs_v, lemma_asts_v, lemma_exprs_v, AstV, ExprV};
use crate::decompiler::ast::AstKind;

verus! {

/// A node that can stand where an expression is expected.
pub trait IntoExpr: Sized {
    /// The expression the node becomes.
    spec fn expr_view(&self) -> ExprV;

    /// Converts the node into an expression.
    fn into_expr(self) -> (e: ExprKind)
        ensures
            e@ == self.expr_view(),
    ;
}

/// A node that can stand where any AST node is expected.
pub trait IntoAst: Sized {
    /// The AST node the node becomes.
    spec fn ast_view(&self) -> AstV;

    /// Converts the node into an AST node.
    fn into_ast(self) -> (a: AstKind)
        ensures
            a@ == self.ast_view(),
    ;
}

impl IntoExpr for ExprKind {
    open spec fn expr_view(&self) -> ExprV {
        self@
    }

    fn into_expr(self) -> (e: ExprKind) {
        self
    }
}

impl IntoExpr for P<LiteralNode> {
    open spec fn expr_view(&self) -> ExprV {
        ExprKind::Literal(*self)@
    }

    fn into_expr(self) -> (e: ExprKind) {
        ExprKind::Literal(self)
    }
}

impl IntoExpr for P<BinaryOperationNode> {
    open spec fn expr_view(&self) -> ExprV {
        ExprKind::BinOp(*self)@
    }

    fn into_expr(self) -> (e: ExprKind) {
        ExprKind::BinOp(self)
    }
}

impl IntoExpr for P<UnaryOperationNode> {
    open spec fn expr_view(&self) -> ExprV {
        ExprKind::UnaryOp(*self)@
    }

    fn into_expr(self) -> (e: ExprKind) {
        ExprKind::UnaryOp(self)
    }
}

impl IntoExpr for P<FunctionCallNode> {
    open spec fn expr_view(&self) -> ExprV {
        ExprKind::FunctionCall(*self)@
    }

    fn into_expr(self) -> (e: ExprKind) {
        ExprKind::FunctionCall(self)
    }
}

impl IntoExpr for ArrayKind {
    open spec fn expr_view(&self) -> ExprV {
        ExprKind::Array(*self)@
    }

    fn into_expr(self) -> (e: ExprKind) {
        ExprKind::Array(self)
    }
}

impl IntoExpr for P<ArrayNode> {
    open spec fn expr_view(&self) -> ExprV {
        ExprKind::Array(ArrayKind::MergedArray(*self))@
    }

    fn into_expr(self) -> (e: ExprKind) {
        ExprKind::Array(ArrayKind::MergedArray(self))
    }
}

impl IntoExpr for P<PhiArrayNode> {
    open spec fn expr_view(&self) -> ExprV {
        ExprKind::Array(ArrayKind::PhiArray(*self))@
    }

    fn into_expr(self) -> (e: ExprKind) {
        ExprKind::Array(ArrayKind::PhiArray(self))
    }
}

impl IntoExpr for P<NewNode> {
    open spec fn expr_view(&self) -> ExprV {
        ExprKind::New(*self)@
    }

    fn into_expr(self) -> (e: ExprKind) {
        ExprKind::New(self)
    }
}

impl IntoExpr for P<NewArrayNode> {
    open spec fn expr_view(&self) -> ExprV {
        ExprKind::NewArray(*self)@
    }

    fn into_expr(self) -> (e: ExprKind) {
        ExprKind::NewArray(self)
    }
}

impl IntoExpr for P<MemberAccessNode> {
    open spec fn expr_view(&self) -> ExprV {
        ExprKind::MemberAccess(*self)@
    }

    fn into_expr(self) -> (e: ExprKind) {
        ExprKind::MemberAccess(self)
    }
}

impl IntoExpr for P<IdentifierNode> {
    open spec fn expr_view(&self) -> ExprV {
        ExprKind::Identifier(*self)@
    }

    fn into_expr(self) -> (e: ExprKind) {
        ExprKind::Identifier(self)
    }
}

impl IntoExpr for P<ArrayAccessNode> {
    open spec fn expr_view(&self) -> ExprV {
        ExprKind::ArrayAccess(*self)@
    }

    fn into_expr(self) -> (e: ExprKind) {
        ExprKind::ArrayAccess(self)
    }
}

impl IntoExpr for P<PhiNode> {
    open spec fn expr_view(&self) -> ExprV {
        ExprKind::Phi(*self)@
    }

    fn into_expr(self) -> (e: ExprKind) {
        ExprKind::Phi(self)
    }
}

impl IntoExpr for P<RangeNode> {
    open spec fn expr_view(&self) -> ExprV {
        ExprKind::Range(*self)@
    }

    fn into_expr(self) -> (e: ExprKind) {
        ExprKind::Range(self)
    }
}

impl<T: IntoExpr> IntoAst for T {
    open spec fn ast_view(&self) -> AstV {
        AstV::Expression(self.expr_view())
    }

    fn into_ast(self) -> (a: AstKind) {
        AstKind::Expression(self.into_expr())
    }
}

impl IntoAst for AstKind {
    open spec fn ast_view(&self) -> AstV {
        self@
    }

    fn into_ast(self) -> (a: AstKind) {
        self
    }
}

impl IntoAst for StatementKind {
    open spec fn ast_view(&self) -> AstV {
        AstKind::Statement(*self)@
    }

    fn into_ast(self) -> (a: AstKind) {
        AstKind::Statement(self)
    }
}

impl IntoAst for P<AssignmentNode> {
    open spec fn ast_view(&self) -> AstV {
        AstKind::Statement(StatementKind::Assignment(*self))@
    }

    fn into_ast(self) -> (a: AstKind) {
        AstKind::Statement(StatementKind::Assignment(self))
    }
}

impl IntoAst for P<ReturnNode> {
    open spec fn ast_view(&self) -> AstV {
        AstKind::Statement(StatementKind::Return(*self))@
    }

    fn into_ast(self) -> (a: AstKind) {
        AstKind::Statement(StatementKind::Return(self))
    }
}

impl IntoAst for P<VirtualBranchNode> {
    open spec fn ast_view(&self) -> AstV {
        AstKind::Statement(StatementKind::VirtualBranch(*self))@
    }

    fn into_ast(self) -> (a: AstKind) {
        AstKind::Statement(StatementKind::VirtualBranch(self))
    }
}

impl IntoAst for P<FunctionNode> {
    open spec fn ast_view(&self) -> AstV {
        AstKind::Function(*self)@
    }

    fn into_ast(self) -> (a: AstKind) {
        AstKind::Function(self)
    }
}

impl IntoAst for P<BlockNode> {
    open spec fn ast_view(&self) -> AstV {
        AstKind::Block(*self)@
    }

    fn into_ast(self) -> (a: AstKind) {
        AstKind::Block(self)
    }
}

impl IntoAst for P<ControlFlowNode> {
    open spec fn ast_view(&self) -> AstV {
        AstKind::ControlFlow(*self)@
    }

    fn into_ast(self) -> (a: AstKind) {
        AstKind::ControlFlow(self)
    }
}

impl IntoAst for BlockNode {
    open spec fn ast_view(&self) -> AstV {
        AstV::Block(Seq::empty(), crate::decompiler::ast::view::asts_v(self.instructions@))
    }

    fn into_ast(self) -> (a: AstKind) {
        let p = crate::decompiler::ast::ptr::P(self);
        assert(p.metadata.comment_views() =~= Seq::empty());
        AstKind::Block(p)
    }
}

impl IntoAst for ControlFlowNode {
    open spec fn ast_view(&self) -> AstV {
        AstV::ControlFlow(
            Seq::empty(),
            self.ty,
            match self.expr {
                Some(e) => Some(e@),
                None => None,
            },
            crate::decompiler::ast::view::asts_v(self.then_block.ptr.instructions@),
        )
    }

    fn into_ast(self) -> (a: AstKind) {
        let p = crate::decompiler::ast::ptr::P(self);
        assert(p.metadata.comment_views() =~= Seq::empty());
        AstKind::ControlFlow(p)
    }
}

/// The expressions a list of nodes becomes.
pub open spec fn expr_views<E: IntoExpr>(v: Seq<E>) -> Seq<ExprV> {
    v.map_values(|e: E| e.expr_view())
}

/// The AST nodes a list of nodes becomes.
pub open spec fn ast_views<V: IntoAst>(v: Seq<V>) -> Seq<AstV> {
    v.map_values(|e: V| e.ast_view())
}

/// AST nodes stand for themselves.
pub proof fn lemma_ast_views_of_asts(s: Seq<AstKind>)
    ensures
        ast_views(s) == asts_v(s),
{
    lemma_asts_v(s);
    assert(ast_views(s) =~= asts_v(s));
}

/// Converts a list of nodes into expressions, in order.
pub fn into_exprs<E: IntoExpr>(v: Vec<E>) -> (r: Vec<ExprKind>)
    ensures
        exprs_v(r@) == expr_views(v@),
{
    let mut v = v;
    let ghost orig = v@;
    let mut rev: Vec<ExprKind> = Vec::new();
    while v.len() > 0
        invariant
            v@ == orig.take(v@.len() as int),
            v@.len() + rev@.len() == orig.len(),
            forall|i: int| 0 <= i < rev@.len() ==> #[trigger] rev@[i]@ == orig[orig.len() - 1 - i].expr_view(),
        decreases v@.len(),
    {
        let e = v.pop().unwrap();
        proof {
            assert(orig.take(v@.len() as int) =~= orig.take(v@.len() + 1 as int).drop_last());
        }
        rev.push(e.into_expr());
    }
    let mut r: Vec<ExprKind> = Vec::new();
    while rev.len() > 0
        invariant
            r@.len() + rev@.len() == orig.len(),
            forall|i: int| 0 <= i < rev@.len() ==> #[trigger] rev@[i]@ == orig[orig.len() - 1 - i].expr_view(),
            forall|i: int| 0 <= i < r@.len() ==> #[trigger] r@[i]@ == orig[i].expr_view(),
        decreases rev@.len(),
    {
        let e = rev.pop().unwrap();
        r.push(e);
    }
    proof {
        lemma_exprs_v(r@);
        assert(exprs_v(r@) =~= expr_views(orig));
    }
    r
}

/// Converts a list of nodes into AST nodes, in order.
pub fn into_asts<V: IntoAst>(v: Vec<V>) -> (r: Vec<AstKind>)
    ensures
        asts_v(r@) == ast_views(v@),
{
    let mut v = v;
    let ghost orig = v@;
    let mut rev: Vec<AstKind> = Vec::new();
    while v.len() > 0
        invariant
            v@ == orig.take(v@.len() as int),
            v@.len() + rev@.len() == orig.len(),
            forall|i: int| 0 <= i < rev@.len() ==> #[trigger] rev@[i]@ == orig[orig.len() - 1 - i].ast_view(),
        decreases v@.len(),
    {
        let e = v.pop().unwrap();
        proof {
            assert(orig.take(v@.len() as int) =~= orig.take(v@.len() + 1 as int).drop_last());
        }
        rev.push(e.into_ast());
    }
    let mut r: Vec<AstKind> = Vec::new();
    while rev.len() > 0
        invariant
            r@.len() + rev@.len() == orig.len(),
            forall|i: int| 0 <= i < rev@.len() ==> #[trigger] rev@[i]@ == orig[orig.len() - 1 - i].ast_view(),
            forall|i: int| 0 <= i < r@.len() ==> #[trigger] r@[i]@ == orig[i].ast_view(),
        decreases rev@.len(),
    {
        let e = rev.pop().unwrap();
        r.push(e);
    }
    proof {
        lemma_asts_v(r@);
        assert(asts_v(r@) =~= ast_views(orig));
    }
    r
}

} // verus!
