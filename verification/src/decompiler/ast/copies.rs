use vstd::prelude::*;

use crate::decompiler::ast::array_access::ArrayAccessNode;
use crate::decompiler::ast::array_kind::ArrayKind;
use crate::decompiler::ast::array_node::ArrayNode;
use crate::decompiler::ast::assignment::AssignmentNode;
use crate::decompiler::ast::bin_op::BinaryOperationNode;
use crate::decompiler::ast::block::BlockNode;
use crate::decompiler::ast::control_flow::ControlFlowNode;
use crate::decompiler::ast::expr::ExprKind;
use crate::decompiler::ast::func_call::FunctionCallNode;
use crate::decompiler::ast::function::FunctionNode;
use crate::decompiler::ast::identifier::IdentifierNode;
use crate::decompiler::ast::literal::LiteralNode;
use crate::decompiler::ast::member_access::MemberAccessNode;
use crate::decompiler::ast::meta::{property_views, Metadata};
use crate::decompiler::ast::new::NewNode;
use crate::decompiler::ast::new_array::NewArrayNode;
use crate::decompiler::ast::phi::PhiNode;
use crate::decompiler::ast::phi_array::PhiArrayNode;
use crate::decompiler::ast::ptr::P;
use crate::decompiler::ast::range::RangeNode;
use crate::decompiler::ast::ret::ReturnNode;
use crate::decompiler::ast::statement::StatementKind;
use crate::decompiler::ast::unary_op::UnaryOperationNode;
use crate::decompiler::ast::vbranch::VirtualBranchNode;
use crate::decompiler::ast::view::{asts_v, exprs_v};
use crate::decompiler::ast::AstKind;

verus! {

impl Clone for Metadata {
    /// Copies the comments and the properties.
    fn clone(&self) -> (m: Self)
        ensures
            m.comments@ == self.comments@,
            m.properties@ == self.properties@,
            m.comment_views() == self.comment_views(),
            property_views(m.properties@) == property_views(self.properties@),
    {
        let mut comments: Vec<String> = Vec::new();
        let mut i: usize = 0;
        while i < self.comments.len()
            invariant
                i <= self.comments@.len(),
                comments@ == self.comments@.take(i as int),
            decreases self.comments@.len() - i,
        {
            comments.push(self.comments[i].clone());
            proof {
                assert(self.comments@.take(i + 1) =~= self.comments@.take(i as int).push(self.comments@[i as int]));
            }
            i = i + 1;
        }
        let mut properties: Vec<(String, String)> = Vec::new();
        let mut j: usize = 0;
        while j < self.properties.len()
            invariant
                j <= self.properties@.len(),
                properties@ == self.properties@.take(j as int),
            decreases self.properties@.len() - j,
        {
            let k = self.properties[j].0.clone();
            let v = self.properties[j].1.clone();
            properties.push((k, v));
            proof {
                assert(self.properties@.take(j + 1) =~= self.properties@.take(j as int).push(self.properties@[j as int]));
            }
            j = j + 1;
        }
        proof {
            assert(comments@ =~= self.comments@);
            assert(properties@ =~= self.properties@);
        }
        Metadata { comments, properties }
    }
}

impl Clone for LiteralNode {
    /// Copies the literal.
    fn clone(&self) -> (l: Self)
        ensures
            l == *self,
    {
        match self {
            LiteralNode::String(s) => LiteralNode::String(s.clone()),
            LiteralNode::Number(n) => LiteralNode::Number(*n),
            LiteralNode::Float(s) => LiteralNode::Float(s.clone()),
            LiteralNode::Boolean(b) => LiteralNode::Boolean(*b),
            LiteralNode::Null => LiteralNode::Null,
        }
    }
}

impl Clone for IdentifierNode {
    /// Copies the identifier.
    fn clone(&self) -> (n: Self)
        ensures
            n == *self,
    {
        IdentifierNode { id: self.id.clone(), ssa_version: self.ssa_version }
    }
}

impl Clone for PhiNode {
    /// Copies the phi node.
    fn clone(&self) -> (n: Self)
        ensures
            n.idx == self.idx,
            n.resolved == self.resolved,
            n.region_ids@ == self.region_ids@,
    {
        let mut region_ids = Vec::new();
        let mut i: usize = 0;
        while i < self.region_ids.len()
            invariant
                i <= self.region_ids@.len(),
                region_ids@ == self.region_ids@.take(i as int),
            decreases self.region_ids@.len() - i,
        {
            region_ids.push(self.region_ids[i]);
            proof {
                assert(self.region_ids@.take(i + 1) =~= self.region_ids@.take(i as int).push(self.region_ids@[i as int]));
            }
            i = i + 1;
        }
        proof {
            assert(region_ids@ =~= self.region_ids@);
        }
        PhiNode { resolved: self.resolved, region_ids, idx: self.idx }
    }
}

impl Clone for VirtualBranchNode {
    /// Copies the branch.
    fn clone(&self) -> (n: Self)
        ensures
            n == *self,
    {
        VirtualBranchNode { branch: self.branch }
    }
}

impl<T: Clone> Clone for P<T> {
    /// Copies the node, its identifier and its metadata.
    fn clone(&self) -> (p: Self)
        ensures
            cloned::<T>(*self.ptr, *p.ptr),
            p.node_id == self.node_id,
            p.metadata.comment_views() == self.metadata.comment_views(),
    {
        P { ptr: Box::new((*self.ptr).clone()), node_id: self.node_id, metadata: self.metadata.clone() }
    }
}

/// Wraps a node with the identifier and metadata of `p`.
fn rewrap<T, U>(p: &P<T>, value: U) -> (q: P<U>)
    ensures
        *q.ptr == value,
        q.node_id == p.node_id,
        q.metadata.comment_views() == p.metadata.comment_views(),
{
    P { ptr: Box::new(value), node_id: p.node_id, metadata: p.metadata.clone() }
}

/// Copies an expression.
pub fn copy_expr(e: &ExprKind) -> (r: ExprKind)
    ensures
        r@ == e@,
    decreases e, 1nat,
{
    match e {
        ExprKind::Literal(p) => literal_expr(p),
        ExprKind::BinOp(p) => bin_op_expr(p),
        ExprKind::UnaryOp(p) => unary_op_expr(p),
        ExprKind::FunctionCall(p) => function_call_expr(p),
        ExprKind::Array(ArrayKind::MergedArray(p)) => array_node_expr(p),
        ExprKind::Array(ArrayKind::PhiArray(p)) => phi_array_expr(p),
        ExprKind::New(p) => new_expr(p),
        ExprKind::NewArray(p) => new_array_expr(p),
        ExprKind::MemberAccess(p) => member_access_expr(p),
        ExprKind::Identifier(p) => identifier_expr(p),
        ExprKind::ArrayAccess(p) => array_access_expr(p),
        ExprKind::Phi(p) => phi_expr(p),
        ExprKind::Range(p) => range_expr(p),
    }
}

/// A literal, as an expression.
pub fn literal_expr(p: &P<LiteralNode>) -> (r: ExprKind)
    ensures
        r@ == ExprKind::Literal(*p)@,
{
    ExprKind::Literal(rewrap(p, (*p.ptr).clone()))
}

/// A copy of a binary operation, as an expression.
pub fn bin_op_expr(p: &P<BinaryOperationNode>) -> (r: ExprKind)
    ensures
        r@ == ExprKind::BinOp(*p)@,
    decreases p, 0nat,
{
    let n = BinaryOperationNode {
        lhs: copy_expr(&p.ptr.lhs),
        rhs: copy_expr(&p.ptr.rhs),
        op_type: p.ptr.op_type,
    };
    ExprKind::BinOp(rewrap(p, n))
}

/// A copy of a unary operation, as an expression.
pub fn unary_op_expr(p: &P<UnaryOperationNode>) -> (r: ExprKind)
    ensures
        r@ == ExprKind::UnaryOp(*p)@,
    decreases p, 0nat,
{
    let n = UnaryOperationNode { operand: copy_expr(&p.ptr.operand), op_type: p.ptr.op_type };
    ExprKind::UnaryOp(rewrap(p, n))
}

/// A copy of a function call, as an expression.
pub fn function_call_expr(p: &P<FunctionCallNode>) -> (r: ExprKind)
    ensures
        r@ == ExprKind::FunctionCall(*p)@,
    decreases p, 0nat,
{
    let n = FunctionCallNode { name: copy_expr(&p.ptr.name), arguments: copy_exprs(&p.ptr.arguments) };
    ExprKind::FunctionCall(rewrap(p, n))
}

/// A copy of an array, as an expression.
pub fn array_expr(a: &ArrayKind) -> (r: ExprKind)
    ensures
        r@ == ExprKind::Array(*a)@,
{
    match a {
        ArrayKind::MergedArray(p) => array_node_expr(p),
        ArrayKind::PhiArray(p) => phi_array_expr(p),
    }
}

/// A copy of an array built in one block, as an expression.
pub fn array_node_expr(p: &P<ArrayNode>) -> (r: ExprKind)
    ensures
        r@ == ExprKind::Array(ArrayKind::MergedArray(*p))@,
    decreases p, 0nat,
{
    let n = ArrayNode { elements: copy_exprs(&p.ptr.elements) };
    ExprKind::Array(ArrayKind::MergedArray(rewrap(p, n)))
}

/// A copy of an array merged from predecessors, as an expression.
pub fn phi_array_expr(p: &P<PhiArrayNode>) -> (r: ExprKind)
    ensures
        r@ == ExprKind::Array(ArrayKind::PhiArray(*p))@,
    decreases p, 0nat,
{
    let n = PhiArrayNode { phi: p.ptr.phi.clone(), elements: copy_exprs(&p.ptr.elements) };
    ExprKind::Array(ArrayKind::PhiArray(rewrap(p, n)))
}

/// A copy of an object creation, as an expression.
pub fn new_expr(p: &P<NewNode>) -> (r: ExprKind)
    ensures
        r@ == ExprKind::New(*p)@,
    decreases p, 0nat,
{
    let n = NewNode { new_type: copy_expr(&p.ptr.new_type), arg: copy_expr(&p.ptr.arg) };
    ExprKind::New(rewrap(p, n))
}

/// A copy of an array creation, as an expression.
pub fn new_array_expr(p: &P<NewArrayNode>) -> (r: ExprKind)
    ensures
        r@ == ExprKind::NewArray(*p)@,
    decreases p, 0nat,
{
    let n = NewArrayNode { arg: copy_expr(&p.ptr.arg) };
    ExprKind::NewArray(rewrap(p, n))
}

/// A copy of a member access, as an expression.
pub fn member_access_expr(p: &P<MemberAccessNode>) -> (r: ExprKind)
    ensures
        r@ == ExprKind::MemberAccess(*p)@,
    decreases p, 0nat,
{
    let n = MemberAccessNode { lhs: copy_expr(&p.ptr.lhs), rhs: copy_expr(&p.ptr.rhs) };
    ExprKind::MemberAccess(rewrap(p, n))
}

/// A copy of an identifier, as an expression.
pub fn identifier_expr(p: &P<IdentifierNode>) -> (r: ExprKind)
    ensures
        r@ == ExprKind::Identifier(*p)@,
{
    ExprKind::Identifier(rewrap(p, (*p.ptr).clone()))
}

/// A copy of an array access, as an expression.
pub fn array_access_expr(p: &P<ArrayAccessNode>) -> (r: ExprKind)
    ensures
        r@ == ExprKind::ArrayAccess(*p)@,
    decreases p, 0nat,
{
    let n = ArrayAccessNode {
        arr: copy_expr(&p.ptr.arr),
        index: copy_expr(&p.ptr.index),
        ssa_version: p.ptr.ssa_version,
    };
    ExprKind::ArrayAccess(rewrap(p, n))
}

/// A copy of a phi node, as an expression.
pub fn phi_expr(p: &P<PhiNode>) -> (r: ExprKind)
    ensures
        r@ == ExprKind::Phi(*p)@,
{
    ExprKind::Phi(rewrap(p, (*p.ptr).clone()))
}

/// A copy of a range, as an expression.
pub fn range_expr(p: &P<RangeNode>) -> (r: ExprKind)
    ensures
        r@ == ExprKind::Range(*p)@,
    decreases p, 0nat,
{
    let n = RangeNode { start: copy_expr(&p.ptr.start), end: copy_expr(&p.ptr.end) };
    ExprKind::Range(rewrap(p, n))
}

/// Copies a list of expressions.
pub fn copy_exprs(v: &Vec<ExprKind>) -> (r: Vec<ExprKind>)
    ensures
        exprs_v(r@) == exprs_v(v@),
    decreases v, 1nat,
{
    let mut r: Vec<ExprKind> = Vec::new();
    let mut i: usize = 0;
    while i < v.len()
        invariant
            i <= v@.len(),
            r@.len() == i,
            exprs_v(r@) == exprs_v(v@.take(i as int)),
        decreases v@.len() - i,
    {
        proof {
            assert(decreases_to!(v => v@[i as int]));
        }
        let e = copy_expr(&v[i]);
        let ghost before = r@;
        r.push(e);
        proof {
            assert(v@.take(i + 1).drop_last() =~= v@.take(i as int));
            assert(r@.drop_last() =~= before);
        }
        i = i + 1;
    }
    proof {
        assert(v@.take(i as int) =~= v@);
    }
    r
}

/// Copies a statement.
pub fn copy_stmt(s: &StatementKind) -> (r: StatementKind)
    ensures
        r@ == s@,
        crate::decompiler::ast::view::stmt_comments(r) == crate::decompiler::ast::view::stmt_comments(*s),
{
    match s {
        StatementKind::Assignment(p) => assignment_stmt(p),
        StatementKind::Return(p) => return_stmt(p),
        StatementKind::VirtualBranch(p) => virtual_branch_stmt(p),
    }
}

/// A copy of an assignment, as a statement.
pub fn assignment_stmt(p: &P<AssignmentNode>) -> (r: StatementKind)
    ensures
        r@ == StatementKind::Assignment(*p)@,
        crate::decompiler::ast::view::stmt_comments(r) == p.metadata.comment_views(),
{
    let n = AssignmentNode { lhs: copy_expr(&p.ptr.lhs), rhs: copy_expr(&p.ptr.rhs) };
    StatementKind::Assignment(rewrap(p, n))
}

/// A copy of a return, as a statement.
pub fn return_stmt(p: &P<ReturnNode>) -> (r: StatementKind)
    ensures
        r@ == StatementKind::Return(*p)@,
        crate::decompiler::ast::view::stmt_comments(r) == p.metadata.comment_views(),
{
    let n = ReturnNode { ret: copy_expr(&p.ptr.ret) };
    StatementKind::Return(rewrap(p, n))
}

/// A copy of a branch to another region, as a statement.
pub fn virtual_branch_stmt(p: &P<VirtualBranchNode>) -> (r: StatementKind)
    ensures
        r@ == StatementKind::VirtualBranch(*p)@,
        crate::decompiler::ast::view::stmt_comments(r) == p.metadata.comment_views(),
{
    StatementKind::VirtualBranch(rewrap(p, (*p.ptr).clone()))
}

/// Copies a block.
pub fn copy_block(b: &P<BlockNode>) -> (r: P<BlockNode>)
    ensures
        asts_v(r.ptr.instructions@) == asts_v(b.ptr.instructions@),
        r.metadata.comment_views() == b.metadata.comment_views(),
    decreases b, 1nat,
{
    let n = BlockNode { instructions: copy_asts(&b.ptr.instructions) };
    rewrap(b, n)
}

/// Copies an AST node.
pub fn copy_ast(a: &AstKind) -> (r: AstKind)
    ensures
        r@ == a@,
    decreases a, 1nat,
{
    match a {
        AstKind::Expression(e) => AstKind::Expression(copy_expr(e)),
        AstKind::Statement(s) => AstKind::Statement(copy_stmt(s)),
        AstKind::Function(p) => function_ast(p),
        AstKind::Block(p) => AstKind::Block(copy_block(p)),
        AstKind::ControlFlow(p) => control_flow_ast(p),
        AstKind::Empty => AstKind::Empty,
    }
}

/// A copy of a function, as an AST node.
pub fn function_ast(p: &P<FunctionNode>) -> (r: AstKind)
    ensures
        r@ == AstKind::Function(*p)@,
    decreases p, 0nat,
{
    let name = match &p.ptr.name {
        Some(n) => Some(n.clone()),
        None => None,
    };
    let n = FunctionNode { name, params: copy_exprs(&p.ptr.params), body: copy_block(&p.ptr.body) };
    AstKind::Function(rewrap(p, n))
}

/// A copy of a block, as an AST node.
pub fn block_ast(p: &P<BlockNode>) -> (r: AstKind)
    ensures
        r@ == AstKind::Block(*p)@,
{
    AstKind::Block(copy_block(p))
}

/// A copy of a control-flow construct, as an AST node.
pub fn control_flow_ast(p: &P<ControlFlowNode>) -> (r: AstKind)
    ensures
        r@ == AstKind::ControlFlow(*p)@,
    decreases p, 0nat,
{
    let expr = match &p.ptr.expr {
        Some(e) => Some(copy_expr(e)),
        None => None,
    };
    let n = ControlFlowNode { ty: p.ptr.ty, expr, then_block: copy_block(&p.ptr.then_block) };
    AstKind::ControlFlow(rewrap(p, n))
}

/// Copies a list of AST nodes.
pub fn copy_asts(v: &Vec<AstKind>) -> (r: Vec<AstKind>)
    ensures
        asts_v(r@) == asts_v(v@),
    decreases v, 1nat,
{
    let mut r: Vec<AstKind> = Vec::new();
    let mut i: usize = 0;
    while i < v.len()
        invariant
            i <= v@.len(),
            r@.len() == i,
            asts_v(r@) == asts_v(v@.take(i as int)),
        decreases v@.len() - i,
    {
        proof {
            assert(decreases_to!(v => v@[i as int]));
        }
        let e = copy_ast(&v[i]);
        let ghost before = r@;
        r.push(e);
        proof {
            assert(v@.take(i + 1).drop_last() =~= v@.take(i as int));
            assert(r@.drop_last() =~= before);
        }
        i = i + 1;
    }
    proof {
        assert(v@.take(i as int) =~= v@);
    }
    r
}

impl Clone for AssignmentNode {
    /// Copies both sides of the assignment.
    fn clone(&self) -> (n: Self)
        ensures
            n.lhs@ == self.lhs@,
            n.rhs@ == self.rhs@,
    {
        AssignmentNode { lhs: copy_expr(&self.lhs), rhs: copy_expr(&self.rhs) }
    }
}

impl Clone for ExprKind {
    /// Copies the expression.
    fn clone(&self) -> (r: Self)
        ensures
            r@ == self@,
    {
        copy_expr(self)
    }
}

impl Clone for AstKind {
    /// Copies the node.
    fn clone(&self) -> (r: Self)
        ensures
            r@ == self@,
    {
        copy_ast(self)
    }
}

impl Clone for StatementKind {
    /// Copies the statement.
    fn clone(&self) -> (r: Self)
        ensures
            r@ == self@,
    {
        copy_stmt(self)
    }
}

} // verus!
