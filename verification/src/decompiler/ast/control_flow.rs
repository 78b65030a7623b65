use vstd::prelude::*;

use crate::decompiler::ast::block::BlockNode;
use crate::decompiler::ast::expr::ExprKind;
use crate::decompiler::ast::convert::{ast_views, IntoAst, IntoExpr};
use crate::decompiler::ast::ptr::P;
use crate::decompiler::ast::view::asts_v;

verus! {

/// Represents the type of control flow node.
#[derive(Debug, Clone, Copy, PartialEq, Eq, Structural)]
pub enum ControlFlowType {
    /// An if.
    If,
    /// An else if.
    ElseIf,
    /// An else.
    Else,
    /// A with.
    With,
    /// A while.
    While,
    /// A for.
    For,
    /// A do-while.
    DoWhile,
}

/// A control-flow construct: its kind, its condition, if any, and its body.
#[derive(Debug, PartialEq, Eq)]
pub struct ControlFlowNode {
    /// The kind of construct.
    pub ty: ControlFlowType,
    /// The condition.
    pub expr: Option<ExprKind>,
    /// The body.
    pub then_block: P<BlockNode>,
}

impl ControlFlowNode {
    /// Creates a control-flow construct of the given kind, condition and body.
    pub fn new<E: IntoExpr, V: IntoAst>(ty: ControlFlowType, condition: Option<E>, body: Vec<V>) -> (n: Self)
        ensures
            n.ty == ty,
            match condition {
                Some(c) => n.expr matches Some(e) && e@ == c.expr_view(),
                None => n.expr is None,
            },
            asts_v(n.then_block.ptr.instructions@) == ast_views(body@),
            n.then_block.metadata.comment_views() == Seq::<Seq<char>>::empty(),
    {
        let expr = match condition {
            Some(c) => Some(c.into_expr()),
            None => None,
        };
        ControlFlowNode { ty, expr, then_block: P(BlockNode::new(body)) }
    }

    /// Returns the condition.
    pub fn condition(&self) -> (c: &Option<ExprKind>)
        ensures
            *c == self.expr,
    {
        &self.expr
    }

    /// Returns the body.
    pub fn body(&self) -> (b: &P<BlockNode>)
        ensures
            *b == self.then_block,
    {
        &self.then_block
    }

    /// Returns the kind of construct.
    pub fn ty(&self) -> (t: &ControlFlowType)
        ensures
            *t == self.ty,
    {
        &self.ty
    }
}

} // verus!
