use vstd::prelude::*;

use crate::decompiler::ast::array_kind::ArrayKind;
use crate::decompiler::ast::expr::ExprKind;
use crate::decompiler::ast::view::{AstV, ExprV};
use crate::decompiler::ast::AstKind;

/// The abstract syntax tree of decompiled GS2 code, and its emission as text.
pub mod ast;
/// The state of execution while instructions are decompiled.
pub mod execution_frame;
/// The stacks of nodes kept while the instructions of a function are decompiled.
pub mod function_decompiler_context;
/// The handlers of instructions.
pub mod handlers;
/// The structuring of control flow into regions.
pub mod structure_analysis;

verus! {

/// What the processing of an instruction hands back: the SSA identifier of its result, the
/// node it adds to the region, the parameters of the function, and the condition of a jump.
pub struct ProcessedInstruction {
    /// The SSA identifier of the result.
    pub ssa_id: Option<ExprKind>,
    /// The node added to the current region.
    pub node_to_push: Option<AstKind>,
    /// The parameters of the function.
    pub function_parameters: Option<ArrayKind>,
    /// The condition of a jump.
    pub jump_condition: Option<ExprKind>,
}

/// The abstract value of a processed instruction.
pub struct ProcessedV {
    /// The SSA identifier of the result.
    pub ssa_id: Option<ExprV>,
    /// The node added to the current region.
    pub node_to_push: Option<AstV>,
    /// The parameters of the function, as an array expression.
    pub function_parameters: Option<ExprV>,
    /// The condition of a jump.
    pub jump_condition: Option<ExprV>,
}

/// The abstract value of an optional expression.
pub open spec fn opt_v(e: Option<ExprKind>) -> Option<ExprV> {
    match e {
        Some(x) => Some(x@),
        None => None,
    }
}

impl View for ProcessedInstruction {
    type V = ProcessedV;

    open spec fn view(&self) -> ProcessedV {
        ProcessedV {
            ssa_id: opt_v(self.ssa_id),
            node_to_push: match self.node_to_push {
                Some(n) => Some(n@),
                None => None,
            },
            function_parameters: match self.function_parameters {
                Some(a) => Some(ExprKind::Array(a)@),
                None => None,
            },
            jump_condition: opt_v(self.jump_condition),
        }
    }
}

/// Nothing handed back.
pub open spec fn nothing_processed() -> ProcessedV {
    ProcessedV { ssa_id: None, node_to_push: None, function_parameters: None, jump_condition: None }
}

/// Builds a processed instruction, one part at a time.
pub struct ProcessedInstructionBuilder {
    processed: ProcessedInstruction,
}

impl View for ProcessedInstructionBuilder {
    type V = ProcessedV;

    closed spec fn view(&self) -> ProcessedV {
        self.processed@
    }
}

impl ProcessedInstructionBuilder {
    /// A builder of nothing.
    pub fn new() -> (b: Self)
        ensures
            b@ == nothing_processed(),
    {
        ProcessedInstructionBuilder {
            processed: ProcessedInstruction {
                ssa_id: None,
                node_to_push: None,
                function_parameters: None,
                jump_condition: None,
            },
        }
    }

    /// Sets the SSA identifier.
    pub fn ssa_id(self, ssa_id: ExprKind) -> (b: Self)
        ensures
            b@ == (ProcessedV { ssa_id: Some(ssa_id@), ..self@ }),
    {
        let mut b = self;
        b.processed.ssa_id = Some(ssa_id);
        b
    }

    /// Sets the node added to the region.
    pub fn push_to_region(self, node: AstKind) -> (b: Self)
        ensures
            b@ == (ProcessedV { node_to_push: Some(node@), ..self@ }),
    {
        let mut b = self;
        b.processed.node_to_push = Some(node);
        b
    }

    /// Sets the parameters of the function.
    pub fn function_parameters(self, parameters: ArrayKind) -> (b: Self)
        ensures
            b@ == (ProcessedV { function_parameters: Some(ExprKind::Array(parameters)@), ..self@ }),
    {
        let mut b = self;
        b.processed.function_parameters = Some(parameters);
        b
    }

    /// Sets the condition of the jump.
    pub fn jump_condition(self, condition: ExprKind) -> (b: Self)
        ensures
            b@ == (ProcessedV { jump_condition: Some(condition@), ..self@ }),
    {
        let mut b = self;
        b.processed.jump_condition = Some(condition);
        b
    }

    /// The processed instruction built.
    pub fn build(self) -> (p: ProcessedInstruction)
        ensures
            p@ == self@,
    {
        self.processed
    }
}

} // verus!
