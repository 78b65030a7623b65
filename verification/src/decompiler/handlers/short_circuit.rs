use vstd::prelude::*;

use crate::decompiler::ast::AstKind;
use crate::decompiler::ast::view::AstV;
use crate::decompiler::function_decompiler_context::{
    agrees, pop_expr_m, push_m, ErrorV, FunctionDecompilerContext, FunctionDecompilerError, MachineV,
};
use crate::decompiler::handlers::{handler_ready, lemma_others_same_trans};
use crate::decompiler::{nothing_processed, ProcessedInstruction, ProcessedInstructionBuilder, ProcessedV};
use crate::instruction::Instruction;
use crate::opcode::Opcode;

verus! {

/// A short-circuit operator: the condition is popped, pushed back, and becomes the condition
/// of the jump.
pub open spec fn short_circuit_step(m: MachineV, op: Opcode) -> (Result<ProcessedV, ErrorV>, MachineV) {
    let (r1, m1) = pop_expr_m(m);
    match r1 {
        Err(k) => (Err(k), m1),
        Ok(c) => {
            let (r2, m2) = push_m(m1, AstV::Expression(c));
            match r2 {
                Err(k) => (Err(k), m2),
                Ok(_) => if op == Opcode::ShortCircuitAnd || op == Opcode::ShortCircuitOr {
                    (Ok(ProcessedV { jump_condition: Some(c), ..nothing_processed() }), m2)
                } else {
                    (Err(ErrorV::UnimplementedOpcode(op)), m2)
                },
            }
        },
    }
}

/// Handles the short-circuit operators.
pub struct ShortCircuitHandler;

impl ShortCircuitHandler {
    /// Keeps the condition on the stack and hands it back as the condition of the jump.
    pub fn handle_instruction(&self, context: &mut FunctionDecompilerContext, instruction: &Instruction) -> (r: Result<
        ProcessedInstruction,
        FunctionDecompilerError,
    >)
        requires
            handler_ready(*old(context)),
        ensures
            final(context).others_same(old(context)),
            final(context).machine() == short_circuit_step(old(context).machine(), instruction.opcode).1,
            agrees(r, short_circuit_step(old(context).machine(), instruction.opcode).0, |p: ProcessedInstruction| p@),
    {
        let ghost c0 = *context;
        let condition = match context.pop_expression() {
            Ok(e) => e,
            Err(e) => return Err(e),
        };
        let ghost c1 = *context;
        let pushed = context.push_one_node(AstKind::Expression(condition.clone()));
        proof {
            lemma_others_same_trans(*context, c1, c0);
        }
        match pushed {
            Ok(()) => {},
            Err(e) => return Err(e),
        }
        if instruction.opcode == Opcode::ShortCircuitAnd || instruction.opcode == Opcode::ShortCircuitOr {
            Ok(ProcessedInstructionBuilder::new().jump_condition(condition).build())
        } else {
            Err(FunctionDecompilerError::UnimplementedOpcode { opcode: instruction.opcode })
        }
    }
}

} // verus!
