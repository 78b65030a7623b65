use vstd::prelude::*;

use crate::decompiler::ast::convert::{IntoAst, IntoExpr};
use crate::decompiler::ast::expr::ExprKind;
use crate::decompiler::ast::ssa::{version_set, SsaVersion};
use crate::decompiler::ast::view::{AstV, ExprV, StmtV};
use crate::decompiler::ast::{new_assignment, new_fn_call, new_id_with_version};
use crate::decompiler::function_decompiler_context::{
    agrees, pop_array_m, push_m, ErrorV, FunctionDecompilerContext, FunctionDecompilerError, MachineV,
};
use crate::decompiler::handlers::{handler_ready, lemma_others_same_trans};
use crate::decompiler::{nothing_processed, ProcessedInstruction, ProcessedInstructionBuilder, ProcessedV};
use crate::instruction::Instruction;
use crate::decompiler::ast::AstNodeError;
use crate::opcode::Opcode;

verus! {

/// The instructions that end a list of operands: the array is popped; a call assigns the
/// call of its first element on the others to a new SSA version of `fn_call`; the end of the
/// parameters hands the array back; the end of an array pushes it.
pub open spec fn variable_operand_step(m: MachineV, op: Opcode) -> (Result<ProcessedV, ErrorV>, MachineV) {
    let (r1, m1) = pop_array_m(m);
    match r1 {
        Err(k) => (Err(k), m1),
        Ok(arr) => if op == Opcode::Call {
            let elements = arr->Array_1;
            if elements.len() == 0 {
                (Err(ErrorV::AstNode(AstNodeError::InvalidOperand)), m1)
            } else {
                let ver = m1.next_version;
                let id = ExprV::Identifier("fn_call"@, Some(ver.0));
                (
                    Ok(ProcessedV {
                        ssa_id: Some(id),
                        node_to_push: Some(
                            AstV::Statement(
                                Seq::empty(),
                                StmtV::Assignment(
                                    id,
                                    ExprV::FunctionCall(Box::new(elements[0]), elements.drop_first()),
                                ),
                            ),
                        ),
                        ..nothing_processed()
                    }),
                    MachineV {
                        versions: version_set(m1.versions, "fn_call"@, ver),
                        next_version: SsaVersion((ver.0 + 1) as usize),
                        ..m1
                    },
                )
            }
        } else if op == Opcode::EndParams {
            (Ok(ProcessedV { function_parameters: Some(arr), ..nothing_processed() }), m1)
        } else if op == Opcode::EndArray {
            let (r2, m2) = push_m(m1, AstV::Expression(arr));
            match r2 {
                Err(k) => (Err(k), m2),
                Ok(_) => (Ok(nothing_processed()), m2),
            }
        } else {
            (Err(ErrorV::UnimplementedOpcode(op)), m1)
        },
    }
}

/// Handles the instructions that end a list of operands.
pub struct VariableOperandHandler;

impl VariableOperandHandler {
    /// Pops the array of operands and builds the call, parameters or array it ends.
    pub fn handle_instruction(&self, context: &mut FunctionDecompilerContext, instruction: &Instruction) -> (r: Result<
        ProcessedInstruction,
        FunctionDecompilerError,
    >)
        requires
            handler_ready(*old(context)),
        ensures
            final(context).others_same(old(context)),
            final(context).machine() == variable_operand_step(old(context).machine(), instruction.opcode).1,
            agrees(r, variable_operand_step(old(context).machine(), instruction.opcode).0, |p: ProcessedInstruction| p@),
    {
        let ghost c0 = *context;
        let arr = match context.pop_building_array() {
            Ok(a) => a,
            Err(e) => return Err(e),
        };
        let ghost c1 = *context;
        let op = instruction.opcode;
        if op == Opcode::Call {
            let call = match new_fn_call(arr) {
                Ok(p) => p,
                Err(e) => return Err(FunctionDecompilerError::AstNodeError { source: e }),
            };
            let ver = context.ssa_context.new_ssa_version_for("fn_call");
            let ssa_id = new_id_with_version("fn_call", ver);
            let stmt = new_assignment(ssa_id.clone(), call);
            Ok(ProcessedInstructionBuilder::new().ssa_id(ssa_id.into_expr()).push_to_region(stmt.into_ast()).build())
        } else if op == Opcode::EndParams {
            Ok(ProcessedInstructionBuilder::new().function_parameters(arr).build())
        } else if op == Opcode::EndArray {
            let pushed = context.push_one_node(ExprKind::Array(arr).into_ast());
            proof {
                lemma_others_same_trans(*context, c1, c0);
            }
            match pushed {
                Ok(()) => Ok(ProcessedInstructionBuilder::new().build()),
                Err(e) => Err(e),
            }
        } else {
            Err(FunctionDecompilerError::UnimplementedOpcode { opcode: op })
        }
    }
}

} // verus!
