use vstd::prelude::*;

use crate::decompiler::ast::convert::IntoAst;
use crate::decompiler::ast::new_unary_op;
use crate::decompiler::ast::unary_op::{valid_operand_v, UnaryOpType};
use crate::decompiler::ast::view::{AstV, ExprV};
use crate::decompiler::function_decompiler_context::{
    agrees, pop_expr_m, push_m, ErrorV, FunctionDecompilerContext, FunctionDecompilerError, MachineV,
};
use crate::decompiler::handlers::{handler_ready, lemma_others_same_trans};
use crate::decompiler::{nothing_processed, ProcessedInstruction, ProcessedInstructionBuilder, ProcessedV};
use crate::instruction::Instruction;
use crate::decompiler::ast::AstNodeError;
use crate::opcode::Opcode;

verus! {

/// The unary operation of an opcode.
pub open spec fn unary_op_type_of(op: Opcode) -> Option<UnaryOpType> {
    match op {
        Opcode::LogicalNot => Some(UnaryOpType::LogicalNot),
        Opcode::BitwiseInvert => Some(UnaryOpType::BitwiseNot),
        Opcode::UnarySubtract => Some(UnaryOpType::Negate),
        _ => None,
    }
}

pub(crate) fn unary_operation_type(op: Opcode) -> (t: Option<UnaryOpType>)
    ensures
        t == unary_op_type_of(op),
{
    match op {
        Opcode::LogicalNot => Some(UnaryOpType::LogicalNot),
        Opcode::BitwiseInvert => Some(UnaryOpType::BitwiseNot),
        Opcode::UnarySubtract => Some(UnaryOpType::Negate),
        _ => None,
    }
}

/// A unary operation: the operand is popped and the operation on it pushed; a string
/// literal is refused as operand.
pub open spec fn un_op_step(m: MachineV, op: Opcode) -> (Result<ProcessedV, ErrorV>, MachineV) {
    let (r1, m1) = pop_expr_m(m);
    match r1 {
        Err(k) => (Err(k), m1),
        Ok(e) => match unary_op_type_of(op) {
            None => (Err(ErrorV::UnimplementedOpcode(op)), m1),
            Some(t) => if !valid_operand_v(e) {
                (Err(ErrorV::AstNode(AstNodeError::InvalidOperand)), m1)
            } else {
                let (r2, m2) = push_m(m1, AstV::Expression(ExprV::UnaryOp(Box::new(e), t)));
                match r2 {
                    Err(k) => (Err(k), m2),
                    Ok(_) => (Ok(nothing_processed()), m2),
                }
            },
        },
    }
}

/// Handles unary operations.
pub struct UnaryOperationHandler;

impl UnaryOperationHandler {
    /// Pops the operand and pushes the operation on it.
    pub fn handle_instruction(&self, context: &mut FunctionDecompilerContext, instruction: &Instruction) -> (r: Result<
        ProcessedInstruction,
        FunctionDecompilerError,
    >)
        requires
            handler_ready(*old(context)),
        ensures
            final(context).others_same(old(context)),
            final(context).machine() == un_op_step(old(context).machine(), instruction.opcode).1,
            agrees(r, un_op_step(old(context).machine(), instruction.opcode).0, |p: ProcessedInstruction| p@),
    {
        let ghost c0 = *context;
        let expr = match context.pop_expression() {
            Ok(e) => e,
            Err(e) => return Err(e),
        };
        let ghost c1 = *context;
        let op_type = match unary_operation_type(instruction.opcode) {
            Some(t) => t,
            None => return Err(FunctionDecompilerError::UnimplementedOpcode { opcode: instruction.opcode }),
        };
        let op = match new_unary_op(expr, op_type) {
            Ok(p) => p,
            Err(e) => return Err(FunctionDecompilerError::AstNodeError { source: e }),
        };
        let pushed = context.push_one_node(op.into_ast());
        proof {
            lemma_others_same_trans(*context, c1, c0);
        }
        match pushed {
            Ok(()) => Ok(ProcessedInstructionBuilder::new().build()),
            Err(e) => Err(e),
        }
    }
}

} // verus!
