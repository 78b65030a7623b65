use vstd::prelude::*;

use crate::decompiler::ast::bin_op::BinOpType;
use crate::decompiler::ast::convert::IntoExpr;
use crate::decompiler::ast::unary_op::{valid_operand_v, UnaryOpType};
use crate::decompiler::ast::view::{AstV, ExprV};
use crate::decompiler::ast::expr::ExprKind;
use crate::decompiler::ast::{new_bin_op, new_unary_op, AstKind};
use crate::decompiler::function_decompiler_context::{
    agrees, pop_expr_m, push_m, ErrorV, FunctionDecompilerContext, FunctionDecompilerError, MachineV,
};
use crate::decompiler::handlers::{handler_ready, lemma_others_same_trans};
use crate::decompiler::{nothing_processed, ProcessedInstruction, ProcessedInstructionBuilder, ProcessedV};
use crate::instruction::Instruction;
use crate::decompiler::ast::AstNodeError;
use crate::opcode::Opcode;

verus! {

/// The processed instruction that carries a jump condition.
pub open spec fn jumping(c: ExprV) -> ProcessedV {
    ProcessedV { jump_condition: Some(c), ..nothing_processed() }
}

/// A jump: `Jne` and `With` jump on the popped condition, `Jeq` on its negation; `ForEach`
/// pops the iteration variable and the array, pushes them back, and jumps on the one
/// iterating over the other.
pub open spec fn jump_step(m: MachineV, op: Opcode) -> (Result<ProcessedV, ErrorV>, MachineV) {
    if op == Opcode::Jne || op == Opcode::With {
        let (r1, m1) = pop_expr_m(m);
        match r1 {
            Err(k) => (Err(k), m1),
            Ok(c) => (Ok(jumping(c)), m1),
        }
    } else if op == Opcode::Jeq {
        let (r1, m1) = pop_expr_m(m);
        match r1 {
            Err(k) => (Err(k), m1),
            Ok(c) => if valid_operand_v(c) {
                (Ok(jumping(ExprV::UnaryOp(Box::new(c), UnaryOpType::LogicalNot))), m1)
            } else {
                (Err(ErrorV::AstNode(AstNodeError::InvalidOperand)), m1)
            },
        }
    } else if op == Opcode::ForEach {
        let (r1, m1) = pop_expr_m(m);
        match r1 {
            Err(k) => (Err(k), m1),
            Ok(iter_var) => {
                let (r2, m2) = pop_expr_m(m1);
                match r2 {
                    Err(k) => (Err(k), m2),
                    Ok(arr) => {
                        let (r3, m3) = push_m(m2, AstV::Expression(arr));
                        match r3 {
                            Err(k) => (Err(k), m3),
                            Ok(_) => {
                                let (r4, m4) = push_m(m3, AstV::Expression(iter_var));
                                match r4 {
                                    Err(k) => (Err(k), m4),
                                    Ok(_) => (
                                        Ok(jumping(ExprV::BinOp(Box::new(iter_var), Box::new(arr), BinOpType::Foreach))),
                                        m4,
                                    ),
                                }
                            },
                        }
                    },
                }
            },
        }
    } else {
        (Err(ErrorV::UnimplementedOpcode(op)), m)
    }
}

/// Handles jumps.
pub struct JumpHandler;

impl JumpHandler {
    fn pop_condition(context: &mut FunctionDecompilerContext) -> (r: Result<ExprKind, FunctionDecompilerError>)
        requires
            handler_ready(*old(context)),
        ensures
            final(context).others_same(old(context)),
            final(context).machine() == pop_expr_m(old(context).machine()).1,
            agrees(r, pop_expr_m(old(context).machine()).0, |x: ExprKind| x@),
    {
        context.pop_expression()
    }

    fn handle_for_each(context: &mut FunctionDecompilerContext) -> (r: Result<ProcessedInstruction, FunctionDecompilerError>)
        requires
            handler_ready(*old(context)),
        ensures
            final(context).others_same(old(context)),
            final(context).machine() == jump_step(old(context).machine(), Opcode::ForEach).1,
            agrees(r, jump_step(old(context).machine(), Opcode::ForEach).0, |p: ProcessedInstruction| p@),
    {
        let ghost c0 = *context;
        let iter_var = match context.pop_expression() {
            Ok(e) => e,
            Err(e) => return Err(e),
        };
        let ghost c1 = *context;
        let arr = match context.pop_expression() {
            Ok(e) => e,
            Err(e) => {
                proof {
                    lemma_others_same_trans(*context, c1, c0);
                }
                return Err(e);
            },
        };
        let ghost c2 = *context;
        proof {
            lemma_others_same_trans(c2, c1, c0);
        }
        match context.push_one_node(AstKind::Expression(arr.clone())) {
            Ok(()) => {},
            Err(e) => {
                proof {
                    lemma_others_same_trans(*context, c2, c0);
                }
                return Err(e);
            },
        }
        let ghost c3 = *context;
        proof {
            lemma_others_same_trans(c3, c2, c0);
        }
        let pushed = context.push_one_node(AstKind::Expression(iter_var.clone()));
        proof {
            lemma_others_same_trans(*context, c3, c0);
        }
        match pushed {
            Ok(()) => {},
            Err(e) => return Err(e),
        }
        match new_bin_op(iter_var, arr, BinOpType::Foreach) {
            Ok(p) => Ok(ProcessedInstructionBuilder::new().jump_condition(p.into_expr()).build()),
            Err(e) => Err(FunctionDecompilerError::AstNodeError { source: e }),
        }
    }

    /// Pops the condition of the jump and hands it back.
    pub fn handle_instruction(&self, context: &mut FunctionDecompilerContext, instruction: &Instruction) -> (r: Result<
        ProcessedInstruction,
        FunctionDecompilerError,
    >)
        requires
            handler_ready(*old(context)),
        ensures
            final(context).others_same(old(context)),
            final(context).machine() == jump_step(old(context).machine(), instruction.opcode).1,
            agrees(r, jump_step(old(context).machine(), instruction.opcode).0, |p: ProcessedInstruction| p@),
    {
        let op = instruction.opcode;
        if op == Opcode::Jne || op == Opcode::With {
            match Self::pop_condition(context) {
                Ok(c) => Ok(ProcessedInstructionBuilder::new().jump_condition(c).build()),
                Err(e) => Err(e),
            }
        } else if op == Opcode::Jeq {
            let condition = match Self::pop_condition(context) {
                Ok(c) => c,
                Err(e) => return Err(e),
            };
            match new_unary_op(condition, UnaryOpType::LogicalNot) {
                Ok(p) => Ok(ProcessedInstructionBuilder::new().jump_condition(p.into_expr()).build()),
                Err(e) => Err(FunctionDecompilerError::AstNodeError { source: e }),
            }
        } else if op == Opcode::ForEach {
            Self::handle_for_each(context)
        } else {
            proof {
                lemma_context_unchanged(*context);
            }
            Err(FunctionDecompilerError::UnimplementedOpcode { opcode: op })
        }
    }
}

/// A context that is well set up keeps the other blocks next to itself.
proof fn lemma_context_unchanged(c: FunctionDecompilerContext)
    requires
        c.current_pos() is Some,
    ensures
        c.others_same(&c),
{
}

} // verus!
