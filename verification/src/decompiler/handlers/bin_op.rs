use vstd::prelude::*;

use crate::decompiler::ast::bin_op::{binoptype_text, BinOpType};
use crate::decompiler::execution_frame::FrameV;
use crate::decompiler::ast::convert::IntoAst;
use crate::decompiler::ast::new_bin_op;
use crate::decompiler::ast::view::{AstV, ExprV};
use crate::decompiler::function_decompiler_context::{
    agrees, pop_expr_m, push_m, ErrorV, FunctionDecompilerContext, FunctionDecompilerError, MachineV,
};
use crate::decompiler::handlers::{handler_ready, lemma_others_same_trans};
use crate::decompiler::{nothing_processed, ProcessedInstruction, ProcessedInstructionBuilder, ProcessedV};
use crate::instruction::Instruction;
use crate::opcode::Opcode;

verus! {

/// The binary operation of an opcode.
pub open spec fn bin_op_type_of(op: Opcode) -> Option<BinOpType> {
    match op {
        Opcode::Add => Some(BinOpType::Add),
        Opcode::Subtract => Some(BinOpType::Sub),
        Opcode::Multiply => Some(BinOpType::Mul),
        Opcode::Divide => Some(BinOpType::Div),
        Opcode::Modulo => Some(BinOpType::Mod),
        Opcode::BitwiseAnd => Some(BinOpType::And),
        Opcode::BitwiseOr => Some(BinOpType::Or),
        Opcode::BitwiseXor => Some(BinOpType::Xor),
        Opcode::ShiftLeft => Some(BinOpType::ShiftLeft),
        Opcode::ShiftRight => Some(BinOpType::ShiftRight),
        Opcode::Equal => Some(BinOpType::Equal),
        Opcode::NotEqual => Some(BinOpType::NotEqual),
        Opcode::LessThan => Some(BinOpType::Less),
        Opcode::LessThanOrEqual => Some(BinOpType::LessOrEqual),
        Opcode::GreaterThan => Some(BinOpType::Greater),
        Opcode::GreaterThanOrEqual => Some(BinOpType::GreaterOrEqual),
        Opcode::ShortCircuitAnd => Some(BinOpType::LogicalAnd),
        Opcode::ShortCircuitOr => Some(BinOpType::LogicalOr),
        Opcode::In => Some(BinOpType::In),
        Opcode::Join => Some(BinOpType::Join),
        Opcode::Power => Some(BinOpType::Power),
        _ => None,
    }
}

pub(crate) fn binary_operation_type(op: Opcode) -> (t: Option<BinOpType>)
    ensures
        t == bin_op_type_of(op),
{
    match op {
        Opcode::Add => Some(BinOpType::Add),
        Opcode::Subtract => Some(BinOpType::Sub),
        Opcode::Multiply => Some(BinOpType::Mul),
        Opcode::Divide => Some(BinOpType::Div),
        Opcode::Modulo => Some(BinOpType::Mod),
        Opcode::BitwiseAnd => Some(BinOpType::And),
        Opcode::BitwiseOr => Some(BinOpType::Or),
        Opcode::BitwiseXor => Some(BinOpType::Xor),
        Opcode::ShiftLeft => Some(BinOpType::ShiftLeft),
        Opcode::ShiftRight => Some(BinOpType::ShiftRight),
        Opcode::Equal => Some(BinOpType::Equal),
        Opcode::NotEqual => Some(BinOpType::NotEqual),
        Opcode::LessThan => Some(BinOpType::Less),
        Opcode::LessThanOrEqual => Some(BinOpType::LessOrEqual),
        Opcode::GreaterThan => Some(BinOpType::Greater),
        Opcode::GreaterThanOrEqual => Some(BinOpType::GreaterOrEqual),
        Opcode::ShortCircuitAnd => Some(BinOpType::LogicalAnd),
        Opcode::ShortCircuitOr => Some(BinOpType::LogicalOr),
        Opcode::In => Some(BinOpType::In),
        Opcode::Join => Some(BinOpType::Join),
        Opcode::Power => Some(BinOpType::Power),
        _ => None,
    }
}

/// A binary operation: the right operand is popped, then the left one, and the operation on
/// them is pushed.
pub open spec fn bin_op_step(m: MachineV, op: Opcode) -> (Result<ProcessedV, ErrorV>, MachineV) {
    let (r1, m1) = pop_expr_m(m);
    match r1 {
        Err(k) => (Err(k), m1),
        Ok(rhs) => {
            let (r2, m2) = pop_expr_m(m1);
            match r2 {
                Err(k) => (Err(k), m2),
                Ok(lhs) => match bin_op_type_of(op) {
                    None => (Err(ErrorV::UnimplementedOpcode(op)), m2),
                    Some(t) => {
                        let (r3, m3) = push_m(m2, AstV::Expression(ExprV::BinOp(Box::new(lhs), Box::new(rhs), t)));
                        match r3 {
                            Err(k) => (Err(k), m3),
                            Ok(_) => (Ok(nothing_processed()), m3),
                        }
                    },
                },
            }
        },
    }
}

/// The operator text of the operation an opcode pushes, if it pushes one.
pub open spec fn operator_text_of(op: Opcode) -> Option<Seq<char>> {
    match bin_op_type_of(op) {
        Some(t) => Some(binoptype_text(t)),
        None => None,
    }
}

/// Each binary opcode pushes the operation its name says: `Add` adds, `Multiply`
/// multiplies, `LessThan` compares with `<`, and so on for every one of them.
pub proof fn law_opcode_operators()
    ensures
        operator_text_of(Opcode::Add) == Some("+"@),
        operator_text_of(Opcode::Subtract) == Some("-"@),
        operator_text_of(Opcode::Multiply) == Some("*"@),
        operator_text_of(Opcode::Divide) == Some("/"@),
        operator_text_of(Opcode::Modulo) == Some("%"@),
        operator_text_of(Opcode::BitwiseAnd) == Some("&"@),
        operator_text_of(Opcode::BitwiseOr) == Some("|"@),
        operator_text_of(Opcode::BitwiseXor) == Some("xor"@),
        operator_text_of(Opcode::ShiftLeft) == Some("<<"@),
        operator_text_of(Opcode::ShiftRight) == Some(">>"@),
        operator_text_of(Opcode::Equal) == Some("=="@),
        operator_text_of(Opcode::NotEqual) == Some("!="@),
        operator_text_of(Opcode::LessThan) == Some("<"@),
        operator_text_of(Opcode::LessThanOrEqual) == Some("<="@),
        operator_text_of(Opcode::GreaterThan) == Some(">"@),
        operator_text_of(Opcode::GreaterThanOrEqual) == Some(">="@),
        operator_text_of(Opcode::ShortCircuitAnd) == Some("&&"@),
        operator_text_of(Opcode::ShortCircuitOr) == Some("||"@),
        operator_text_of(Opcode::In) == Some("in"@),
        operator_text_of(Opcode::Join) == Some("@"@),
        operator_text_of(Opcode::Power) == Some("^"@),
{
}

/// A binary operation takes the value pushed first as its left operand: on a stack ending
/// with the expressions `a` and `b` (`b` on top), the opcode pops both and pushes `a op b`.
pub proof fn law_bin_op_operand_order(m: MachineV, op: Opcode, a: ExprV, b: ExprV, below: Seq<FrameV>)
    requires
        m.stack == below.push(FrameV::Standalone(AstV::Expression(a))).push(FrameV::Standalone(AstV::Expression(b))),
        below.len() == 0 || below.last() is Standalone,
        bin_op_type_of(op) is Some,
    ensures
        bin_op_step(m, op).0 == Ok::<ProcessedV, ErrorV>(nothing_processed()),
        bin_op_step(m, op).1.stack == below.push(
            FrameV::Standalone(AstV::Expression(ExprV::BinOp(Box::new(a), Box::new(b), bin_op_type_of(op)->Some_0))),
        ),
{
    let s1 = m.stack.drop_last();
    assert(s1 =~= below.push(FrameV::Standalone(AstV::Expression(a))));
    assert(s1.drop_last() =~= below);
}

/// Handles binary operations.
pub struct BinaryOperationHandler;

impl BinaryOperationHandler {
    /// Pops the right and left operands and pushes their operation.
    pub fn handle_instruction(&self, context: &mut FunctionDecompilerContext, instruction: &Instruction) -> (r: Result<
        ProcessedInstruction,
        FunctionDecompilerError,
    >)
        requires
            handler_ready(*old(context)),
        ensures
            final(context).others_same(old(context)),
            final(context).machine() == bin_op_step(old(context).machine(), instruction.opcode).1,
            agrees(r, bin_op_step(old(context).machine(), instruction.opcode).0, |p: ProcessedInstruction| p@),
    {
        let ghost c0 = *context;
        let rhs = match context.pop_expression() {
            Ok(e) => e,
            Err(e) => return Err(e),
        };
        let ghost c1 = *context;
        let lhs = match context.pop_expression() {
            Ok(e) => e,
            Err(e) => {
                proof {
                    lemma_others_same_trans(*context, c1, c0);
                }
                return Err(e);
            },
        };
        let ghost c2 = *context;
        proof {
            lemma_others_same_trans(c2, c1, c0);
        }
        let op_type = match binary_operation_type(instruction.opcode) {
            Some(t) => t,
            None => return Err(FunctionDecompilerError::UnimplementedOpcode { opcode: instruction.opcode }),
        };
        let op = match new_bin_op(lhs, rhs, op_type) {
            Ok(p) => p,
            Err(e) => return Err(FunctionDecompilerError::AstNodeError { source: e }),
        };
        let pushed = context.push_one_node(op.into_ast());
        proof {
            lemma_others_same_trans(*context, c2, c0);
        }
        match pushed {
            Ok(()) => Ok(ProcessedInstructionBuilder::new().build()),
            Err(e) => Err(e),
        }
    }
}

} // verus!
