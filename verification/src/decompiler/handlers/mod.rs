use vstd::prelude::*;

use crate::decompiler::function_decompiler_context::{
    agrees, ErrorV, FunctionDecompilerContext, FunctionDecompilerError, MachineV,
};
use crate::decompiler::handlers::bin_op::{bin_op_step, bin_op_type_of, binary_operation_type, BinaryOperationHandler};
use crate::decompiler::handlers::jump::{jump_step, JumpHandler};
use crate::decompiler::handlers::literal::{literal_step, LiteralHandler};
use crate::decompiler::handlers::nop::NopHandler;
use crate::decompiler::handlers::short_circuit::{short_circuit_step, ShortCircuitHandler};
use crate::decompiler::handlers::special_two_operand::{two_operand_step, SpecialTwoOperandHandler};
use crate::decompiler::handlers::un_op::{un_op_step, unary_op_type_of, unary_operation_type, UnaryOperationHandler};
use crate::decompiler::handlers::variable_operand::{variable_operand_step, VariableOperandHandler};
use crate::decompiler::{nothing_processed, ProcessedInstruction, ProcessedV};
use crate::instruction::{Instruction, InstructionView};
use crate::opcode::Opcode;

/// Binary operations.
pub mod bin_op;
/// Jumps.
pub mod jump;
/// Literals.
pub mod literal;
/// Instructions that change nothing.
pub mod nop;
/// Short-circuit operators.
pub mod short_circuit;
/// Instructions on two operands.
pub mod special_two_operand;
/// Unary operations.
pub mod un_op;
/// Instructions that end a list of operands.
pub mod variable_operand;

verus! {

/// What every handler needs of the context: a stack for the current block, room for two
/// more phi nodes in it, and for one more SSA version.
pub open spec fn handler_ready(c: FunctionDecompilerContext) -> bool {
    &&& c.current_pos() is Some
    &&& c.current_phi_count() + 2 < usize::MAX
    &&& c.ssa_context.next_version.0 < usize::MAX
}

/// Keeping the other blocks as they were is transitive.
pub proof fn lemma_others_same_trans(c2: FunctionDecompilerContext, c1: FunctionDecompilerContext, c0: FunctionDecompilerContext)
    requires
        c2.others_same(&c1),
        c1.others_same(&c0),
    ensures
        c2.others_same(&c0),
{
}

/// The handlers of instructions, one for each family of opcodes.
#[derive(Clone, Copy, Debug, PartialEq, Eq)]
pub enum OpcodeHandlerKind {
    /// Binary operations.
    BinaryOperation,
    /// Jumps.
    Jump,
    /// Literals.
    Literal,
    /// Instructions that change nothing.
    Nop,
    /// Short-circuit operators.
    ShortCircuit,
    /// Instructions on two operands.
    SpecialTwoOperand,
    /// Unary operations.
    UnaryOperation,
    /// Instructions that end a list of operands.
    VariableOperand,
}

/// What handler `k` does with instruction `i` on the current block: its outcome and the
/// block after.
pub open spec fn handler_step(k: OpcodeHandlerKind, m: MachineV, i: InstructionView) -> (Result<ProcessedV, ErrorV>, MachineV) {
    match k {
        OpcodeHandlerKind::BinaryOperation => bin_op_step(m, i.opcode),
        OpcodeHandlerKind::Jump => jump_step(m, i.opcode),
        OpcodeHandlerKind::Literal => literal_step(m, i),
        OpcodeHandlerKind::Nop => (Ok(nothing_processed()), m),
        OpcodeHandlerKind::ShortCircuit => short_circuit_step(m, i.opcode),
        OpcodeHandlerKind::SpecialTwoOperand => two_operand_step(m, i.opcode),
        OpcodeHandlerKind::UnaryOperation => un_op_step(m, i.opcode),
        OpcodeHandlerKind::VariableOperand => variable_operand_step(m, i.opcode),
    }
}

/// The handler registered for each opcode: the handler whose family the opcode belongs to.
/// The short-circuit operators go to their own handler, the unconditional jump, which only
/// shapes the graph, to the handler that does nothing; other opcodes have no handler.
pub open spec fn handler_of(op: Opcode) -> Option<OpcodeHandlerKind> {
    if op == Opcode::ShortCircuitAnd || op == Opcode::ShortCircuitOr {
        Some(OpcodeHandlerKind::ShortCircuit)
    } else if bin_op_type_of(op) is Some {
        Some(OpcodeHandlerKind::BinaryOperation)
    } else if unary_op_type_of(op) is Some {
        Some(OpcodeHandlerKind::UnaryOperation)
    } else if op == Opcode::Jne || op == Opcode::Jeq || op == Opcode::With || op == Opcode::ForEach {
        Some(OpcodeHandlerKind::Jump)
    } else if op == Opcode::PushTrue || op == Opcode::PushFalse || op == Opcode::PushNull || op == Opcode::PushString
        || op == Opcode::PushNumber {
        Some(OpcodeHandlerKind::Literal)
    } else if op == Opcode::AccessMember || op == Opcode::Assign || op == Opcode::ArrayAccess || op
        == Opcode::NewObject {
        Some(OpcodeHandlerKind::SpecialTwoOperand)
    } else if op == Opcode::Call || op == Opcode::EndParams || op == Opcode::EndArray {
        Some(OpcodeHandlerKind::VariableOperand)
    } else if op == Opcode::Jmp {
        Some(OpcodeHandlerKind::Nop)
    } else {
        None
    }
}

/// The handler registered for an opcode (see `handler_of`).
pub fn handler_for(op: Opcode) -> (h: Option<OpcodeHandlerKind>)
    ensures
        h == handler_of(op),
{
    if op == Opcode::ShortCircuitAnd || op == Opcode::ShortCircuitOr {
        Some(OpcodeHandlerKind::ShortCircuit)
    } else if binary_operation_type(op).is_some() {
        Some(OpcodeHandlerKind::BinaryOperation)
    } else if unary_operation_type(op).is_some() {
        Some(OpcodeHandlerKind::UnaryOperation)
    } else if op == Opcode::Jne || op == Opcode::Jeq || op == Opcode::With || op == Opcode::ForEach {
        Some(OpcodeHandlerKind::Jump)
    } else if op == Opcode::PushTrue || op == Opcode::PushFalse || op == Opcode::PushNull || op == Opcode::PushString
        || op == Opcode::PushNumber {
        Some(OpcodeHandlerKind::Literal)
    } else if op == Opcode::AccessMember || op == Opcode::Assign || op == Opcode::ArrayAccess || op
        == Opcode::NewObject {
        Some(OpcodeHandlerKind::SpecialTwoOperand)
    } else if op == Opcode::Call || op == Opcode::EndParams || op == Opcode::EndArray {
        Some(OpcodeHandlerKind::VariableOperand)
    } else if op == Opcode::Jmp {
        Some(OpcodeHandlerKind::Nop)
    } else {
        None
    }
}

impl OpcodeHandlerKind {
    /// Handles an instruction with the handler of this kind.
    pub fn handle_instruction(&self, context: &mut FunctionDecompilerContext, instruction: &Instruction) -> (r: Result<
        ProcessedInstruction,
        FunctionDecompilerError,
    >)
        requires
            handler_ready(*old(context)),
        ensures
            final(context).others_same(old(context)),
            final(context).machine() == handler_step(*self, old(context).machine(), instruction@).1,
            agrees(r, handler_step(*self, old(context).machine(), instruction@).0, |p: ProcessedInstruction| p@),
    {
        match self {
            OpcodeHandlerKind::BinaryOperation => BinaryOperationHandler.handle_instruction(context, instruction),
            OpcodeHandlerKind::Jump => JumpHandler.handle_instruction(context, instruction),
            OpcodeHandlerKind::Literal => LiteralHandler.handle_instruction(context, instruction),
            OpcodeHandlerKind::Nop => NopHandler.handle_instruction(context, instruction),
            OpcodeHandlerKind::ShortCircuit => ShortCircuitHandler.handle_instruction(context, instruction),
            OpcodeHandlerKind::SpecialTwoOperand => SpecialTwoOperandHandler.handle_instruction(context, instruction),
            OpcodeHandlerKind::UnaryOperation => UnaryOperationHandler.handle_instruction(context, instruction),
            OpcodeHandlerKind::VariableOperand => VariableOperandHandler.handle_instruction(context, instruction),
        }
    }
}

} // verus!
