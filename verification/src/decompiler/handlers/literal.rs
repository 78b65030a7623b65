use vstd::prelude::*;

use crate::decompiler::ast::convert::{IntoAst, IntoExpr};
use crate::decompiler::ast::literal::LiteralNode;
use crate::decompiler::ast::ptr::P;
use crate::decompiler::ast::ssa::{version_set, SsaVersion};
use crate::decompiler::ast::view::{AstV, ExprV, LiteralV, StmtV};
use crate::decompiler::ast::{new_assignment, new_bool, new_float, new_id_with_version, new_null, new_num, new_str};
use crate::decompiler::function_decompiler_context::{
    agrees, ErrorV, FunctionDecompilerContext, FunctionDecompilerError, MachineV,
};
use crate::decompiler::handlers::handler_ready;
use crate::decompiler::{nothing_processed, ProcessedInstruction, ProcessedInstructionBuilder, ProcessedV};
use crate::instruction::{Instruction, InstructionView};
use crate::opcode::Opcode;
use crate::text::{push_str, str_debug, str_debug_text};
use crate::operand::{Operand, OperandErrorView, OperandView};

verus! {

/// The literal an instruction pushes: `true`, `false` and `null` by their opcodes, a string
/// or a number by the operand.
pub open spec fn literal_of(i: InstructionView) -> Result<LiteralV, ErrorV> {
    if i.opcode == Opcode::PushTrue || i.opcode == Opcode::PushFalse {
        Ok(LiteralV::Boolean(i.opcode == Opcode::PushTrue))
    } else if i.opcode == Opcode::PushNull {
        Ok(LiteralV::Null)
    } else {
        match i.operand {
            None => Err(ErrorV::MissingOperand(i.opcode)),
            Some(operand) => if i.opcode == Opcode::PushString {
                match operand {
                    OperandView::String(s) => Ok(LiteralV::String(s)),
                    OperandView::Float(s) => Ok(LiteralV::String(s)),
                    OperandView::Number(_) => Err(ErrorV::Operand(OperandErrorView::InvalidConversion("Number"@, "String"@))),
                }
            } else if i.opcode == Opcode::PushNumber {
                match operand {
                    OperandView::Float(s) => Ok(LiteralV::Float(s)),
                    OperandView::Number(n) => Ok(LiteralV::Number(n)),
                    OperandView::String(s) => Err(
                        ErrorV::Other("Invalid operand type for PushNumber: String("@ + str_debug_text(s) + ")"@),
                    ),
                }
            } else {
                Err(ErrorV::UnimplementedOpcode(i.opcode))
            },
        }
    }
}

/// A literal: it is assigned to a new SSA version of `lit`, whose identifier is handed back
/// with the assignment; the stack does not change.
pub open spec fn literal_step(m: MachineV, i: InstructionView) -> (Result<ProcessedV, ErrorV>, MachineV) {
    match literal_of(i) {
        Err(k) => (Err(k), m),
        Ok(l) => {
            let ver = m.next_version;
            let id = ExprV::Identifier("lit"@, Some(ver.0));
            (
                Ok(ProcessedV {
                    ssa_id: Some(id),
                    node_to_push: Some(AstV::Statement(Seq::empty(), StmtV::Assignment(id, ExprV::Literal(l)))),
                    ..nothing_processed()
                }),
                MachineV {
                    versions: version_set(m.versions, "lit"@, ver),
                    next_version: SsaVersion((ver.0 + 1) as usize),
                    ..m
                },
            )
        },
    }
}

/// Handles literals.
pub struct LiteralHandler;

impl LiteralHandler {
    fn literal(instruction: &Instruction) -> (r: Result<P<LiteralNode>, FunctionDecompilerError>)
        ensures
            agrees(r, literal_of(instruction@), |p: P<LiteralNode>| p.expr_view()->Literal_0),
    {
        let op = instruction.opcode;
        if op == Opcode::PushTrue || op == Opcode::PushFalse {
            return Ok(new_bool(op == Opcode::PushTrue));
        }
        if op == Opcode::PushNull {
            return Ok(new_null());
        }
        let operand = match &instruction.operand {
            Some(o) => o,
            None => return Err(FunctionDecompilerError::InstructionMustHaveOperand { opcode: op }),
        };
        if op == Opcode::PushString {
            match operand.get_string_value() {
                Ok(s) => Ok(new_str(s)),
                Err(e) => Err(FunctionDecompilerError::OperandError { source: e }),
            }
        } else if op == Opcode::PushNumber {
            match operand {
                Operand::Float(_) => match operand.get_string_value() {
                    Ok(s) => Ok(new_float(s)),
                    Err(e) => Err(FunctionDecompilerError::OperandError { source: e }),
                },
                Operand::Number(_) => match operand.get_number_value() {
                    Ok(n) => Ok(new_num(n)),
                    Err(e) => Err(FunctionDecompilerError::OperandError { source: e }),
                },
                Operand::String(v) => {
                    let mut message = String::from_str("Invalid operand type for PushNumber: String(");
                    push_str(&mut message, str_debug(v.as_str()).as_str());
                    push_str(&mut message, ")");
                    Err(FunctionDecompilerError::Other { message })
                },
            }
        } else {
            Err(FunctionDecompilerError::UnimplementedOpcode { opcode: op })
        }
    }

    /// Assigns the literal to a new SSA version of `lit`, and hands back the identifier and
    /// the assignment.
    pub fn handle_instruction(&self, context: &mut FunctionDecompilerContext, instruction: &Instruction) -> (r: Result<
        ProcessedInstruction,
        FunctionDecompilerError,
    >)
        requires
            handler_ready(*old(context)),
        ensures
            final(context).others_same(old(context)),
            final(context).machine() == literal_step(old(context).machine(), instruction@).1,
            agrees(r, literal_step(old(context).machine(), instruction@).0, |p: ProcessedInstruction| p@),
    {
        let literal = match Self::literal(instruction) {
            Ok(l) => l,
            Err(e) => return Err(e),
        };
        let ver = context.ssa_context.new_ssa_version_for("lit");
        let ssa_id = new_id_with_version("lit", ver);
        let stmt = new_assignment(ssa_id.clone(), literal);
        proof {
            reveal_strlit("lit");
        }
        Ok(ProcessedInstructionBuilder::new().push_to_region(stmt.into_ast()).ssa_id(ssa_id.into_expr()).build())
    }
}

} // verus!
