use vstd::prelude::*;

use crate::opcode::{opcode_name, Opcode};
use crate::operand::{operand_text, Operand, OperandView};
use crate::text::push_char;
use crate::utils::Gs2BytecodeAddress;

verus! {

/// Represents an instruction of GS2 bytecode.
#[derive(Debug, PartialEq, Eq, Hash)]
pub struct Instruction {
    /// The opcode of the instruction.
    pub opcode: Opcode,
    /// The address of the instruction.
    pub address: Gs2BytecodeAddress,
    /// The operand of the instruction, if any.
    pub operand: Option<Operand>,
}

/// The abstract value of an instruction.
pub struct InstructionView {
    /// The opcode.
    pub opcode: Opcode,
    /// The address.
    pub address: Gs2BytecodeAddress,
    /// The operand, if any.
    pub operand: Option<OperandView>,
}

impl View for Instruction {
    type V = InstructionView;

    open spec fn view(&self) -> InstructionView {
        InstructionView {
            opcode: self.opcode,
            address: self.address,
            operand: match self.operand {
                Some(op) => Some(op@),
                None => None,
            },
        }
    }
}

impl Clone for Instruction {
    fn clone(&self) -> (r: Self)
        ensures
            r@ == self@,
    {
        Instruction {
            opcode: self.opcode,
            address: self.address,
            operand: match &self.operand {
                Some(op) => Some(op.clone()),
                None => None,
            },
        }
    }
}

/// The text of an instruction: the opcode's name, then a space and the operand's text if
/// there is an operand.
pub open spec fn instruction_text(i: InstructionView) -> Seq<char> {
    match i.operand {
        Some(op) => opcode_name(i.opcode) + seq![' '] + operand_text(op),
        None => opcode_name(i.opcode),
    }
}

impl Instruction {
    /// Creates an instruction without an operand.
    pub fn new(opcode: Opcode, address: usize) -> (i: Self)
        ensures
            i@ == (InstructionView { opcode, address, operand: None }),
    {
        Instruction { opcode, address, operand: None }
    }

    /// Creates an instruction with an operand.
    pub fn new_with_operand(opcode: Opcode, address: usize, operand: Operand) -> (i: Self)
        ensures
            i@ == (InstructionView { opcode, address, operand: Some(operand@) }),
    {
        Instruction { opcode, address, operand: Some(operand) }
    }

    /// Sets the operand of the instruction.
    pub fn set_operand(&mut self, operand: Operand)
        ensures
            final(self)@ == (InstructionView { operand: Some(operand@), ..old(self)@ }),
    {
        self.operand = Some(operand);
    }

    /// The text of the instruction (see `instruction_text`).
    pub fn to_string(&self) -> (s: String)
        ensures
            s@ == instruction_text(self@),
    {
        let mut s = self.opcode.to_string();
        match &self.operand {
            Some(op) => {
                push_char(&mut s, ' ');
                let t = op.to_string();
                crate::text::push_str(&mut s, t.as_str());
            },
            None => {},
        }
        s
    }

    /// The default instruction: `ConvertToFloat` at address 0, without an operand.
    pub fn default() -> (i: Self)
        ensures
            i@ == (InstructionView { opcode: Opcode::ConvertToFloat, address: 0, operand: None }),
    {
        Instruction { opcode: Opcode::ConvertToFloat, address: 0, operand: None }
    }
}

} // verus!
