use vstd::prelude::*;

use crate::decompiler::function_decompiler_context::{FunctionDecompilerContext, FunctionDecompilerError};
use crate::decompiler::{nothing_processed, ProcessedInstruction, ProcessedInstructionBuilder};
use crate::instruction::Instruction;

verus! {

/// Handles instructions that do nothing to the decompiler's state.
pub struct NopHandler;

impl NopHandler {
    /// Hands back nothing, and leaves the context as it is.
    pub fn handle_instruction(&self, context: &mut FunctionDecompilerContext, instruction: &Instruction) -> (r: Result<
        ProcessedInstruction,
        FunctionDecompilerError,
    >)
        ensures
            *final(context) == *old(context),
            r matches Ok(p) && p@ == nothing_processed(),
    {
        Ok(ProcessedInstructionBuilder::new().build())
    }
}

} // verus!
