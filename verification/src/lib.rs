//! Graal bytecode framework: reading and writing of Graal-encoded data, loading of GS2
//! bytecode, basic blocks, functions, and the building blocks of the decompiler.

/// Reading and writing of Graal-encoded data.
pub mod graal_io;
/// Text helpers shared by the modules.
pub mod text;
/// Opcodes of GS2 bytecode.
pub mod opcode;
/// Operands of instructions.
pub mod operand;
/// Constants and helpers shared by the modules.
pub mod utils;
/// Instructions of GS2 bytecode.
pub mod instruction;
/// The directed graphs of petgraph, as the library uses them.
pub mod graph;
/// Basic blocks.
pub mod basic_block;
/// Functions and their control-flow graphs.
pub mod function;
/// Loading of GS2 bytecode modules.
pub mod bytecode_loader;
/// Injection of GS2 bytecode into a running Graal client.
pub mod frida_bridge;
/// The decompiler's syntax tree and the structuring of control flow.
pub mod decompiler;
/// How batch runs over directories of scripts end.
pub mod consts;
/// Statistics of a decompilation run.
pub mod stats;

use vstd::prelude::*;

use crate::bytecode_loader::{
    jumps_have_operands, parse_module, BytecodeLoaderBuilder, BytecodeLoaderError, MAX_MODULE_LEN,
};
use crate::instruction::{instruction_text, InstructionView};
use crate::text::{hex_chars, push_char, push_hex_padded, push_str, zero_pad};

verus! {

/// One line of a disassembly: the position in eight hexadecimal digits, a colon, a space, the
/// instruction, and a line break.
pub open spec fn disassembly_line(index: nat, i: InstructionView) -> Seq<char> {
    zero_pad(hex_chars(index, false), 8) + ": "@ + instruction_text(i) + "\n"@
}

/// The disassembly of a sequence of instructions: one line each, in order.
pub open spec fn disassembly(instructions: Seq<InstructionView>) -> Seq<char>
    decreases instructions.len(),
{
    if instructions.len() == 0 {
        Seq::empty()
    } else {
        disassembly(instructions.drop_last()) + disassembly_line(
            (instructions.len() - 1) as nat,
            instructions.last(),
        )
    }
}

/// Disassembles the bytes of a module: one line per instruction.
pub fn disassemble_bytecode(reader: Vec<u8>) -> (r: Result<String, BytecodeLoaderError>)
    requires
        reader@.len() <= MAX_MODULE_LEN,
        parse_module(reader@) matches Ok(st) ==> jumps_have_operands(st.instructions),
    ensures
        match parse_module(reader@) {
            Ok(st) => r matches Ok(s) && s@ == disassembly(st.instructions),
            Err(e) => r matches Err(x) && x@ == e,
        },
{
    let loader = match BytecodeLoaderBuilder::new(reader).build() {
        Ok(l) => l,
        Err(e) => return Err(e),
    };
    let instructions = loader.instructions();
    let ghost views = crate::bytecode_loader::instruction_views(instructions@);
    let mut result = String::new();
    let mut index: usize = 0;
    while index < instructions.len()
        invariant
            index <= instructions@.len(),
            views == crate::bytecode_loader::instruction_views(instructions@),
            result@ == disassembly(views.take(index as int)),
        decreases instructions@.len() - index,
    {
        let ghost before = result@;
        push_hex_padded(&mut result, index as u64, false, 8);
        push_str(&mut result, ": ");
        let text = instructions[index].to_string();
        push_str(&mut result, text.as_str());
        push_char(&mut result, '\n');
        proof {
            reveal_strlit(": ");
            reveal_strlit("\n");
            assert(views.take(index + 1).drop_last() =~= views.take(index as int));
            assert(views[index as int] == instructions@[index as int]@);
            assert(result@ =~= before + disassembly_line(index as nat, views[index as int]));
        }
        index = index + 1;
    }
    assert(views.take(index as int) =~= views);
    Ok(result)
}

} // verus!
