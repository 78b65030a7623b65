use vstd::prelude::*;

use crate::instruction::{Instruction, InstructionView};
use crate::opcode::opcode_name;
use crate::operand::{operand_text, OperandView};
use crate::text::{hex_chars, push_hex, push_hex_padded, push_spaces, push_str, spaces, zero_pad};
use crate::utils::{
    html_encode, html_encode_spec, truncatable, truncate_text, truncated, Gs2BytecodeAddress, GBF_BLUE, GBF_GREEN,
    GBF_RED, GBF_YELLOW, OPERAND_TRUNCATE_LENGTH,
};

verus! {

/// Represents the type of a basic block.
#[derive(Debug, Clone, Copy, PartialEq, Eq, Hash, PartialOrd, Ord, Structural)]
pub enum BasicBlockType {
    /// The entry block of a function.
    Entry,
    /// An exit block of a function.
    Exit,
    /// A block that is neither the entry nor an exit of a function.
    Normal,
    /// A block that is both the entry and an exit of a function.
    EntryAndExit,
    /// The block at the end of a module.
    ModuleEnd,
}

/// Represents the identifier of a basic block.
#[derive(Debug, Clone, Copy, PartialEq, Eq, Hash, PartialOrd, Ord, Structural)]
pub struct BasicBlockId {
    /// The index of the block in its function.
    pub index: usize,
    /// The type of the basic block.
    pub block_type: BasicBlockType,
    /// The address of the first instruction of the block.
    pub address: Gs2BytecodeAddress,
}

/// Represents the type of an edge between two basic blocks.
#[derive(Debug, Clone, Copy, PartialEq, Eq, Hash, Structural)]
pub enum BasicBlockConnectionType {
    /// A conditional branch.
    Conditional,
    /// A fallthrough.
    Fallthrough,
    /// An unconditional branch.
    Unconditional,
    /// The start of a "With" block.
    With,
    /// The start of a "ForEach" block.
    ForEach,
    /// A short-circuit.
    ShortCircuit,
}

/// Represents an edge between two basic blocks.
#[derive(Debug, Clone, Copy, PartialEq, Eq, Hash, Structural)]
pub struct BasicBlockConnection {
    /// The type of the connection.
    pub connection_type: BasicBlockConnectionType,
}

impl BasicBlockId {
    /// Creates a new `BasicBlockId`.
    pub fn new(index: usize, block_type: BasicBlockType, offset: Gs2BytecodeAddress) -> (id: Self)
        ensures
            id.index == index,
            id.block_type == block_type,
            id.address == offset,
    {
        BasicBlockId { index, block_type, address: offset }
    }

    /// The index of the block in its function.
    pub fn index(&self) -> (i: usize)
        ensures
            i == self.index,
    {
        self.index
    }

    /// The text of the identifier: "Block at address 0x" and the address in upper-case
    /// hexadecimal.
    pub fn to_string(&self) -> (s: String)
        ensures
            s@ == "Block at address 0x"@ + hex_chars(self.address as nat, true),
    {
        let mut s = String::from_str("Block at address 0x");
        push_hex(&mut s, self.address as u64, true);
        s
    }
}

impl Default for BasicBlockId {
    fn default() -> (id: Self)
        ensures
            id.index == 0,
            id.block_type == BasicBlockType::Normal,
            id.address == 0,
    {
        BasicBlockId { index: 0, block_type: BasicBlockType::Normal, address: 0 }
    }
}

/// Represents a basic block of a function.
#[derive(Debug, PartialEq, Eq, Hash)]
pub struct BasicBlock {
    /// The identifier of the basic block.
    pub id: BasicBlockId,
    /// The instructions of the basic block.
    pub instructions: Vec<Instruction>,
}

/// The abstract instructions of a sequence of instructions.
pub open spec fn instruction_views(s: Seq<Instruction>) -> Seq<InstructionView> {
    s.map_values(|i: Instruction| i@)
}

impl Clone for BasicBlock {
    fn clone(&self) -> (r: Self)
        ensures
            r.id == self.id,
            instruction_views(r.instructions@) == instruction_views(self.instructions@),
    {
        let mut instructions: Vec<Instruction> = Vec::new();
        let mut i: usize = 0;
        while i < self.instructions.len()
            invariant
                i <= self.instructions@.len(),
                instruction_views(instructions@) =~= instruction_views(
                    self.instructions@.take(i as int),
                ),
            decreases self.instructions@.len() - i,
        {
            let c = self.instructions[i].clone();
            let ghost before = instructions@;
            instructions.push(c);
            proof {
                assert(self.instructions@.take(i + 1) =~= self.instructions@.take(i as int).push(
                    self.instructions@[i as int],
                ));
                assert(instruction_views(instructions@) =~= instruction_views(before).push(c@));
                assert(instruction_views(self.instructions@.take(i + 1)) =~= instruction_views(
                    self.instructions@.take(i as int),
                ).push(self.instructions@[i as int]@));
            }
            i = i + 1;
        }
        assert(self.instructions@.take(i as int) =~= self.instructions@);
        BasicBlock { id: self.id, instructions }
    }
}

impl BasicBlock {
    /// Creates an empty basic block.
    pub fn new(id: BasicBlockId) -> (b: Self)
        ensures
            b.id == id,
            b.instructions@ == Seq::<Instruction>::empty(),
    {
        BasicBlock { id, instructions: Vec::new() }
    }

    /// Adds an instruction at the end of the block.
    pub fn add_instruction(&mut self, instruction: Instruction)
        ensures
            final(self).id == old(self).id,
            final(self).instructions@ == old(self).instructions@.push(instruction),
    {
        self.instructions.push(instruction);
    }

    /// The last instruction of the block, if any.
    pub fn last_instruction(&self) -> (r: Option<&Instruction>)
        ensures
            self.instructions@.len() == 0 ==> r is None,
            self.instructions@.len() > 0 ==> r == Some(&self.instructions@.last()),
    {
        if self.instructions.len() == 0 {
            None
        } else {
            Some(&self.instructions[self.instructions.len() - 1])
        }
    }

    /// The number of instructions of the block.
    pub fn len(&self) -> (n: usize)
        ensures
            n == self.instructions@.len(),
    {
        self.instructions.len()
    }

    /// Whether the block has no instruction.
    pub fn is_empty(&self) -> (b: bool)
        ensures
            b == (self.instructions@.len() == 0),
    {
        self.instructions.len() == 0
    }

    /// The instruction at `index`.
    pub fn get(&self, index: usize) -> (i: &Instruction)
        requires
            index < self.instructions@.len(),
        ensures
            *i == self.instructions@[index as int],
    {
        &self.instructions[index]
    }
}

impl BasicBlock {
    /// An iterator over the instructions of the block, in order.
    pub fn iter(&self) -> (it: std::slice::Iter<'_, Instruction>)
        ensures
            vstd::std_specs::iter::IteratorSpec::remaining(&it) == self.instructions@.map_values(|i: Instruction| &i),
    {
        broadcast use vstd::std_specs::slice::axiom_spec_slice_iter;

        let s = self.instructions.as_slice();
        let it = s.iter();
        assert(s@.as_ref() =~= self.instructions@.map_values(|i: Instruction| &i));
        it
    }
}

/// The opening of a table in a graph label, indented by `indent`.
pub open spec fn table_open(indent: Seq<char>) -> Seq<char> {
    indent + "<TABLE BORDER=\"0\" CELLBORDER=\"0\" CELLSPACING=\"0\" CELLPADDING=\"0\">\n"@
}

/// The closing of a table in a graph label, indented by `indent`.
pub open spec fn table_close(indent: Seq<char>) -> Seq<char> {
    indent + "</TABLE>\n"@
}

/// The operand column of an instruction row: the operand's text, cut after
/// `OPERAND_TRUNCATE_LENGTH` bytes, or a space when there is none or it is empty.
pub open spec fn operand_cell(op: Option<OperandView>) -> Seq<char> {
    match op {
        Some(o) => {
            let t = truncated(operand_text(o), OPERAND_TRUNCATE_LENGTH as nat);
            if t.len() == 0 {
                " "@
            } else {
                t
            }
        },
        None => " "@,
    }
}

/// A cell of a graph label: `text` in colour `color`, aligned left.
pub open spec fn colored_cell(indent: Seq<char>, color: Seq<char>, text: Seq<char>) -> Seq<char> {
    indent + "        <TD ALIGN=\"LEFT\"><FONT COLOR=\""@ + color + "\">"@ + text + "</FONT></TD>\n"@
}

/// An empty cell between two columns of a graph label.
pub open spec fn spacer_cell(indent: Seq<char>) -> Seq<char> {
    indent + "        <TD ALIGN=\"LEFT\">  </TD>\n"@
}

/// The row of an instruction in a graph label: its address in four upper-case hexadecimal
/// digits, its opcode and its operand, in three colours.
pub open spec fn instruction_row(i: InstructionView, indent: Seq<char>) -> Seq<char> {
    indent + "    <TR>\n"@ + colored_cell(indent, GBF_GREEN@, zero_pad(hex_chars(i.address as nat, true), 4))
        + spacer_cell(indent) + colored_cell(indent, GBF_YELLOW@, opcode_name(i.opcode)) + spacer_cell(indent)
        + colored_cell(indent, GBF_BLUE@, html_encode_spec(operand_cell(i.operand)) + " "@) + indent
        + "    </TR>\n"@
}

/// The rows of instructions, in order.
pub open spec fn instruction_rows(s: Seq<InstructionView>, indent: Seq<char>) -> Seq<char>
    decreases s.len(),
{
    if s.len() == 0 {
        Seq::empty()
    } else {
        instruction_rows(s.drop_last(), indent) + instruction_row(s.last(), indent)
    }
}

/// The row that marks the end of a module.
pub open spec fn module_end_row(indent: Seq<char>) -> Seq<char> {
    indent + "    <TR>\n"@ + indent + "        <TD ALIGN=\"CENTER\"><FONT COLOR=\""@ + GBF_RED@
        + "\">Module End</FONT></TD>\n"@ + indent + "    </TR>\n"@
}

/// The label of a block in a drawing of the graph, indented by `padding` spaces: a table of
/// its instructions, or a single row for the end of a module.
pub open spec fn block_label(id: BasicBlockId, s: Seq<InstructionView>, padding: nat) -> Seq<char> {
    let indent = spaces(padding);
    table_open(indent) + if id.block_type == BasicBlockType::ModuleEnd {
        module_end_row(indent)
    } else {
        instruction_rows(s, indent)
    } + table_close(indent)
}

/// Whether every operand of the instructions can be cut where a label cuts it.
pub open spec fn operands_truncatable(s: Seq<InstructionView>) -> bool {
    forall|k: int|
        0 <= k < s.len() ==> ((#[trigger] s[k]).operand matches Some(o) ==> truncatable(
            operand_text(o),
            OPERAND_TRUNCATE_LENGTH as nat,
        ))
}

/// Appends a cell of a graph label.
fn push_colored_cell(out: &mut String, padding: usize, color: &str, text: &str)
    ensures
        final(out)@ == old(out)@ + colored_cell(spaces(padding as nat), color@, text@),
{
    push_spaces(out, padding);
    push_str(out, "        <TD ALIGN=\"LEFT\"><FONT COLOR=\"");
    push_str(out, color);
    push_str(out, "\">");
    push_str(out, text);
    push_str(out, "</FONT></TD>\n");
    assert(out@ =~= old(out)@ + colored_cell(spaces(padding as nat), color@, text@));
}

/// Appends an empty cell between two columns of a graph label.
fn push_spacer_cell(out: &mut String, padding: usize)
    ensures
        final(out)@ == old(out)@ + spacer_cell(spaces(padding as nat)),
{
    push_spaces(out, padding);
    push_str(out, "        <TD ALIGN=\"LEFT\">  </TD>\n");
}

/// Appends the row of an instruction.
fn push_instruction_row(out: &mut String, i: &Instruction, padding: usize)
    requires
        i@.operand matches Some(o) ==> truncatable(operand_text(o), OPERAND_TRUNCATE_LENGTH as nat),
    ensures
        final(out)@ == old(out)@ + instruction_row(i@, spaces(padding as nat)),
{
    let ghost indent = spaces(padding as nat);
    let cell = match &i.operand {
        Some(op) => {
            let text = op.to_string();
            let t = truncate_text(text.as_str(), OPERAND_TRUNCATE_LENGTH);
            if t.as_str().unicode_len() == 0 {
                String::from_str(" ")
            } else {
                t
            }
        },
        None => String::from_str(" "),
    };
    let mut cell = html_encode(cell.as_str());
    push_str(&mut cell, " ");
    let mut address = String::new();
    push_hex_padded(&mut address, i.address as u64, true, 4);
    let ghost start = out@;
    push_spaces(out, padding);
    push_str(out, "    <TR>\n");
    push_colored_cell(out, padding, GBF_GREEN, address.as_str());
    push_spacer_cell(out, padding);
    push_colored_cell(out, padding, GBF_YELLOW, i.opcode.name());
    push_spacer_cell(out, padding);
    push_colored_cell(out, padding, GBF_BLUE, cell.as_str());
    push_spaces(out, padding);
    push_str(out, "    </TR>\n");
    proof {
        let r = instruction_row(i@, indent);
        assert(address@ =~= zero_pad(hex_chars(i@.address as nat, true), 4));
        assert(out@ =~= start + r);
    }
}

impl BasicBlock {
    /// The label of the block in a drawing of the graph (see `block_label`).
    pub fn render_node(&self, padding: usize) -> (s: String)
        requires
            operands_truncatable(instruction_views(self.instructions@)),
        ensures
            s@ == block_label(self.id, instruction_views(self.instructions@), padding as nat),
    {
        let ghost indent = spaces(padding as nat);
        let ghost views = instruction_views(self.instructions@);
        let mut out = String::new();
        push_spaces(&mut out, padding);
        push_str(&mut out, "<TABLE BORDER=\"0\" CELLBORDER=\"0\" CELLSPACING=\"0\" CELLPADDING=\"0\">\n");
        let ghost head = out@;
        if self.id.block_type == BasicBlockType::ModuleEnd {
            push_spaces(&mut out, padding);
            push_str(&mut out, "    <TR>\n");
            push_spaces(&mut out, padding);
            push_str(&mut out, "        <TD ALIGN=\"CENTER\"><FONT COLOR=\"");
            push_str(&mut out, GBF_RED);
            push_str(&mut out, "\">Module End</FONT></TD>\n");
            push_spaces(&mut out, padding);
            push_str(&mut out, "    </TR>\n");
            assert(out@ =~= head + module_end_row(indent));
        } else {
            let mut k: usize = 0;
            while k < self.instructions.len()
                invariant
                    k <= self.instructions@.len(),
                    views == instruction_views(self.instructions@),
                    indent == spaces(padding as nat),
                    operands_truncatable(views),
                    out@ == head + instruction_rows(views.take(k as int), indent),
                decreases self.instructions@.len() - k,
            {
                proof {
                    assert(views[k as int] == self.instructions@[k as int]@);
                }
                push_instruction_row(&mut out, &self.instructions[k], padding);
                proof {
                    assert(views.take(k + 1).drop_last() =~= views.take(k as int));
                    assert(views.take(k + 1).last() == views[k as int]);
                    assert(out@ =~= head + instruction_rows(views.take(k + 1), indent));
                }
                k = k + 1;
            }
            proof {
                assert(views.take(k as int) =~= views);
            }
        }
        push_spaces(&mut out, padding);
        push_str(&mut out, "</TABLE>\n");
        assert(out@ =~= block_label(self.id, views, padding as nat));
        out
    }
}

} // verus!
