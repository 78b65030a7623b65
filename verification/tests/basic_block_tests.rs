use gbf_core::basic_block::{BasicBlock, BasicBlockId, BasicBlockType};
use gbf_core::instruction::Instruction;
use gbf_core::opcode::Opcode;
use gbf_core::operand::Operand;

#[test]
fn test_basic_block_id_display() {
    let block = BasicBlockId::new(0, BasicBlockType::Normal, 3);
    assert_eq!(block.to_string(), "Block at address 0x3");
}

#[test]
fn test_basic_block_new() {
    let block = BasicBlock::new(BasicBlockId::new(0, BasicBlockType::Normal, 4));
    assert_eq!(block.id.index, 0);
    assert_eq!(block.id.block_type, BasicBlockType::Normal);
    assert!(block.instructions.is_empty());
}

#[test]
fn test_basic_block_add_instruction() {
    let mut block = BasicBlock::new(BasicBlockId::new(0, BasicBlockType::Normal, 7));
    block.add_instruction(Instruction::new_with_operand(Opcode::PushNumber, 0, Operand::new_number(42)));
    assert_eq!(block.instructions.len(), 1);
}

#[test]
fn test_basic_block_len() {
    let mut block = BasicBlock::new(BasicBlockId::new(0, BasicBlockType::Normal, 32));
    block.add_instruction(Instruction::new_with_operand(Opcode::PushNumber, 0, Operand::new_number(42)));
    assert_eq!(block.len(), 1);
}

#[test]
fn basic_block_test_basic_block_is_empty() {
    let block = BasicBlock::new(BasicBlockId::new(0, BasicBlockType::Normal, 23));
    assert!(block.is_empty());
}

#[test]
fn test_basic_block_into_iter() {
    let mut block = BasicBlock::new(BasicBlockId::new(0, BasicBlockType::Normal, 11));
    block.add_instruction(Instruction::new_with_operand(Opcode::PushNumber, 0, Operand::new_number(42)));
    block.add_instruction(Instruction::new_with_operand(Opcode::PushNumber, 1, Operand::new_number(42)));
    let mut iter = block.iter();
    assert_eq!(iter.next().unwrap().address, 0);
    assert_eq!(iter.next().unwrap().address, 1);
    assert!(iter.next().is_none());
}

#[test]
fn test_basic_block_into_iter_ref() {
    let mut block = BasicBlock::new(BasicBlockId::new(0, BasicBlockType::Normal, 42));
    block.add_instruction(Instruction::new_with_operand(Opcode::PushNumber, 0, Operand::new_number(42)));
    block.add_instruction(Instruction::new_with_operand(Opcode::PushNumber, 1, Operand::new_number(42)));
    let mut iter = block.iter();
    assert_eq!(iter.next().unwrap().address, 0);
    assert_eq!(iter.next().unwrap().address, 1);
    assert!(iter.next().is_none());
}

#[test]
fn basic_block_last_instruction_and_get() {
    let mut block = BasicBlock::new(BasicBlockId::new(0, BasicBlockType::Normal, 0));
    assert!(block.last_instruction().is_none());
    block.add_instruction(Instruction::new(Opcode::PushNumber, 0));
    block.add_instruction(Instruction::new(Opcode::Ret, 1));
    assert_eq!(block.last_instruction().unwrap().opcode, Opcode::Ret);
    assert_eq!(block.get(0).opcode, Opcode::PushNumber);
}

#[test]
fn basic_block_id_display_uses_upper_hex() {
    assert_eq!(BasicBlockId::new(0, BasicBlockType::Exit, 0xab).to_string(), "Block at address 0xAB");
    let id = BasicBlockId::default();
    assert_eq!(id.index(), 0);
    assert_eq!(id.block_type, BasicBlockType::Normal);
}

#[test]
fn block_label_lists_instructions() {
    let mut block = BasicBlock::new(BasicBlockId::new(0, BasicBlockType::Normal, 0x1a));
    block.add_instruction(Instruction::new_with_operand(
        Opcode::PushNumber,
        0x1a,
        Operand::new_number(5),
    ));
    block.add_instruction(Instruction::new(Opcode::Pop, 0x1b));
    let expected = [
        "  <TABLE BORDER=\"0\" CELLBORDER=\"0\" CELLSPACING=\"0\" CELLPADDING=\"0\">\n",
        "      <TR>\n",
        "          <TD ALIGN=\"LEFT\"><FONT COLOR=\"#98ff64\">001A</FONT></TD>\n",
        "          <TD ALIGN=\"LEFT\">  </TD>\n",
        "          <TD ALIGN=\"LEFT\"><FONT COLOR=\"#ffd964\">PushNumber</FONT></TD>\n",
        "          <TD ALIGN=\"LEFT\">  </TD>\n",
        "          <TD ALIGN=\"LEFT\"><FONT COLOR=\"#64b2ff\">0x5 </FONT></TD>\n",
        "      </TR>\n",
        "      <TR>\n",
        "          <TD ALIGN=\"LEFT\"><FONT COLOR=\"#98ff64\">001B</FONT></TD>\n",
        "          <TD ALIGN=\"LEFT\">  </TD>\n",
        "          <TD ALIGN=\"LEFT\"><FONT COLOR=\"#ffd964\">Pop</FONT></TD>\n",
        "          <TD ALIGN=\"LEFT\">  </TD>\n",
        "          <TD ALIGN=\"LEFT\"><FONT COLOR=\"#64b2ff\">  </FONT></TD>\n",
        "      </TR>\n",
        "  </TABLE>\n",
    ]
    .concat();
    assert_eq!(block.render_node(2), expected);
}

#[test]
fn block_label_truncates_and_encodes_operands() {
    let mut block = BasicBlock::new(BasicBlockId::new(0, BasicBlockType::Normal, 0));
    let long = "a".repeat(150);
    block.add_instruction(Instruction::new_with_operand(
        Opcode::PushString,
        0,
        Operand::new_string(&format!("<{}", long)),
    ));
    let label = block.render_node(0);
    let cell = format!("&lt;{}... </FONT>", "a".repeat(99));
    assert!(label.contains(&cell));
}

#[test]
fn module_end_label_has_one_row() {
    let block = BasicBlock::new(BasicBlockId::new(3, BasicBlockType::ModuleEnd, 0));
    assert_eq!(
        block.render_node(0),
        [
            "<TABLE BORDER=\"0\" CELLBORDER=\"0\" CELLSPACING=\"0\" CELLPADDING=\"0\">\n",
            "    <TR>\n",
            "        <TD ALIGN=\"CENTER\"><FONT COLOR=\"#ff6464\">Module End</FONT></TD>\n",
            "    </TR>\n",
            "</TABLE>\n",
        ]
        .concat()
    );
}
