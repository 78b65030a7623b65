use gbf_core::instruction::Instruction;
use gbf_core::opcode::Opcode;
use gbf_core::operand::Operand;

#[test]
fn instruction_to_string() {
    let instruction = Instruction::new(Opcode::PushNumber, 0);
    assert_eq!(instruction.to_string(), "PushNumber");

    let instruction = Instruction::new_with_operand(Opcode::PushNumber, 0, Operand::new_number(42));
    assert_eq!(instruction.to_string(), "PushNumber 0x2a");

    let instruction =
        Instruction::new_with_operand(Opcode::PushString, 0, Operand::new_string("Hello, world!"));
    assert_eq!(instruction.to_string(), "PushString Hello, world!");

    let instruction = Instruction::new_with_operand(Opcode::PushNumber, 0, Operand::new_float("3.14"));
    assert_eq!(instruction.to_string(), "PushNumber 3.14");
}

#[test]
fn instruction_set_operand_replaces_operand() {
    let mut instruction = Instruction::new(Opcode::PushNumber, 3);
    instruction.set_operand(Operand::new_number(1));
    instruction.set_operand(Operand::new_number(2));
    assert_eq!(instruction.operand, Some(Operand::new_number(2)));
    assert_eq!(instruction.address, 3);
}

#[test]
fn instruction_default_is_convert_to_float_at_zero() {
    let instruction = Instruction::default();
    assert_eq!(instruction.opcode, Opcode::ConvertToFloat);
    assert_eq!(instruction.address, 0);
    assert_eq!(instruction.operand, None);
}

#[test]
fn opcode_byte_round_trip() {
    for b in 0u8..=255 {
        if let Ok(op) = Opcode::from_byte(b) {
            assert_eq!(op.to_byte(), b);
        }
    }
    assert_eq!(Opcode::from_byte(0x01), Ok(Opcode::Jmp));
    assert_eq!(Opcode::from_byte(0x07), Ok(Opcode::Ret));
    assert!(Opcode::from_byte(0x00).is_err());
    assert!(Opcode::Jmp.has_jump_target());
    assert!(Opcode::Ret.is_block_end());
    assert!(!Opcode::Ret.connects_to_next_block());
}
