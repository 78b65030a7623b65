use gbf_core::bytecode_loader::{BytecodeLoaderBuilder, BytecodeLoaderError, SectionType};
use gbf_core::opcode::Opcode;
use gbf_core::operand::Operand;

fn header() -> Vec<u8> {
    vec![
        0x00, 0x00, 0x00, 0x01, // Section type: Gs1Flags
        0x00, 0x00, 0x00, 0x04, // Length: 4
        0x00, 0x00, 0x00, 0x00, // Flags: 0
        0x00, 0x00, 0x00, 0x02, // Section type: Functions
        0x00, 0x00, 0x00, 0x09, // Length: 9
    ]
}

#[test]
fn test_load() {
    let reader = vec![
        0x00, 0x00, 0x00, 0x01, 0x00, 0x00, 0x00, 0x04, 0x00, 0x00, 0x00, 0x00, // flags
        0x00, 0x00, 0x00, 0x02, 0x00, 0x00, 0x00, 0x09, // functions, length 9
        0x00, 0x00, 0x00, 0x00, 0x6d, 0x61, 0x69, 0x6e, 0x00, // 0: "main"
        0x00, 0x00, 0x00, 0x03, 0x00, 0x00, 0x00, 0x04, 0x61, 0x62, 0x63, 0x00, // "abc"
        0x00, 0x00, 0x00, 0x04, 0x00, 0x00, 0x00, 0x0c, // instructions, length 12
        0x01, 0xF3, 0x01, // Jmp 1
        0x14, 0xF4, 0x00, 0x01, // PushNumber 1
        0x15, 0xF0, 0x00, // PushString 0
        0x1b, // Pi
        0x07, // Ret
    ];
    let loader = BytecodeLoaderBuilder::new(reader).build().unwrap();

    assert_eq!(loader.function_map().len(), 2);
    assert_eq!(loader.function_map().get(&Some("main".to_string())), Some(&0));
    assert_eq!(loader.strings().len(), 1);
    assert_eq!(loader.strings().first(), Some(&"abc".to_string()));
    assert_eq!(loader.instructions().len(), 5);
    assert_eq!(loader.instructions()[0].opcode, Opcode::Jmp);
    assert_eq!(loader.instructions()[1].opcode, Opcode::PushNumber);
    assert_eq!(loader.instructions()[1].operand, Some(Operand::new_number(1)));
    assert_eq!(loader.instructions()[2].opcode, Opcode::PushString);
    assert_eq!(loader.instructions()[2].operand, Some(Operand::new_string("abc")));
    assert_eq!(loader.instructions()[3].opcode, Opcode::Pi);
    assert_eq!(loader.instructions()[4].opcode, Opcode::Ret);
}

#[test]
fn test_load_invalid_section_type() {
    let reader = vec![0x00, 0x00, 0x00, 0x05];
    let result = BytecodeLoaderBuilder::new(reader).build();
    assert!(result.is_err());
}

#[test]
fn test_load_invalid_section_length() {
    let reader = vec![
        0x00, 0x00, 0x00, 0x01, // Section type: Gs1Flags
        0x00, 0x00, 0x00, 0x05, // Length: 5
        0x00, 0x00, 0x00, 0x00, // Flags: 0
    ];
    let result = BytecodeLoaderBuilder::new(reader).build();
    assert!(result.is_err());
}

#[test]
fn test_fmt_section_type() {
    assert_eq!(format!("{}", SectionType::Gs1Flags.to_string()), "Gs1Flags".to_string());
    assert_eq!(format!("{}", SectionType::Functions.to_string()), "Functions".to_string());
    assert_eq!(format!("{}", SectionType::Strings.to_string()), "Strings".to_string());
    assert_eq!(format!("{}", SectionType::Instructions.to_string()), "Instructions".to_string());
}

#[test]
fn test_load_string_index_out_of_bounds() {
    let reader = vec![
        0x00, 0x00, 0x00, 0x01, 0x00, 0x00, 0x00, 0x04, 0x00, 0x00, 0x00, 0x00,
        0x00, 0x00, 0x00, 0x02, 0x00, 0x00, 0x00, 0x09,
        0x00, 0x00, 0x00, 0x00, 0x6d, 0x61, 0x69, 0x6e, 0x00,
        0x00, 0x00, 0x00, 0x03, 0x00, 0x00, 0x00, 0x04, 0x61, 0x62, 0x63, 0x00,
        0x00, 0x00, 0x00, 0x04, 0x00, 0x00, 0x00, 0x0c,
        0x01, 0xF3, 0x01,
        0x14, 0xF4, 0x00, 0x01,
        0x15, 0xF0, 0x01, // PushString 1 (out of bounds)
        0x1b,
        0x07,
    ];
    let result = BytecodeLoaderBuilder::new(reader).build();
    assert!(result.is_err());
}

#[test]
fn test_invalid_instruction() {
    let reader = vec![
        0x00, 0x00, 0x00, 0x01, 0x00, 0x00, 0x00, 0x04, 0x00, 0x00, 0x00, 0x00,
        0x00, 0x00, 0x00, 0x02, 0x00, 0x00, 0x00, 0x09,
        0x00, 0x00, 0x00, 0x00, 0x6d, 0x61, 0x69, 0x6e, 0x00,
        0x00, 0x00, 0x00, 0x03, 0x00, 0x00, 0x00, 0x04, 0x61, 0x62, 0x63, 0x00,
        0x00, 0x00, 0x00, 0x04, 0x00, 0x00, 0x00, 0x02,
        0xF3, // ImmByte
        0x01,
    ];
    let result = BytecodeLoaderBuilder::new(reader).build();
    assert!(result.is_err());
}

#[test]
fn test_load_invalid_function_section_length() {
    let reader = vec![
        0x00, 0x00, 0x00, 0x01, 0x00, 0x00, 0x00, 0x04, 0x00, 0x00, 0x00, 0x00,
        0x00, 0x00, 0x00, 0x02, 0x00, 0x00, 0x00, 0x09, // Length: 9 (invalid)
        0x00, 0x00, 0x00, 0x00, 0x6d, 0x61, 0x69, 0x6e, 0x41, 0x00, // "mainA"
        0x00, 0x00, 0x00, 0x03, 0x00, 0x00, 0x00, 0x04, 0x61, 0x62, 0x63, 0x00,
        0x00, 0x00, 0x00, 0x04, 0x00, 0x00, 0x00, 0x0c,
        0x01, 0xF3, 0x01,
        0x14, 0xF4, 0x00, 0x01,
        0x15, 0xF0, 0x00,
        0x1b,
        0x07,
    ];
    let result = BytecodeLoaderBuilder::new(reader).build();
    assert!(result.is_err());
}

#[test]
fn test_operands() {
    let reader = vec![
        0x00, 0x00, 0x00, 0x01, 0x00, 0x00, 0x00, 0x04, 0x00, 0x00, 0x00, 0x00,
        0x00, 0x00, 0x00, 0x02, 0x00, 0x00, 0x00, 0x09,
        0x00, 0x00, 0x00, 0x00, 0x6d, 0x61, 0x69, 0x6e, 0x00,
        0x00, 0x00, 0x00, 0x03, 0x00, 0x00, 0x00, 0x04, 0x61, 0x62, 0x63, 0x00,
        0x00, 0x00, 0x00, 0x04, 0x00, 0x00, 0x00, 0x23, // Length: 35
        0x01, 0xF3, 0x01, // Jmp 1
        0x14, 0xF4, 0x00, 0x01, // PushNumber 1
        0x14, 0xF5, 0x00, 0x00, 0x00, 0x01, // PushNumber 1
        0x14, 0xF6, 0x33, 0x2e, 0x31, 0x34, 0x00, // PushNumber "3.14"
        0x15, 0xF0, 0x00, // PushString 0
        0x15, 0xF1, 0x00, 0x00, // PushString 0
        0x15, 0xF2, 0x00, 0x00, 0x00, 0x00, // PushString 0
        0x1b, // Pi
        0x07, // Ret
    ];
    let loader = BytecodeLoaderBuilder::new(reader).build().unwrap();

    assert_eq!(loader.function_map().len(), 2);
    assert_eq!(loader.function_map().get(&Some("main".to_string())), Some(&0));
    assert_eq!(loader.strings().len(), 1);
    assert_eq!(loader.strings().first(), Some(&"abc".to_string()));
    assert_eq!(loader.instructions().len(), 9);

    let i = loader.instructions();
    assert_eq!(i[0].opcode, Opcode::Jmp);
    assert_eq!(i[0].operand, Some(Operand::new_number(1)));
    assert_eq!(i[1].opcode, Opcode::PushNumber);
    assert_eq!(i[1].operand, Some(Operand::new_number(1)));
    assert_eq!(i[2].opcode, Opcode::PushNumber);
    assert_eq!(i[2].operand, Some(Operand::new_number(1)));
    assert_eq!(i[3].opcode, Opcode::PushNumber);
    assert_eq!(i[3].operand, Some(Operand::new_float("3.14")));
    assert_eq!(i[4].opcode, Opcode::PushString);
    assert_eq!(i[4].operand, Some(Operand::new_string("abc")));
    assert_eq!(i[5].opcode, Opcode::PushString);
    assert_eq!(i[5].operand, Some(Operand::new_string("abc")));
    assert_eq!(i[6].opcode, Opcode::PushString);
    assert_eq!(i[6].operand, Some(Operand::new_string("abc")));
    assert_eq!(i[7].opcode, Opcode::Pi);
    assert_eq!(i[7].operand, None);
    assert_eq!(i[8].opcode, Opcode::Ret);
    assert_eq!(i[8].operand, None);
}

#[test]
fn test_start_block_addresses() {
    let reader = vec![
        0x00, 0x00, 0x00, 0x01, 0x00, 0x00, 0x00, 0x04, 0x00, 0x00, 0x00, 0x00,
        0x00, 0x00, 0x00, 0x02, 0x00, 0x00, 0x00, 0x09,
        0x00, 0x00, 0x00, 0x03, 0x6d, 0x61, 0x69, 0x6e, 0x00, // 3: "main"
        0x00, 0x00, 0x00, 0x03, 0x00, 0x00, 0x00, 0x04, 0x41, 0x42, 0x43, 0x00,
        0x00, 0x00, 0x00, 0x04, 0x00, 0x00, 0x00, 0x26, // Length: 38
        0x01, 0xF3, 0x05, // Jmp 5
        0x14, 0xF4, 0x00, 0x01,
        0x14, 0xF5, 0x00, 0x00, 0x00, 0x01,
        0x14, 0xF6, 0x33, 0x2e, 0x31, 0x34, 0x00,
        0x15, 0xF0, 0x00,
        0x15, 0xF1, 0x00, 0x00,
        0x02, 0xF3, 0x02, // Jeq 2
        0x15, 0xF2, 0x00, 0x00, 0x00, 0x00,
        0x1b,
        0x07,
    ];
    let loader = BytecodeLoaderBuilder::new(reader).build().unwrap();

    assert_eq!(loader.block_breaks().len(), 7);
    assert!(loader.block_breaks().contains(&0));
    assert!(loader.block_breaks().contains(&1));
    assert!(loader.block_breaks().contains(&2));
    assert!(loader.block_breaks().contains(&3));
    assert!(loader.block_breaks().contains(&5));
    assert!(loader.block_breaks().contains(&7));
    assert!(loader.block_breaks().contains(&10));
}

#[test]
fn test_invalid_blocks() {
    let reader = vec![
        0x00, 0x00, 0x00, 0x01, 0x00, 0x00, 0x00, 0x04, 0x00, 0x00, 0x00, 0x00,
        0x00, 0x00, 0x00, 0x02, 0x00, 0x00, 0x00, 0x09,
        0x00, 0x00, 0x00, 0x00, 0x6d, 0x61, 0x69, 0x6e, 0x00,
        0x00, 0x00, 0x00, 0x03, 0x00, 0x00, 0x00, 0x04, 0x41, 0x42, 0x43, 0x00,
        0x00, 0x00, 0x00, 0x04, 0x00, 0x00, 0x00, 0x26,
        0x01, 0xF3, 0x05,
        0x14, 0xF4, 0x00, 0x01,
        0x14, 0xF5, 0x00, 0x00, 0x00, 0x01,
        0x14, 0xF6, 0x33, 0x2e, 0x31, 0x34, 0x00,
        0x15, 0xF0, 0x00,
        0x15, 0xF1, 0x00, 0x00,
        0x02, 0xF3, 0xFF, // Jeq -1 (invalid)
        0x15, 0xF2, 0x00, 0x00, 0x00, 0x00,
        0x1b,
        0x07,
    ];
    let loader = BytecodeLoaderBuilder::new(reader).build();
    assert!(loader.is_err());
}

#[test]
fn test_complex_load() {
    let mut reader = vec![
        0x00, 0x00, 0x00, 0x01, 0x00, 0x00, 0x00, 0x04, 0x00, 0x00, 0x00, 0x00,
        0x00, 0x00, 0x00, 0x02, 0x00, 0x00, 0x00, 0x09,
        0x00, 0x00, 0x00, 0x01, 0x6d, 0x61, 0x69, 0x6e, 0x00, // 1: "main"
        0x00, 0x00, 0x00, 0x03, 0x00, 0x00, 0x00, 0x04, 0x61, 0x62, 0x63, 0x00,
        0x00, 0x00, 0x00, 0x04, 0x00, 0x00, 0x00, 0x47, // Length: 71
    ];
    reader.extend_from_slice(&[
        0x01, 0xF3, 0x19, 0x14, 0xF3, 0x00, 0x01, 0xF3, 0x0c, 0x14, 0xF3, 0x00, 0x01, 0xF3, 0x17,
        0x14, 0xF3, 0x00, 0x01, 0xF3, 0x17, 0x14, 0xF3, 0x00, 0x01, 0xF3, 0x17, 0x14, 0xF3, 0x00,
        0x01, 0xF3, 0x17, 0x01, 0xF3, 0x17, 0x14, 0xF3, 0x00, 0x02, 0xF3, 0x03, 0x14, 0xF3, 0x00,
        0x02, 0xF3, 0x03, 0x14, 0xF3, 0x00, 0x02, 0xF3, 0x03, 0x14, 0xF3, 0x00, 0x02, 0xF3, 0x05,
        0x14, 0xF3, 0x00, 0x02, 0xF3, 0x07, 0x01, 0xF3, 0x0b, 0x20, 0x07,
    ]);
    let loader = BytecodeLoaderBuilder::new(reader).build().unwrap();

    assert_eq!(loader.function_map().len(), 2);
    let block_starts: Vec<usize> = loader.block_breaks().iter().copied().collect();
    let expected_block_starts = vec![
        0x0, 0x1, 0x3, 0x5, 0x7, 0x9, 0xb, 0xc, 0xe, 0x10, 0x12, 0x14, 0x16, 0x17, 0x19,
    ];
    assert_eq!(block_starts, expected_block_starts);
    assert_eq!(loader.find_block_start_address(0x0d), 0x0c);
    assert_eq!(loader.find_block_start_address(0x19), 0x19);
    assert_eq!(loader.find_block_start_address(0x100), 0x19);

    for address in expected_block_starts.iter() {
        match address {
            0 => assert_eq!(loader.get_function_name_for_address(0).unwrap(), None),
            0x09 => assert!(loader.get_function_name_for_address(9).is_err()),
            0x19 => assert_eq!(loader.get_function_name_for_address(0x19).unwrap(), None),
            _ => assert_eq!(
                loader.get_function_name_for_address(*address).unwrap(),
                Some("main".to_string())
            ),
        }
    }
    assert!(!loader.is_instruction_reachable(9));
    assert!(loader.is_instruction_reachable(0x0d));
}

#[test]
fn bytecode_loader_errors_carry_their_values() {
    let result = BytecodeLoaderBuilder::new(vec![0x00, 0x00, 0x00, 0x05]).build();
    assert!(matches!(result, Err(BytecodeLoaderError::InvalidSectionType(5))));

    let result = BytecodeLoaderBuilder::new(vec![
        0x00, 0x00, 0x00, 0x01, 0x00, 0x00, 0x00, 0x05, 0x00, 0x00, 0x00, 0x00,
    ])
    .build();
    assert!(matches!(result, Err(BytecodeLoaderError::InvalidSectionLength(SectionType::Gs1Flags, 5))));

    let result = BytecodeLoaderBuilder::new(vec![0x00, 0x00, 0x00]).build();
    assert!(matches!(result, Err(BytecodeLoaderError::GraalIo(_))));

    let mut bytes = header();
    bytes.truncate(12);
    bytes.extend_from_slice(&[0x00, 0x00, 0x00, 0x04, 0x00, 0x00, 0x00, 0x02, 0xF3, 0x01]);
    let result = BytecodeLoaderBuilder::new(bytes).build();
    assert!(matches!(result, Err(BytecodeLoaderError::NoPreviousInstruction)));

    let mut bytes = header();
    bytes.truncate(12);
    bytes.extend_from_slice(&[0x00, 0x00, 0x00, 0x04, 0x00, 0x00, 0x00, 0x01, 0x00]);
    let result = BytecodeLoaderBuilder::new(bytes).build();
    assert!(matches!(result, Err(BytecodeLoaderError::OpcodeError(_))));
}

#[test]
fn bytecode_loader_detects_jump_without_operand() {
    let bytes = vec![
        0x00, 0x00, 0x00, 0x01, 0x00, 0x00, 0x00, 0x04, 0x00, 0x00, 0x00, 0x00,
        0x00, 0x00, 0x00, 0x02, 0x00, 0x00, 0x00, 0x00,
        0x00, 0x00, 0x00, 0x03, 0x00, 0x00, 0x00, 0x00,
        0x00, 0x00, 0x00, 0x04, 0x00, 0x00, 0x00, 0x01, 0x01,
    ];
    let builder = BytecodeLoaderBuilder::new(bytes);
    assert!(builder.has_jump_without_operand());
}

#[test]
fn high_bytes_count_once_in_section_lengths() {
    let reader = vec![
        0x00, 0x00, 0x00, 0x01, 0x00, 0x00, 0x00, 0x04, 0x00, 0x00, 0x00, 0x00, // flags
        0x00, 0x00, 0x00, 0x02, 0x00, 0x00, 0x00, 0x09, // functions, length 9
        0x00, 0x00, 0x00, 0x00, 0x63, 0x61, 0x66, 0xE9, 0x00, // 0: "caf\u{e9}"
        0x00, 0x00, 0x00, 0x03, 0x00, 0x00, 0x00, 0x00, // no strings
        0x00, 0x00, 0x00, 0x04, 0x00, 0x00, 0x00, 0x06, // instructions, length 6
        0x14, 0xF6, 0x31, 0xE9, 0x00, // PushNumber "1\u{e9}"
        0x07, // Ret
    ];
    let loader = BytecodeLoaderBuilder::new(reader).build().unwrap();
    assert_eq!(loader.function_map().get(&Some("caf\u{e9}".to_string())), Some(&0));
    assert_eq!(loader.instructions().len(), 2);
    assert_eq!(loader.instructions()[0].operand, Some(Operand::new_float("1\u{e9}")));
}
