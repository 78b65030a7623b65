use gbf_core::disassemble_bytecode;

#[test]
fn test_disassemble() {
    let reader = vec![
        0x00, 0x00, 0x00, 0x01, 0x00, 0x00, 0x00, 0x04, 0x00, 0x00, 0x00, 0x00,
        0x00, 0x00, 0x00, 0x02, 0x00, 0x00, 0x00, 0x09,
        0x00, 0x00, 0x00, 0x00, 0x6d, 0x61, 0x69, 0x6e, 0x00,
        0x00, 0x00, 0x00, 0x03, 0x00, 0x00, 0x00, 0x04, 0x61, 0x62, 0x63, 0x00,
        0x00, 0x00, 0x00, 0x04, 0x00, 0x00, 0x00, 0x0c,
        0x01, 0xF3, 0x01,
        0x14, 0xF4, 0x00, 0x01,
        0x15, 0xF0, 0x00,
        0x1b,
        0x07,
    ];

    let result = disassemble_bytecode(reader).unwrap();

    assert_eq!(
        result,
        "00000000: Jmp 0x1\n\
        00000001: PushNumber 0x1\n\
        00000002: PushString abc\n\
        00000003: Pi\n\
        00000004: Ret\n"
    );

    let reader = vec![0x00, 0x00, 0x00, 0x01];
    let result = disassemble_bytecode(reader);
    assert!(result.is_err());
}
