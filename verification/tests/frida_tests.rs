use gbf_core::frida_bridge::{bytecode_to_hex, hex_to_bytecode, injection_outcome, ClientType, FridaInjector};

#[test]
fn test_bytecode_to_hex() {
    let bytecode = vec![0x00, 0x01, 0x02, 0xFF, 0xAB];
    let hex = bytecode_to_hex(&bytecode);
    assert_eq!(hex, "00 01 02 FF AB");
}

#[test]
fn test_hex_to_bytecode() {
    let hex = "00 01 02 FF AB";
    let bytecode = hex_to_bytecode(hex).unwrap();
    assert_eq!(bytecode, vec![0x00, 0x01, 0x02, 0xFF, 0xAB]);
}

#[test]
fn test_hex_roundtrip() {
    let original = vec![0x00, 0x42, 0xFF, 0x10, 0x20];
    let hex = bytecode_to_hex(&original);
    let decoded = hex_to_bytecode(&hex).unwrap();
    assert_eq!(original, decoded);
}

#[test]
fn test_client_type_v6_offsets() {
    let client = ClientType::GraalV6;
    assert_eq!(client.target_module(), "Graal.exe");
    assert_eq!(client.tgralvar_constructor_offset(), 0x195770);
    assert_eq!(client.tgralvar_setscript_offset(), 0x196290);
    assert_eq!(client.magic_check_offset(), Some(0x17da90));
    assert_eq!(client.magic_check_value(), Some(157876074));
    assert!(client.uses_thiscall());
}

#[test]
fn test_client_type_worlds_offsets() {
    let client = ClientType::GraalWorlds;
    assert_eq!(client.target_module(), "Worlds.exe");
    assert_eq!(client.tgralvar_constructor_offset(), 0x9A340);
    assert_eq!(client.tgralvar_setscript_offset(), 0x9EDE0);
    assert_eq!(client.magic_check_offset(), None);
    assert_eq!(client.magic_check_value(), None);
    assert!(!client.uses_thiscall());
}

#[test]
fn test_generate_injection_script_v6() {
    let injector = FridaInjector::new(ClientType::GraalV6);
    let script = injector.generate_injection_script("00 01 02", "TestVar");

    assert!(script.contains("Graal V6"));
    assert!(script.contains("0x195770"));
    assert!(script.contains("0x196290"));
    assert!(script.contains("thiscall"));
    assert!(script.contains("157876074"));
    assert!(script.contains("TestVar"));
    assert!(script.contains("00 01 02"));
}

#[test]
fn test_generate_injection_script_worlds() {
    let injector = FridaInjector::new(ClientType::GraalWorlds);
    let script = injector.generate_injection_script("00 01 02", ".");

    assert!(script.contains("Graal Worlds"));
    assert!(script.contains("0x9A340"));
    assert!(script.contains("0x9EDE0"));
    assert!(!script.contains("thiscall"));
    assert!(!script.contains("157876074"));
}

#[test]
fn frida_hex_errors_and_white_space() {
    assert_eq!(hex_to_bytecode("").unwrap(), Vec::<u8>::new());
    assert_eq!(hex_to_bytecode("  a\tB\n+c  ").unwrap(), vec![0x0a, 0x0b, 0x0c]);
    assert_eq!(hex_to_bytecode("0ff").unwrap(), vec![0xff]);
    let err = hex_to_bytecode("01 zz 02").unwrap_err();
    assert!(err.starts_with("Invalid hex: zz - "));
    assert_eq!(err, format!("Invalid hex: zz - {}", u8::from_str_radix("zz", 16).unwrap_err()));
    assert!(hex_to_bytecode("100").is_err());
    assert!(hex_to_bytecode("+").is_err());
    assert_eq!(bytecode_to_hex(&[]), "");
    assert_eq!(bytecode_to_hex(&[0x0a]), "0A");
}

#[test]
fn frida_script_escapes_variable_name_and_lists_target() {
    let injector = FridaInjector::new(ClientType::GraalWorlds);
    let script = injector.generate_injection_script("AA", "it's\\x");
    assert!(script.contains("injectBytecode('it\\'s\\\\x', \"AA\")"));
    assert!(script.starts_with("// Generated by GraalHax - GS2 Bytecode Injector for Graal Worlds\n\n"));
    assert!(injector.process_list_has_target("  PID  Name\n 1234  Worlds.exe\n"));
    assert!(!injector.process_list_has_target("  1234  Graal.exe\n"));
    assert_eq!(injector.process_not_running(), "Target process Worlds.exe is not running");
    assert_eq!(injection_outcome(true, "out", "err"), Ok("Success: out\nerr".to_string()));
    assert_eq!(injection_outcome(false, "out", "err"), Err("Injection failed: err".to_string()));
    assert_eq!(ClientType::GraalV6.name(), "Graal V6");
    assert_eq!(ClientType::GraalWorlds.default_variable_name(), ".");
}
