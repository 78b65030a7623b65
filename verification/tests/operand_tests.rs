use gbf_core::operand::{Operand, OperandError};

#[test]
fn string_operand() {
    let operand = Operand::new_string("Hello, world!");
    assert_eq!(operand.get_string_value().unwrap(), "Hello, world!");
    assert_eq!(operand.to_string(), "Hello, world!");
}

#[test]
fn test_illegal_conversion() {
    let operand = Operand::new_number(42);
    assert!(operand.get_string_value().is_err());

    let operand = Operand::new_string("Hello, world!");
    assert!(operand.get_number_value().is_err());

    let operand = Operand::new_float("3.14");
    assert!(operand.get_number_value().is_err());
}

#[test]
fn float_operand() {
    let operand = Operand::new_float("3.14");
    assert_eq!(operand.get_string_value().unwrap(), "3.14");
    assert_eq!(operand.to_string(), "3.14");
}

#[test]
fn int_operand() {
    let operand = Operand::new_number(42);
    assert_eq!(operand.get_number_value().unwrap(), 42);
    assert_eq!(operand.to_string(), "0x2a");
}

#[test]
fn display_trait() {
    let operand = Operand::new_number(123);
    assert_eq!(operand.to_string(), "0x7b");
    assert_eq!(format!("{}", operand.to_string()), "0x7b");
}

#[test]
fn operand_negative_number_text_is_twos_complement() {
    assert_eq!(Operand::new_number(-1).to_string(), "0xffffffff");
    assert_eq!(Operand::new_number(0).to_string(), "0x0");
}

#[test]
fn operand_conversion_errors_name_the_kinds() {
    match Operand::new_number(1).get_string_value() {
        Err(OperandError::InvalidConversion(a, b)) => {
            assert_eq!(a, "Number");
            assert_eq!(b, "String");
        }
        _ => panic!("expected a conversion error"),
    }
    match Operand::new_string("x").get_number_value() {
        Err(OperandError::InvalidConversion(a, b)) => {
            assert_eq!(a, "String/Float");
            assert_eq!(b, "Number");
        }
        _ => panic!("expected a conversion error"),
    }
}
