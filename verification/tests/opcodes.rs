use ternvm::opcodes::Opcode;
use ternvm::error::Error;

fn check_opcode_from_trit4() {
    assert_eq!(Opcode::And, Opcode::from_trit4(0b00_00_00_00).unwrap());
    assert_eq!(Opcode::Or, Opcode::from_trit4(0b00_00_00_01).unwrap());
    assert_eq!(Opcode::Tmul, Opcode::from_trit4(0b00_00_01_11).unwrap());
    assert_eq!(Opcode::Tcmp, Opcode::from_trit4(0b00_00_01_00).unwrap());
    assert_eq!(Opcode::Cmp, Opcode::from_trit4(0b00_00_01_01).unwrap());
    assert_eq!(Opcode::Shf, Opcode::from_trit4(0b00_01_11_11).unwrap());
    assert_eq!(Opcode::Add, Opcode::from_trit4(0b00_01_11_00).unwrap());
    assert_eq!(Opcode::Mul, Opcode::from_trit4(0b00_01_11_01).unwrap());
    assert_eq!(Opcode::Div, Opcode::from_trit4(0b00_01_00_11).unwrap());
    assert_eq!(Opcode::Andi, Opcode::from_trit4(0b00_01_00_00).unwrap());
    assert_eq!(Opcode::Ori, Opcode::from_trit4(0b00_01_00_01).unwrap());
    assert_eq!(Opcode::Tmuli, Opcode::from_trit4(0b00_01_01_11).unwrap());
    assert_eq!(Opcode::Tcmpi, Opcode::from_trit4(0b00_01_01_00).unwrap());
    assert_eq!(Opcode::Shfi, Opcode::from_trit4(0b00_01_01_01).unwrap());
    assert_eq!(Opcode::Addi, Opcode::from_trit4(0b01_11_11_11).unwrap());
    assert_eq!(Opcode::Lui, Opcode::from_trit4(0b01_11_11_00).unwrap());
    assert_eq!(Opcode::Lsr, Opcode::from_trit4(0b01_11_11_01).unwrap());
    assert_eq!(Opcode::Ssr, Opcode::from_trit4(0b01_11_00_11).unwrap());
    assert_eq!(Opcode::Lt, Opcode::from_trit4(0b01_11_00_00).unwrap());
    assert_eq!(Opcode::Lh, Opcode::from_trit4(0b01_11_00_01).unwrap());
    assert_eq!(Opcode::Lw, Opcode::from_trit4(0b01_11_01_11).unwrap());
    assert_eq!(Opcode::St, Opcode::from_trit4(0b01_11_01_00).unwrap());
    assert_eq!(Opcode::Sh, Opcode::from_trit4(0b01_11_01_01).unwrap());
    assert_eq!(Opcode::Sw, Opcode::from_trit4(0b01_00_11_11).unwrap());
    assert_eq!(Opcode::BT, Opcode::from_trit4(0b01_00_11_00).unwrap());
    assert_eq!(Opcode::B0, Opcode::from_trit4(0b01_00_11_01).unwrap());
    assert_eq!(Opcode::B1, Opcode::from_trit4(0b01_00_00_11).unwrap());
    assert_eq!(Opcode::BT0, Opcode::from_trit4(0b01_00_00_00).unwrap());
    assert_eq!(Opcode::BT1, Opcode::from_trit4(0b01_00_00_01).unwrap());
    assert_eq!(Opcode::B01, Opcode::from_trit4(0b01_00_01_11).unwrap());
    assert_eq!(Opcode::Jmp, Opcode::from_trit4(0b01_00_01_00).unwrap());
    assert_eq!(Opcode::Call, Opcode::from_trit4(0b01_00_01_01).unwrap());
    assert_eq!(Opcode::Jmpr, Opcode::from_trit4(0b01_01_11_11).unwrap());
    assert_eq!(Opcode::Callr, Opcode::from_trit4(0b01_01_11_00).unwrap());
    assert_eq!(Opcode::Syscall, Opcode::from_trit4(0b01_01_11_01).unwrap());
    assert_eq!(Opcode::Break, Opcode::from_trit4(0b01_01_00_11).unwrap());

    assert!(Opcode::from_trit4(0b00_00_00_11).is_err());
    assert!(Opcode::from_trit4(0b01_01_00_00).is_err());
}

#[test]
fn opcode_from_trit4() {
    check_opcode_from_trit4();
}

#[test]
fn opcodes_opcode_from_trit4() {
    check_opcode_from_trit4();
}

/// A selector that decodes past the catalogue carries the decoded value;
/// a reserved bit pattern carries the unassigned mark.
#[test]
fn opcode_error_payloads() {
    assert_eq!(Err(Error::InvalidOpcode(36)), Opcode::from_trit4(0b01_01_00_00));
    assert_eq!(Err(Error::InvalidOpcode(255)), Opcode::from_trit4(0b00_00_00_10));
    assert_eq!(Err(Error::InvalidOpcode(255)), Opcode::from_trit4(0b00_00_00_11));
}
