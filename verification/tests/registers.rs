use ternvm::registers::{Register, StandardRegister, SystemRegister};
use ternvm::error::Error;

fn check_standard_register_from_trit4() {
    assert_eq!(StandardRegister::Zero, StandardRegister::from_trit4(0b00_00_00_00).unwrap());
    assert_eq!(StandardRegister::Lo, StandardRegister::from_trit4(0b00_00_00_01).unwrap());
    assert_eq!(StandardRegister::Hi, StandardRegister::from_trit4(0b00_00_01_11).unwrap());
    assert_eq!(StandardRegister::Sp, StandardRegister::from_trit4(0b00_00_01_00).unwrap());
    assert_eq!(StandardRegister::Fp, StandardRegister::from_trit4(0b00_00_01_01).unwrap());
    assert_eq!(StandardRegister::Ra, StandardRegister::from_trit4(0b00_01_11_11).unwrap());
    assert_eq!(StandardRegister::A0, StandardRegister::from_trit4(0b00_01_11_00).unwrap());
    assert_eq!(StandardRegister::A1, StandardRegister::from_trit4(0b00_01_11_01).unwrap());
    assert_eq!(StandardRegister::A2, StandardRegister::from_trit4(0b00_01_00_11).unwrap());
    assert_eq!(StandardRegister::A3, StandardRegister::from_trit4(0b00_01_00_00).unwrap());
    assert_eq!(StandardRegister::A4, StandardRegister::from_trit4(0b00_01_00_01).unwrap());
    assert_eq!(StandardRegister::A5, StandardRegister::from_trit4(0b00_01_01_11).unwrap());
    assert_eq!(StandardRegister::S0, StandardRegister::from_trit4(0b00_01_01_00).unwrap());
    assert_eq!(StandardRegister::S1, StandardRegister::from_trit4(0b00_01_01_01).unwrap());
    assert_eq!(StandardRegister::S2, StandardRegister::from_trit4(0b01_11_11_11).unwrap());
    assert_eq!(StandardRegister::S3, StandardRegister::from_trit4(0b01_11_11_00).unwrap());
    assert_eq!(StandardRegister::S4, StandardRegister::from_trit4(0b01_11_11_01).unwrap());
    assert_eq!(StandardRegister::S5, StandardRegister::from_trit4(0b01_11_00_11).unwrap());
    assert_eq!(StandardRegister::T0, StandardRegister::from_trit4(0b01_11_00_00).unwrap());
    assert_eq!(StandardRegister::T1, StandardRegister::from_trit4(0b01_11_00_01).unwrap());
    assert_eq!(StandardRegister::T2, StandardRegister::from_trit4(0b01_11_01_11).unwrap());
    assert_eq!(StandardRegister::T3, StandardRegister::from_trit4(0b01_11_01_00).unwrap());
    assert_eq!(StandardRegister::T4, StandardRegister::from_trit4(0b01_11_01_01).unwrap());
    assert_eq!(StandardRegister::T5, StandardRegister::from_trit4(0b01_00_11_11).unwrap());

    assert!(StandardRegister::from_trit4(0b00_00_00_11).is_err());
    assert!(StandardRegister::from_trit4(0b01_00_11_00).is_err());
}

fn check_system_register_from_trit4() {
    assert_eq!(SystemRegister::Eha, SystemRegister::from_trit4(0b00_00_00_00).unwrap());
    assert_eq!(SystemRegister::Era, SystemRegister::from_trit4(0b00_00_00_01).unwrap());
    assert_eq!(SystemRegister::Ec, SystemRegister::from_trit4(0b00_00_01_11).unwrap());
    assert_eq!(SystemRegister::Ed, SystemRegister::from_trit4(0b00_00_01_00).unwrap());

    assert!(SystemRegister::from_trit4(0b00_00_00_11).is_err());
    assert!(SystemRegister::from_trit4(0b00_00_01_01).is_err());
}

#[test]
fn register_file_slots() {
    assert_eq!(0, StandardRegister::Zero.into_index());
    assert_eq!(1, StandardRegister::Lo.into_index());
    assert_eq!(2, StandardRegister::Hi.into_index());
    assert_eq!(5, StandardRegister::Ra.into_index());
    assert_eq!(23, StandardRegister::T5.into_index());
    assert_eq!(24, SystemRegister::Eha.into_index());
    assert_eq!(27, SystemRegister::Ed.into_index());
}

#[test]
fn standard_register_from_trit4() {
    check_standard_register_from_trit4();
}

#[test]
fn registers_standard_register_from_trit4() {
    check_standard_register_from_trit4();
}

#[test]
fn system_register_from_trit4() {
    check_system_register_from_trit4();
}

#[test]
fn registers_system_register_from_trit4() {
    check_system_register_from_trit4();
}

/// A selector that decodes past the register file carries the decoded
/// value; a reserved bit pattern carries the unassigned mark.
#[test]
fn register_error_payloads() {
    assert_eq!(
        Err(Error::InvalidRegister(24)),
        StandardRegister::from_trit4(0b01_00_11_00)
    );
    assert_eq!(
        Err(Error::InvalidRegister(255)),
        StandardRegister::from_trit4(0b00_00_00_10)
    );
    assert_eq!(
        Err(Error::InvalidRegister(4)),
        SystemRegister::from_trit4(0b00_00_01_01)
    );
}
