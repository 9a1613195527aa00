use ternvm::trit::Trit;
use ternvm::tryte::Tryte;

fn tryte(s: &str) -> Tryte {
    Tryte::from_hyte_str(s).unwrap()
}

fn check_tryte_into_trit() {
    assert_eq!(Ok(Trit::Neg), tryte("0a").try_into_trit());
    assert_eq!(Ok(Trit::Zero), tryte("00").try_into_trit());
    assert_eq!(Ok(Trit::Pos), tryte("0A").try_into_trit());

    assert!(tryte("bj").try_into_trit().is_err());
    assert!(tryte("BJ").try_into_trit().is_err());
}

fn check_tryte_from_trit() {
    assert_eq!(tryte("0a"), Tryte::from_trit(Trit::Neg));
    assert_eq!(tryte("00"), Tryte::from_trit(Trit::Zero));
    assert_eq!(tryte("0A"), Tryte::from_trit(Trit::Pos));
}

#[test]
fn tryte_from_bytes() {
    assert_eq!(Ok(tryte("mm")), Tryte::from_bytes(0b11_11_11_11, 0b00_00_11_11));
    assert_eq!(Ok(tryte("bj")), Tryte::from_bytes(0b01_11_00_11, 0b00_00_00_11));
    assert_eq!(Ok(tryte("0a")), Tryte::from_bytes(0b00_00_00_11, 0b00_00_00_00));
    assert_eq!(Ok(tryte("00")), Tryte::from_bytes(0b00_00_00_00, 0b00_00_00_00));
    assert_eq!(Ok(tryte("0A")), Tryte::from_bytes(0b00_00_00_01, 0b00_00_00_00));
    assert_eq!(Ok(tryte("BJ")), Tryte::from_bytes(0b11_01_00_01, 0b00_00_00_01));
    assert_eq!(Ok(tryte("MM")), Tryte::from_bytes(0b01_01_01_01, 0b00_00_01_01));

    assert!(Tryte::from_bytes(0b01_01_10_01, 0b00_00_01_01).is_err());
}

#[test]
fn tryte_write_bytes() {
    assert_eq!((0b11_11_11_11, 0b00_00_11_11), tryte("mm").write_bytes());
    assert_eq!((0b01_11_00_11, 0b00_00_00_11), tryte("bj").write_bytes());
    assert_eq!((0b00_00_00_11, 0b00_00_00_00), tryte("0a").write_bytes());
    assert_eq!((0b00_00_00_00, 0b00_00_00_00), tryte("00").write_bytes());
    assert_eq!((0b00_00_00_01, 0b00_00_00_00), tryte("0A").write_bytes());
    assert_eq!((0b11_01_00_01, 0b00_00_00_01), tryte("BJ").write_bytes());
    assert_eq!((0b01_01_01_01, 0b00_00_01_01), tryte("MM").write_bytes());
}

fn check_tryte_display_hytes() {
    assert_eq!("mm", tryte("mm").write_hytes());
    assert_eq!("bj", tryte("bj").write_hytes());
    assert_eq!("0a", tryte("0a").write_hytes());
    assert_eq!("00", tryte("00").write_hytes());
    assert_eq!("0A", tryte("0A").write_hytes());
    assert_eq!("BJ", tryte("BJ").write_hytes());
    assert_eq!("MM", tryte("MM").write_hytes());
}

fn check_tryte_from_hyte_str() {
    assert!(Tryte::from_hyte_str("mm").is_ok());
    assert!(Tryte::from_hyte_str("bj").is_ok());
    assert!(Tryte::from_hyte_str("0a").is_ok());
    assert!(Tryte::from_hyte_str("00").is_ok());
    assert!(Tryte::from_hyte_str("0A").is_ok());
    assert!(Tryte::from_hyte_str("BJ").is_ok());
    assert!(Tryte::from_hyte_str("MM").is_ok());

    assert!(Tryte::from_hyte_str("").is_err());
    assert!(Tryte::from_hyte_str("M").is_err());
    assert!(Tryte::from_hyte_str("MMM").is_err());
    assert!(Tryte::from_hyte_str("NN").is_err());
}

fn check_tryte_negate() {
    assert_eq!(tryte("mm"), tryte("MM").negate());
    assert_eq!(tryte("bj"), tryte("BJ").negate());
    assert_eq!(tryte("0a"), tryte("0A").negate());
    assert_eq!(tryte("00"), tryte("00").negate());
    assert_eq!(tryte("0A"), tryte("0a").negate());
    assert_eq!(tryte("BJ"), tryte("bj").negate());
    assert_eq!(tryte("MM"), tryte("mm").negate());

    assert_eq!(tryte("MM"), tryte("mm").negate());
    assert_eq!(tryte("BJ"), tryte("bj").negate());
    assert_eq!(tryte("0A"), tryte("0a").negate());
    assert_eq!(tryte("00"), tryte("00").negate());
    assert_eq!(tryte("0a"), tryte("0A").negate());
    assert_eq!(tryte("bj"), tryte("BJ").negate());
    assert_eq!(tryte("mm"), tryte("MM").negate());
}

fn check_tryte_add() {
    let zero = Trit::Zero;
    assert_eq!((tryte("00"), zero), tryte("0A").add_with_carry(tryte("0a"), zero));
    assert_eq!((tryte("00"), zero), tryte("BJ").add_with_carry(tryte("bj"), zero));
    assert_eq!((tryte("00"), zero), tryte("MM").add_with_carry(tryte("mm"), zero));

    assert_eq!((tryte("mm"), zero), tryte("mm").add_with_carry(tryte("00"), zero));
    assert_eq!((tryte("bj"), zero), tryte("bj").add_with_carry(tryte("00"), zero));
    assert_eq!((tryte("0a"), zero), tryte("0a").add_with_carry(tryte("00"), zero));
    assert_eq!((tryte("00"), zero), tryte("00").add_with_carry(tryte("00"), zero));
    assert_eq!((tryte("0A"), zero), tryte("0A").add_with_carry(tryte("00"), zero));
    assert_eq!((tryte("BJ"), zero), tryte("BJ").add_with_carry(tryte("00"), zero));
    assert_eq!((tryte("MM"), zero), tryte("MM").add_with_carry(tryte("00"), zero));

    assert_eq!((tryte("mm"), zero), tryte("00").add_with_carry(tryte("mm"), zero));
    assert_eq!((tryte("bj"), zero), tryte("00").add_with_carry(tryte("bj"), zero));
    assert_eq!((tryte("0a"), zero), tryte("00").add_with_carry(tryte("0a"), zero));
    assert_eq!((tryte("00"), zero), tryte("00").add_with_carry(tryte("00"), zero));
    assert_eq!((tryte("0A"), zero), tryte("00").add_with_carry(tryte("0A"), zero));
    assert_eq!((tryte("BJ"), zero), tryte("00").add_with_carry(tryte("BJ"), zero));
    assert_eq!((tryte("MM"), zero), tryte("00").add_with_carry(tryte("MM"), zero));
}

#[test]
fn tryte_into_trit() {
    check_tryte_into_trit();
}

#[test]
fn tryte_tryte_into_trit() {
    check_tryte_into_trit();
}

#[test]
fn tryte_from_trit() {
    check_tryte_from_trit();
}

#[test]
fn tryte_tryte_from_trit() {
    check_tryte_from_trit();
}

#[test]
fn tryte_display_hytes() {
    check_tryte_display_hytes();
}

#[test]
fn tryte_tryte_display_hytes() {
    check_tryte_display_hytes();
}

#[test]
fn tryte_from_hyte_str() {
    check_tryte_from_hyte_str();
}

#[test]
fn tryte_tryte_from_hyte_str() {
    check_tryte_from_hyte_str();
}

#[test]
fn tryte_negate() {
    check_tryte_negate();
}

#[test]
fn tryte_tryte_negate() {
    check_tryte_negate();
}

#[test]
fn tryte_add() {
    check_tryte_add();
}

#[test]
fn tryte_tryte_add() {
    check_tryte_add();
}
