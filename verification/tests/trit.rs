use ternvm::ternary::Error;
use ternvm::trit::Trit;

const NEG: Trit = Trit::Neg;
const ZERO: Trit = Trit::Zero;
const POS: Trit = Trit::Pos;

fn check_trit_into_i16() {
    assert_eq!(-1_i16, NEG.to_i16());
    assert_eq!(0_i16, ZERO.to_i16());
    assert_eq!(1_i16, POS.to_i16());
}

fn check_trit_from_i16() {
    assert_eq!(Ok(NEG), Trit::from_i16(-1));
    assert_eq!(Ok(ZERO), Trit::from_i16(0));
    assert_eq!(Ok(POS), Trit::from_i16(1));

    assert!(Trit::from_i16(-2).is_err());
    assert!(Trit::from_i16(2).is_err());
}

fn check_trit_into_char() {
    assert_eq!('T', NEG.to_char());
    assert_eq!('0', ZERO.to_char());
    assert_eq!('1', POS.to_char());
}

fn check_trit_from_char() {
    assert_eq!(Ok(NEG), Trit::from_char('T'));
    assert_eq!(Ok(ZERO), Trit::from_char('0'));
    assert_eq!(Ok(POS), Trit::from_char('1'));

    assert!(Trit::from_char('t').is_err());
    assert!(Trit::from_char('S').is_err());
    assert!(Trit::from_char('2').is_err());
}

fn check_trit_negate() {
    assert_eq!(POS, NEG.negate());
    assert_eq!(ZERO, ZERO.negate());
    assert_eq!(NEG, POS.negate());
}

fn check_trit_and() {
    assert_eq!(ZERO, ZERO.and(ZERO));
    assert_eq!(ZERO, ZERO.and(POS));
    assert_eq!(NEG, ZERO.and(NEG));
    assert_eq!(ZERO, POS.and(ZERO));
    assert_eq!(POS, POS.and(POS));
    assert_eq!(NEG, POS.and(NEG));
    assert_eq!(NEG, NEG.and(ZERO));
    assert_eq!(NEG, NEG.and(POS));
    assert_eq!(NEG, NEG.and(NEG));
}

fn check_trit_or() {
    assert_eq!(ZERO, ZERO.or(ZERO));
    assert_eq!(POS, ZERO.or(POS));
    assert_eq!(ZERO, ZERO.or(NEG));
    assert_eq!(POS, POS.or(ZERO));
    assert_eq!(POS, POS.or(POS));
    assert_eq!(POS, POS.or(NEG));
    assert_eq!(ZERO, NEG.or(ZERO));
    assert_eq!(POS, NEG.or(POS));
    assert_eq!(NEG, NEG.or(NEG));
}

fn check_trit_add() {
    assert_eq!((ZERO, ZERO), ZERO.add_with_carry(ZERO, ZERO));
    assert_eq!((POS, ZERO), ZERO.add_with_carry(ZERO, POS));
    assert_eq!((NEG, ZERO), ZERO.add_with_carry(ZERO, NEG));
    assert_eq!((POS, ZERO), ZERO.add_with_carry(POS, ZERO));
    assert_eq!((NEG, POS), ZERO.add_with_carry(POS, POS));
    assert_eq!((ZERO, ZERO), ZERO.add_with_carry(POS, NEG));
    assert_eq!((NEG, ZERO), ZERO.add_with_carry(NEG, ZERO));
    assert_eq!((ZERO, ZERO), ZERO.add_with_carry(NEG, POS));
    assert_eq!((POS, NEG), ZERO.add_with_carry(NEG, NEG));
    assert_eq!((POS, ZERO), POS.add_with_carry(ZERO, ZERO));
    assert_eq!((NEG, POS), POS.add_with_carry(ZERO, POS));
    assert_eq!((ZERO, ZERO), POS.add_with_carry(ZERO, NEG));
    assert_eq!((NEG, POS), POS.add_with_carry(POS, ZERO));
    assert_eq!((ZERO, POS), POS.add_with_carry(POS, POS));
    assert_eq!((POS, ZERO), POS.add_with_carry(POS, NEG));
    assert_eq!((ZERO, ZERO), POS.add_with_carry(NEG, ZERO));
    assert_eq!((POS, ZERO), POS.add_with_carry(NEG, POS));
    assert_eq!((NEG, ZERO), POS.add_with_carry(NEG, NEG));
    assert_eq!((NEG, ZERO), NEG.add_with_carry(ZERO, ZERO));
    assert_eq!((ZERO, ZERO), NEG.add_with_carry(ZERO, POS));
    assert_eq!((POS, NEG), NEG.add_with_carry(ZERO, NEG));
    assert_eq!((ZERO, ZERO), NEG.add_with_carry(POS, ZERO));
    assert_eq!((POS, ZERO), NEG.add_with_carry(POS, POS));
    assert_eq!((NEG, ZERO), NEG.add_with_carry(POS, NEG));
    assert_eq!((POS, NEG), NEG.add_with_carry(NEG, ZERO));
    assert_eq!((NEG, ZERO), NEG.add_with_carry(NEG, POS));
    assert_eq!((ZERO, NEG), NEG.add_with_carry(NEG, NEG));
}

fn check_trit_mul() {
    assert_eq!(ZERO, ZERO.tmul(ZERO));
    assert_eq!(ZERO, ZERO.tmul(POS));
    assert_eq!(ZERO, ZERO.tmul(NEG));
    assert_eq!(ZERO, POS.tmul(ZERO));
    assert_eq!(POS, POS.tmul(POS));
    assert_eq!(NEG, POS.tmul(NEG));
    assert_eq!(ZERO, NEG.tmul(ZERO));
    assert_eq!(NEG, NEG.tmul(POS));
    assert_eq!(POS, NEG.tmul(NEG));
}

fn check_trit_cmp() {
    assert!(ZERO == ZERO);
    assert!(ZERO < POS);
    assert!(ZERO > NEG);
    assert!(POS > ZERO);
    assert!(POS > NEG);
    assert!(POS == POS);
    assert!(NEG < ZERO);
    assert!(NEG < POS);
    assert!(NEG == NEG);
}

#[test]
fn trit_from_trit4_rejects_reserved_pattern() {
    assert_eq!(Ok(ZERO), Trit::from_trit4(0b00));
    assert_eq!(Ok(POS), Trit::from_trit4(0b01));
    assert_eq!(Ok(NEG), Trit::from_trit4(0b11));
    assert_eq!(Err(Error::InvalidBitPattern(2)), Trit::from_trit4(0b10));
}

#[test]
fn trit_into_i16() {
    check_trit_into_i16();
}

#[test]
fn trit_trit_into_i16() {
    check_trit_into_i16();
}

#[test]
fn trit_from_i16() {
    check_trit_from_i16();
}

#[test]
fn trit_trit_from_i16() {
    check_trit_from_i16();
}

#[test]
fn trit_into_char() {
    check_trit_into_char();
}

#[test]
fn trit_trit_into_char() {
    check_trit_into_char();
}

#[test]
fn trit_from_char() {
    check_trit_from_char();
}

#[test]
fn trit_trit_from_char() {
    check_trit_from_char();
}

#[test]
fn trit_negate() {
    check_trit_negate();
}

#[test]
fn trit_trit_negate() {
    check_trit_negate();
}

#[test]
fn trit_and() {
    check_trit_and();
}

#[test]
fn trit_trit_and() {
    check_trit_and();
}

#[test]
fn trit_or() {
    check_trit_or();
}

#[test]
fn trit_trit_or() {
    check_trit_or();
}

#[test]
fn trit_add() {
    check_trit_add();
}

#[test]
fn trit_trit_add() {
    check_trit_add();
}

#[test]
fn trit_mul() {
    check_trit_mul();
}

#[test]
fn trit_trit_mul() {
    check_trit_mul();
}

#[test]
fn trit_cmp() {
    check_trit_cmp();
}

#[test]
fn trit_trit_cmp() {
    check_trit_cmp();
}
