use ternvm::inst::Inst;
use ternvm::operands::{Empty, Half, Word, A, O, R, RI, RO, RR, RRI, RRO, RRR};
use ternvm::registers::StandardRegister;
use ternvm::ternary;
use ternvm::tryte::Tryte;

const ZERO: StandardRegister = StandardRegister::Zero;
const T0: StandardRegister = StandardRegister::T0;
const T1: StandardRegister = StandardRegister::T1;
const T2: StandardRegister = StandardRegister::T2;

fn trits(s: &str, n: usize) -> Vec<Tryte> {
    let mut v = ternary::zero_trytes(n);
    ternary::read_trits(&mut v, s).unwrap();
    v
}

fn inst(s: &str) -> Result<Inst, ternvm::error::Error> {
    let word = trits(s, 4);
    Inst::from_word(&word)
}

fn half(s: &str) -> Half {
    let v = trits(s, 2);
    Half { lo: v[0], hi: v[1] }
}

fn word4(s: &str) -> Word {
    let v = trits(s, 4);
    Word { w0: v[0], w1: v[1], w2: v[2], w3: v[3] }
}

fn t12_4096() -> Half {
    half("0001T0T0TT01")
}

fn t24_4096() -> Word {
    word4("0000000000000001T0T0TT01")
}

fn t24_1073741824() -> Word {
    word4("000010T10T11110T1T0T0T01")
}

#[test]
fn instruction_from_word() {
    assert_eq!(
        Inst::And(RRR { dest: ZERO, lhs: ZERO, rhs: ZERO }),
        inst("000000000000000000000000").unwrap()
    );
    assert_eq!(
        Inst::And(RRR { dest: T0, lhs: T1, rhs: T2 }),
        inst("000000001T011T001T0T0000").unwrap()
    );
    assert_eq!(
        Inst::Or(RRR { dest: T0, lhs: T1, rhs: T2 }),
        inst("000000001T011T001T0T0001").unwrap()
    );
    assert_eq!(
        Inst::Tmul(RRR { dest: T0, lhs: T1, rhs: T2 }),
        inst("000000001T011T001T0T001T").unwrap()
    );
    assert_eq!(
        Inst::Tcmp(RRR { dest: T0, lhs: T1, rhs: T2 }),
        inst("000000001T011T001T0T0010").unwrap()
    );
    assert_eq!(
        Inst::Cmp(RRR { dest: T0, lhs: T1, rhs: T2 }),
        inst("000000001T011T001T0T0011").unwrap()
    );
    assert_eq!(
        Inst::Shf(RRR { dest: T0, lhs: T1, rhs: T2 }),
        inst("000000001T011T001T0T01TT").unwrap()
    );
    assert_eq!(
        Inst::Add(RRR { dest: T0, lhs: T1, rhs: T2 }),
        inst("000000001T011T001T0T01T0").unwrap()
    );
    assert_eq!(
        Inst::Mul(RR { lhs: T0, rhs: T1 }),
        inst("0000000000001T001T0T01T1").unwrap()
    );
    assert_eq!(
        Inst::Div(RR { lhs: T0, rhs: T1 }),
        inst("0000000000001T001T0T010T").unwrap()
    );
    assert_eq!(
        Inst::Andi(RRI { dest: T0, src: T1, immediate: t12_4096() }),
        inst("0001T0T0TT011T001T0T0100").unwrap()
    );
    assert_eq!(
        Inst::Ori(RRI { dest: T0, src: T1, immediate: t12_4096() }),
        inst("0001T0T0TT011T001T0T0101").unwrap()
    );
    assert_eq!(
        Inst::Tmuli(RRI { dest: T0, src: T1, immediate: t12_4096() }),
        inst("0001T0T0TT011T001T0T011T").unwrap()
    );
    assert_eq!(
        Inst::Tcmpi(RRI { dest: T0, src: T1, immediate: t12_4096() }),
        inst("0001T0T0TT011T001T0T0110").unwrap()
    );
    assert_eq!(
        Inst::Shfi(RRI { dest: T0, src: T1, immediate: t12_4096() }),
        inst("0001T0T0TT011T001T0T0111").unwrap()
    );
    assert_eq!(
        Inst::Addi(RRI { dest: T0, src: T1, immediate: t12_4096() }),
        inst("0001T0T0TT011T001T0T1TTT").unwrap()
    );
    assert_eq!(
        Inst::Lui(RI { dest: T0, immediate: t12_4096() }),
        inst("0001T0T0TT0100001T0T1TT0").unwrap()
    );
    assert_eq!(
        Inst::Lt(RRO { dest: T0, src: T1, offset: t12_4096() }),
        inst("0001T0T0TT011T001T0T1TT1").unwrap()
    );
    assert_eq!(
        Inst::Lh(RRO { dest: T0, src: T1, offset: t12_4096() }),
        inst("0001T0T0TT011T001T0T1T0T").unwrap()
    );
    assert_eq!(
        Inst::Lw(RRO { dest: T0, src: T1, offset: t12_4096() }),
        inst("0001T0T0TT011T001T0T1T00").unwrap()
    );
    assert_eq!(
        Inst::St(RRO { dest: T0, src: T1, offset: t12_4096() }),
        inst("0001T0T0TT011T001T0T1T01").unwrap()
    );
    assert_eq!(
        Inst::Sh(RRO { dest: T0, src: T1, offset: t12_4096() }),
        inst("0001T0T0TT011T001T0T1T1T").unwrap()
    );
    assert_eq!(
        Inst::Sw(RRO { dest: T0, src: T1, offset: t12_4096() }),
        inst("0001T0T0TT011T001T0T1T10").unwrap()
    );
    assert_eq!(
        Inst::BT(RO { src: T0, offset: t24_4096() }),
        inst("00000001T0T0TT011T0T1T11").unwrap()
    );
    assert_eq!(
        Inst::B0(RO { src: T0, offset: t24_4096() }),
        inst("00000001T0T0TT011T0T10TT").unwrap()
    );
    assert_eq!(
        Inst::B1(RO { src: T0, offset: t24_4096() }),
        inst("00000001T0T0TT011T0T10T0").unwrap()
    );
    assert_eq!(
        Inst::BT0(RO { src: T0, offset: t24_4096() }),
        inst("00000001T0T0TT011T0T10T1").unwrap()
    );
    assert_eq!(
        Inst::BT1(RO { src: T0, offset: t24_4096() }),
        inst("00000001T0T0TT011T0T100T").unwrap()
    );
    assert_eq!(
        Inst::B01(RO { src: T0, offset: t24_4096() }),
        inst("00000001T0T0TT011T0T1000").unwrap()
    );
    assert_eq!(
        Inst::Bal(O { offset: t24_4096() }),
        inst("00000001T0T0TT0100001001").unwrap()
    );
    assert_eq!(
        Inst::J(A { addr: t24_1073741824() }),
        inst("10T10T11110T1T0T0T01101T").unwrap()
    );
    assert_eq!(
        Inst::Jal(A { addr: t24_1073741824() }),
        inst("10T10T11110T1T0T0T011010").unwrap()
    );
    assert_eq!(
        Inst::Jr(R { src: T0 }),
        inst("00000000000000001T0T1011").unwrap()
    );
    assert_eq!(
        Inst::Jalr(R { src: T0 }),
        inst("00000000000000001T0T11TT").unwrap()
    );
    assert_eq!(
        Inst::Syscall(Empty),
        inst("0000000000000000000011T0").unwrap()
    );
    assert_eq!(
        Inst::Break(Empty),
        inst("0000000000000000000011T1").unwrap()
    );

    assert!(inst("00000000000000000000000T").is_err());
    assert!(inst("000000001T001T0TT1000000").is_err());
    assert!(inst("00000000000000000000110T").is_err());
}

/// Every word that decodes re-encodes to itself, and every encoding
/// decodes back to the instruction it came from.
#[test]
fn instruction_round_trip() {
    let words = [
        "000000000000000000000000",
        "000000001T011T001T0T0000",
        "000000001T011T001T0T01T0",
        "0000000000001T001T0T01T1",
        "0000000000001T001T0T010T",
        "0001T0T0TT011T001T0T0100",
        "0001T0T0TT011T001T0T1TTT",
        "0001T0T0TT0100001T0T1TT0",
        "0001T0T0TT011T001T0T1TT1",
        "0001T0T0TT011T001T0T1T00",
        "0001T0T0TT011T001T0T1T10",
        "00000001T0T0TT011T0T1T11",
        "00000001T0T0TT011T0T1000",
        "00000001T0T0TT0100001001",
        "10T10T11110T1T0T0T01101T",
        "10T10T11110T1T0T0T011010",
        "00000000000000001T0T1011",
        "00000000000000001T0T11TT",
        "0000000000000000000011T0",
        "0000000000000000000011T1",
    ];
    for s in words {
        let word = trits(s, 4);
        let decoded = Inst::from_word(&word).unwrap();
        let encoded = decoded.to_word();
        assert_eq!(word, encoded);
        assert_eq!(decoded, Inst::from_word(&encoded).unwrap());
    }
}
