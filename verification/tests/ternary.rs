use ternvm::ternary;
use ternvm::trit::Trit;
use ternvm::tryte::Tryte;

fn trits(s: &str, n: usize) -> Vec<Tryte> {
    let mut v = ternary::zero_trytes(n);
    ternary::read_trits(&mut v, s).unwrap();
    v
}

fn hytes(s: &str, n: usize) -> Vec<Tryte> {
    let mut v = ternary::zero_trytes(n);
    ternary::read_hytes(&mut v, s).unwrap();
    v
}

fn int4(n: i64) -> Vec<Tryte> {
    let mut v = ternary::zero_trytes(4);
    ternary::read_i64(&mut v, n).unwrap();
    v
}

const WORD_MIN: i64 = -141214768240;
const WORD_MAX: i64 = 141214768240;

fn t4_min() -> Vec<Tryte> { trits("TTTTTTTTTTTTTTTTTTTTTTTT", 4) }
fn t4_neg1() -> Vec<Tryte> { trits("00000000000000000000000T", 4) }
fn t4_0() -> Vec<Tryte> { trits("000000000000000000000000", 4) }
fn t4_1() -> Vec<Tryte> { trits("000000000000000000000001", 4) }
fn t4_max() -> Vec<Tryte> { trits("111111111111111111111111", 4) }

#[test]
fn ternary_into_i64() {
    assert_eq!(WORD_MIN, ternary::to_i64(&t4_min()));
    assert_eq!(-1i64, ternary::to_i64(&t4_neg1()));
    assert_eq!(0i64, ternary::to_i64(&t4_0()));
    assert_eq!(1i64, ternary::to_i64(&t4_1()));
    assert_eq!(WORD_MAX, ternary::to_i64(&t4_max()));
}

#[test]
fn ternary_read_i64() {
    assert_eq!(t4_min(), int4(WORD_MIN));
    assert_eq!(t4_neg1(), int4(-1));
    assert_eq!(t4_0(), int4(0));
    assert_eq!(t4_1(), int4(1));
    assert_eq!(t4_max(), int4(WORD_MAX));

    let mut v = ternary::zero_trytes(4);
    assert!(ternary::read_i64(&mut v, i64::MIN + 1).is_err());
    assert!(ternary::read_i64(&mut v, i64::MAX).is_err());
}

#[test]
fn ternary_read_bytes() {
    for w in [t4_min(), t4_neg1(), t4_0(), t4_1(), t4_max()] {
        let bytes = ternary::write_bytes(&w);
        let mut v = ternary::zero_trytes(4);
        ternary::read_bytes(&mut v, &bytes).unwrap();
        assert_eq!(w, v);
    }
}

#[test]
fn ternary_write_bytes() {
    assert_eq!(
        vec![0b11_11_11_11, 0b00_00_11_11, 0b11_11_11_11, 0b00_00_11_11, 0b11_11_11_11,
             0b00_00_11_11, 0b11_11_11_11, 0b00_00_11_11],
        ternary::write_bytes(&t4_min())
    );
    assert_eq!(
        vec![0b00_00_00_11, 0, 0, 0, 0, 0, 0, 0],
        ternary::write_bytes(&t4_neg1())
    );
    assert_eq!(vec![0u8; 8], ternary::write_bytes(&t4_0()));
    assert_eq!(
        vec![0b00_00_00_01, 0, 0, 0, 0, 0, 0, 0],
        ternary::write_bytes(&t4_1())
    );
    assert_eq!(
        vec![0b01_01_01_01, 0b00_00_01_01, 0b01_01_01_01, 0b00_00_01_01, 0b01_01_01_01,
             0b00_00_01_01, 0b01_01_01_01, 0b00_00_01_01],
        ternary::write_bytes(&t4_max())
    );
}

#[test]
fn ternary_read_hytes() {
    assert_eq!(t4_min(), hytes("mmmmmmmm", 4));
    assert_eq!(t4_neg1(), hytes("0000000a", 4));
    assert_eq!(t4_0(), hytes("00000000", 4));
    assert_eq!(t4_1(), hytes("0000000A", 4));
    assert_eq!(t4_max(), hytes("MMMMMMMM", 4));
}

fn check_ternary_display_hytes() {
    assert_eq!("mmmmmmmm", ternary::write_hytes(&t4_min()));
    assert_eq!("0000000a", ternary::write_hytes(&t4_neg1()));
    assert_eq!("00000000", ternary::write_hytes(&t4_0()));
    assert_eq!("0000000A", ternary::write_hytes(&t4_1()));
    assert_eq!("MMMMMMMM", ternary::write_hytes(&t4_max()));
}

#[test]
fn ternary_read_trits() {
    assert_eq!(hytes("mmmmmmmm", 4), trits("TTTTTTTTTTTTTTTTTTTTTTTT", 4));
    assert_eq!(int4(-1), trits("00000000000000000000000T", 4));
    assert_eq!(int4(0), trits("000000000000000000000000", 4));
    assert_eq!(int4(1), trits("000000000000000000000001", 4));
    assert_eq!(hytes("MMMMMMMM", 4), trits("111111111111111111111111", 4));
}

#[test]
fn ternary_display_trits() {
    assert_eq!("TTTTTTTTTTTTTTTTTTTTTTTT", ternary::write_trits(&t4_min()));
    assert_eq!("00000000000000000000000T", ternary::write_trits(&t4_neg1()));
    assert_eq!("000000000000000000000000", ternary::write_trits(&t4_0()));
    assert_eq!("000000000000000000000001", ternary::write_trits(&t4_1()));
    assert_eq!("111111111111111111111111", ternary::write_trits(&t4_max()));
}

#[test]
fn ternary_cmp() {
    assert_eq!(Trit::Zero, ternary::compare(&t4_0(), &t4_0()));
    assert_eq!(Trit::Neg, ternary::compare(&t4_0(), &t4_max()));
    assert_eq!(Trit::Pos, ternary::compare(&t4_0(), &t4_min()));
    assert_eq!(Trit::Pos, ternary::compare(&t4_max(), &t4_0()));
    assert_eq!(Trit::Pos, ternary::compare(&t4_max(), &t4_min()));
    assert_eq!(Trit::Zero, ternary::compare(&t4_max(), &t4_max()));
    assert_eq!(Trit::Neg, ternary::compare(&t4_min(), &t4_0()));
    assert_eq!(Trit::Neg, ternary::compare(&t4_min(), &t4_max()));
    assert_eq!(Trit::Zero, ternary::compare(&t4_min(), &t4_min()));
}

fn negated(src: &Vec<Tryte>) -> Vec<Tryte> {
    let mut dest = ternary::zero_trytes(src.len());
    ternary::negate(&mut dest, src);
    dest
}

#[test]
fn ternary_negate() {
    assert_eq!(t4_min(), negated(&t4_max()));
    assert_eq!(t4_neg1(), negated(&t4_1()));
    assert_eq!(t4_0(), negated(&t4_0()));
    assert_eq!(t4_1(), negated(&t4_neg1()));
    assert_eq!(t4_max(), negated(&t4_min()));
}

fn anded(a: &Vec<Tryte>, b: &Vec<Tryte>) -> Vec<Tryte> {
    let mut dest = ternary::zero_trytes(a.len());
    ternary::and(&mut dest, a, b);
    dest
}

#[test]
fn ternary_and() {
    assert_eq!(t4_0(), anded(&t4_0(), &t4_0()));
    assert_eq!(t4_0(), anded(&t4_0(), &t4_max()));
    assert_eq!(t4_min(), anded(&t4_0(), &t4_min()));
    assert_eq!(t4_0(), anded(&t4_max(), &t4_0()));
    assert_eq!(t4_max(), anded(&t4_max(), &t4_max()));
    assert_eq!(t4_min(), anded(&t4_max(), &t4_min()));
    assert_eq!(t4_min(), anded(&t4_min(), &t4_0()));
    assert_eq!(t4_min(), anded(&t4_min(), &t4_max()));
    assert_eq!(t4_min(), anded(&t4_min(), &t4_min()));
}

fn ored(a: &Vec<Tryte>, b: &Vec<Tryte>) -> Vec<Tryte> {
    let mut dest = ternary::zero_trytes(a.len());
    ternary::or(&mut dest, a, b);
    dest
}

#[test]
fn ternary_or() {
    assert_eq!(t4_0(), ored(&t4_0(), &t4_0()));
    assert_eq!(t4_max(), ored(&t4_0(), &t4_max()));
    assert_eq!(t4_0(), ored(&t4_0(), &t4_min()));
    assert_eq!(t4_max(), ored(&t4_max(), &t4_0()));
    assert_eq!(t4_max(), ored(&t4_max(), &t4_max()));
    assert_eq!(t4_max(), ored(&t4_max(), &t4_min()));
    assert_eq!(t4_0(), ored(&t4_min(), &t4_0()));
    assert_eq!(t4_max(), ored(&t4_min(), &t4_max()));
    assert_eq!(t4_min(), ored(&t4_min(), &t4_min()));
}

fn tcmped(a: &Vec<Tryte>, b: &Vec<Tryte>) -> Vec<Tryte> {
    let mut dest = ternary::zero_trytes(a.len());
    ternary::tcmp(&mut dest, a, b);
    dest
}

fn check_ternary_tcmp() {
    assert_eq!(t4_min(), tcmped(&t4_min(), &t4_0()));
    assert_eq!(t4_max(), tcmped(&t4_max(), &t4_0()));
    assert_eq!(t4_neg1(), tcmped(&t4_neg1(), &t4_0()));
    assert_eq!(t4_0(), tcmped(&t4_0(), &t4_0()));
    assert_eq!(t4_1(), tcmped(&t4_1(), &t4_0()));

    assert_eq!(t4_max(), tcmped(&t4_0(), &t4_min()));
    assert_eq!(t4_min(), tcmped(&t4_0(), &t4_max()));
    assert_eq!(t4_1(), tcmped(&t4_0(), &t4_neg1()));
    assert_eq!(t4_neg1(), tcmped(&t4_0(), &t4_1()));

    assert_eq!(t4_0(), tcmped(&t4_min(), &t4_min()));
    assert_eq!(t4_0(), tcmped(&t4_max(), &t4_max()));
    assert_eq!(t4_0(), tcmped(&t4_neg1(), &t4_neg1()));
    assert_eq!(t4_0(), tcmped(&t4_1(), &t4_1()));
}

fn tmuled(a: &Vec<Tryte>, b: &Vec<Tryte>) -> Vec<Tryte> {
    let mut dest = ternary::zero_trytes(a.len());
    ternary::tmul(&mut dest, a, b);
    dest
}

#[test]
fn ternary_tmul() {
    assert_eq!(t4_0(), tmuled(&t4_min(), &t4_0()));
    assert_eq!(t4_0(), tmuled(&t4_max(), &t4_0()));
    assert_eq!(t4_0(), tmuled(&t4_neg1(), &t4_0()));
    assert_eq!(t4_0(), tmuled(&t4_0(), &t4_0()));
    assert_eq!(t4_0(), tmuled(&t4_1(), &t4_0()));

    assert_eq!(t4_min(), tmuled(&t4_min(), &t4_max()));
    assert_eq!(t4_max(), tmuled(&t4_max(), &t4_max()));
    assert_eq!(t4_neg1(), tmuled(&t4_neg1(), &t4_max()));
    assert_eq!(t4_0(), tmuled(&t4_0(), &t4_max()));
    assert_eq!(t4_1(), tmuled(&t4_1(), &t4_max()));

    assert_eq!(t4_max(), tmuled(&t4_min(), &t4_min()));
    assert_eq!(t4_min(), tmuled(&t4_max(), &t4_min()));
    assert_eq!(t4_1(), tmuled(&t4_neg1(), &t4_min()));
    assert_eq!(t4_0(), tmuled(&t4_0(), &t4_min()));
    assert_eq!(t4_neg1(), tmuled(&t4_1(), &t4_min()));
}

#[test]
fn ternary_add() {
    let mut dest = ternary::zero_trytes(4);
    let carry = ternary::add(&mut dest, &int4(20000), &int4(22000), Trit::Zero);
    assert_eq!(int4(42000), dest);
    assert_eq!(Trit::Zero, carry);

    let mut dest = ternary::zero_trytes(4);
    let carry = ternary::add(&mut dest, &int4(-5), &int4(3), Trit::Zero);
    assert_eq!(int4(-2), dest);
    assert_eq!(Trit::Zero, carry);

    let mut dest = ternary::zero_trytes(4);
    let carry = ternary::add(&mut dest, &int4(WORD_MAX), &int4(1), Trit::Zero);
    assert_eq!(Trit::Pos, carry);
    assert_eq!(int4(-WORD_MAX), dest);
}

fn int2(n: i64) -> Vec<Tryte> {
    let mut v = ternary::zero_trytes(2);
    ternary::read_i64(&mut v, n).unwrap();
    v
}

fn mulled(a: &Vec<Tryte>, b: &Vec<Tryte>) -> Vec<Tryte> {
    let mut dest = ternary::zero_trytes(a.len() + b.len());
    ternary::multiply(&mut dest, a, b);
    dest
}

#[test]
fn ternary_multiply() {
    assert_eq!(int4(0), mulled(&int2(-4096), &int2(0)));
    assert_eq!(int4(0), mulled(&int2(-1), &int2(0)));
    assert_eq!(int4(0), mulled(&int2(0), &int2(0)));
    assert_eq!(int4(0), mulled(&int2(1), &int2(0)));
    assert_eq!(int4(0), mulled(&int2(4096), &int2(0)));

    assert_eq!(int4(0), mulled(&int2(0), &int2(-4096)));
    assert_eq!(int4(0), mulled(&int2(0), &int2(-1)));
    assert_eq!(int4(0), mulled(&int2(0), &int2(1)));
    assert_eq!(int4(0), mulled(&int2(0), &int2(4096)));

    assert_eq!(int4(-4096), mulled(&int2(-4096), &int2(1)));
    assert_eq!(int4(-1), mulled(&int2(-1), &int2(1)));
    assert_eq!(int4(1), mulled(&int2(1), &int2(1)));
    assert_eq!(int4(4096), mulled(&int2(4096), &int2(1)));

    assert_eq!(int4(-4096), mulled(&int2(1), &int2(-4096)));
    assert_eq!(int4(-1), mulled(&int2(1), &int2(-1)));
    assert_eq!(int4(4096), mulled(&int2(1), &int2(4096)));

    assert_eq!(int4(4096), mulled(&int2(-4096), &int2(-1)));
    assert_eq!(int4(1), mulled(&int2(-1), &int2(-1)));
    assert_eq!(int4(-4096), mulled(&int2(4096), &int2(-1)));

    assert_eq!(int4(4096), mulled(&int2(-1), &int2(-4096)));
    assert_eq!(int4(-4096), mulled(&int2(-1), &int2(4096)));

    assert_eq!(int4(64), mulled(&int2(8), &int2(8)));
    assert_eq!(int4(64), mulled(&int2(-8), &int2(-8)));
    assert_eq!(int4(-64), mulled(&int2(8), &int2(-8)));
    assert_eq!(int4(-64), mulled(&int2(-8), &int2(8)));

    assert_eq!(int4(81), mulled(&int2(9), &int2(9)));
    assert_eq!(int4(81), mulled(&int2(-9), &int2(-9)));
    assert_eq!(int4(-81), mulled(&int2(9), &int2(-9)));
    assert_eq!(int4(-81), mulled(&int2(-9), &int2(9)));

    assert_eq!(int4(4096), mulled(&int2(8), &int2(512)));
    assert_eq!(int4(4096), mulled(&int2(-8), &int2(-512)));
    assert_eq!(int4(-4096), mulled(&int2(8), &int2(-512)));
    assert_eq!(int4(-4096), mulled(&int2(-8), &int2(512)));

    assert_eq!(int4(4096), mulled(&int2(512), &int2(8)));
    assert_eq!(int4(4096), mulled(&int2(-512), &int2(-8)));
    assert_eq!(int4(-4096), mulled(&int2(512), &int2(-8)));
    assert_eq!(int4(-4096), mulled(&int2(-512), &int2(8)));

    assert_eq!(int4(4096), mulled(&int2(16), &int2(256)));
    assert_eq!(int4(4096), mulled(&int2(-16), &int2(-256)));
    assert_eq!(int4(-4096), mulled(&int2(16), &int2(-256)));
    assert_eq!(int4(-4096), mulled(&int2(-16), &int2(256)));

    assert_eq!(int4(4096), mulled(&int2(256), &int2(16)));
    assert_eq!(int4(4096), mulled(&int2(-256), &int2(-16)));
    assert_eq!(int4(-4096), mulled(&int2(256), &int2(-16)));
    assert_eq!(int4(-4096), mulled(&int2(-256), &int2(16)));

    assert_eq!(int4(4096), mulled(&int2(64), &int2(64)));
    assert_eq!(int4(4096), mulled(&int2(-64), &int2(-64)));
    assert_eq!(int4(-4096), mulled(&int2(64), &int2(-64)));
    assert_eq!(int4(-4096), mulled(&int2(-64), &int2(64)));
}

fn shifted(src_trits: &str, offset: i64) -> Vec<Tryte> {
    let src = trits(src_trits, 4);
    let mut dest = ternary::zero_trytes(12);
    ternary::shift(&mut dest, &src, offset);
    dest
}

#[test]
fn ternary_shift() {
    assert_eq!(trits("00000000000000000000000000000000000000000000000001T000110T001100T011000T", 12), shifted("1T000110T001100T011000T1", -25));
    assert_eq!(trits("0000000000000000000000000000000000000000000000001T000110T001100T011000T1", 12), shifted("1T000110T001100T011000T1", -24));
    assert_eq!(trits("000000000000000000000000000000000000000000000001T000110T001100T011000T10", 12), shifted("1T000110T001100T011000T1", -23));
    assert_eq!(trits("00000000000000000000000000000000000000000000001T000110T001100T011000T100", 12), shifted("1T000110T001100T011000T1", -22));
    assert_eq!(trits("0000000000000000000000000000000000000000000001T000110T001100T011000T1000", 12), shifted("1T000110T001100T011000T1", -21));
    assert_eq!(trits("000000000000000000000000000000000000000000001T000110T001100T011000T10000", 12), shifted("1T000110T001100T011000T1", -20));
    assert_eq!(trits("00000000000000000000000000000000000000000001T000110T001100T011000T100000", 12), shifted("1T000110T001100T011000T1", -19));
    assert_eq!(trits("0000000000000000000000000000000000000000001T000110T001100T011000T1000000", 12), shifted("1T000110T001100T011000T1", -18));
    assert_eq!(trits("000000000000000000000000000000000000000001T000110T001100T011000T10000000", 12), shifted("1T000110T001100T011000T1", -17));
    assert_eq!(trits("00000000000000000000000000000000000000001T000110T001100T011000T100000000", 12), shifted("1T000110T001100T011000T1", -16));
    assert_eq!(trits("0000000000000000000000000000000000000001T000110T001100T011000T1000000000", 12), shifted("1T000110T001100T011000T1", -15));
    assert_eq!(trits("000000000000000000000000000000000000001T000110T001100T011000T10000000000", 12), shifted("1T000110T001100T011000T1", -14));
    assert_eq!(trits("00000000000000000000000000000000000001T000110T001100T011000T100000000000", 12), shifted("1T000110T001100T011000T1", -13));
    assert_eq!(trits("0000000000000000000000000000000000001T000110T001100T011000T1000000000000", 12), shifted("1T000110T001100T011000T1", -12));
    assert_eq!(trits("000000000000000000000000000000000001T000110T001100T011000T10000000000000", 12), shifted("1T000110T001100T011000T1", -11));
    assert_eq!(trits("00000000000000000000000000000000001T000110T001100T011000T100000000000000", 12), shifted("1T000110T001100T011000T1", -10));
    assert_eq!(trits("0000000000000000000000000000000001T000110T001100T011000T1000000000000000", 12), shifted("1T000110T001100T011000T1", -9));
    assert_eq!(trits("000000000000000000000000000000001T000110T001100T011000T10000000000000000", 12), shifted("1T000110T001100T011000T1", -8));
    assert_eq!(trits("00000000000000000000000000000001T000110T001100T011000T100000000000000000", 12), shifted("1T000110T001100T011000T1", -7));
    assert_eq!(trits("0000000000000000000000000000001T000110T001100T011000T1000000000000000000", 12), shifted("1T000110T001100T011000T1", -6));
    assert_eq!(trits("000000000000000000000000000001T000110T001100T011000T10000000000000000000", 12), shifted("1T000110T001100T011000T1", -5));
    assert_eq!(trits("00000000000000000000000000001T000110T001100T011000T100000000000000000000", 12), shifted("1T000110T001100T011000T1", -4));
    assert_eq!(trits("0000000000000000000000000001T000110T001100T011000T1000000000000000000000", 12), shifted("1T000110T001100T011000T1", -3));
    assert_eq!(trits("000000000000000000000000001T000110T001100T011000T10000000000000000000000", 12), shifted("1T000110T001100T011000T1", -2));
    assert_eq!(trits("00000000000000000000000001T000110T001100T011000T100000000000000000000000", 12), shifted("1T000110T001100T011000T1", -1));
    assert_eq!(trits("0000000000000000000000001T000110T001100T011000T1000000000000000000000000", 12), shifted("1T000110T001100T011000T1", 0));
    assert_eq!(trits("000000000000000000000001T000110T001100T011000T10000000000000000000000000", 12), shifted("1T000110T001100T011000T1", 1));
    assert_eq!(trits("00000000000000000000001T000110T001100T011000T100000000000000000000000000", 12), shifted("1T000110T001100T011000T1", 2));
    assert_eq!(trits("0000000000000000000001T000110T001100T011000T1000000000000000000000000000", 12), shifted("1T000110T001100T011000T1", 3));
    assert_eq!(trits("000000000000000000001T000110T001100T011000T10000000000000000000000000000", 12), shifted("1T000110T001100T011000T1", 4));
    assert_eq!(trits("00000000000000000001T000110T001100T011000T100000000000000000000000000000", 12), shifted("1T000110T001100T011000T1", 5));
    assert_eq!(trits("0000000000000000001T000110T001100T011000T1000000000000000000000000000000", 12), shifted("1T000110T001100T011000T1", 6));
    assert_eq!(trits("000000000000000001T000110T001100T011000T10000000000000000000000000000000", 12), shifted("1T000110T001100T011000T1", 7));
    assert_eq!(trits("00000000000000001T000110T001100T011000T100000000000000000000000000000000", 12), shifted("1T000110T001100T011000T1", 8));
    assert_eq!(trits("0000000000000001T000110T001100T011000T1000000000000000000000000000000000", 12), shifted("1T000110T001100T011000T1", 9));
    assert_eq!(trits("000000000000001T000110T001100T011000T10000000000000000000000000000000000", 12), shifted("1T000110T001100T011000T1", 10));
    assert_eq!(trits("00000000000001T000110T001100T011000T100000000000000000000000000000000000", 12), shifted("1T000110T001100T011000T1", 11));
    assert_eq!(trits("0000000000001T000110T001100T011000T1000000000000000000000000000000000000", 12), shifted("1T000110T001100T011000T1", 12));
    assert_eq!(trits("000000000001T000110T001100T011000T10000000000000000000000000000000000000", 12), shifted("1T000110T001100T011000T1", 13));
    assert_eq!(trits("00000000001T000110T001100T011000T100000000000000000000000000000000000000", 12), shifted("1T000110T001100T011000T1", 14));
    assert_eq!(trits("0000000001T000110T001100T011000T1000000000000000000000000000000000000000", 12), shifted("1T000110T001100T011000T1", 15));
    assert_eq!(trits("000000001T000110T001100T011000T10000000000000000000000000000000000000000", 12), shifted("1T000110T001100T011000T1", 16));
    assert_eq!(trits("00000001T000110T001100T011000T100000000000000000000000000000000000000000", 12), shifted("1T000110T001100T011000T1", 17));
    assert_eq!(trits("0000001T000110T001100T011000T1000000000000000000000000000000000000000000", 12), shifted("1T000110T001100T011000T1", 18));
    assert_eq!(trits("000001T000110T001100T011000T10000000000000000000000000000000000000000000", 12), shifted("1T000110T001100T011000T1", 19));
    assert_eq!(trits("00001T000110T001100T011000T100000000000000000000000000000000000000000000", 12), shifted("1T000110T001100T011000T1", 20));
    assert_eq!(trits("0001T000110T001100T011000T1000000000000000000000000000000000000000000000", 12), shifted("1T000110T001100T011000T1", 21));
    assert_eq!(trits("001T000110T001100T011000T10000000000000000000000000000000000000000000000", 12), shifted("1T000110T001100T011000T1", 22));
    assert_eq!(trits("01T000110T001100T011000T100000000000000000000000000000000000000000000000", 12), shifted("1T000110T001100T011000T1", 23));
    assert_eq!(trits("1T000110T001100T011000T1000000000000000000000000000000000000000000000000", 12), shifted("1T000110T001100T011000T1", 24));
    assert_eq!(trits("T000110T001100T011000T10000000000000000000000000000000000000000000000000", 12), shifted("1T000110T001100T011000T1", 25));
}

#[test]
fn ternary_display_hytes() {
    check_ternary_display_hytes();
}

#[test]
fn ternary_ternary_display_hytes() {
    check_ternary_display_hytes();
}

#[test]
fn ternary_tcmp() {
    check_ternary_tcmp();
}

#[test]
fn ternary_ternary_tcmp() {
    check_ternary_tcmp();
}
