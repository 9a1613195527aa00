use ternvm::ternary;
use ternvm::text;

#[test]
fn text_encode_decode() {
    let mut trytes = ternary::zero_trytes(256);
    let s1 = "â¸˜I like to Ã©at ğŸ and ğŸŒ wheÃ± it is 100â„‰ oÃ¼tsideâ€½";

    let len1 = text::encode_str(&mut trytes, s1).expect("encoding error");
    let (s2, len2) = text::decode_str(&trytes).expect("decoding error");

    assert_eq!(len1, len2);
    assert_eq!(s1, &s2[..]);
}

#[test]
fn text_encode_decode_single_class() {
    let mut trytes = ternary::zero_trytes(16);
    let n = text::encode_char(&mut trytes, 'H').unwrap();
    assert_eq!(1, n);
    let (c, m) = text::decode_char(&trytes).unwrap();
    assert_eq!('H', c);
    assert_eq!(1, m);
}

#[test]
fn text_encode_decode_all_classes() {
    for c in ['\u{0}', 'z', '\u{f2}', '\u{f3}', '\u{4dd5}', '\u{1f355}', '\u{10ffff}'] {
        let mut trytes = ternary::zero_trytes(4);
        let n = text::encode_char(&mut trytes, c).unwrap();
        let (back, m) = text::decode_char(&trytes).unwrap();
        assert_eq!(c, back);
        assert_eq!(n, m);
    }
}

#[test]
fn text_decode_rejects_bad_continuation() {
    // a two-tryte start whose continuation lacks the -1 top trit
    let mut w = ternary::zero_trytes(4);
    ternary::read_trits(&mut w, "000000000000000000100000").unwrap();
    match text::decode_char(&w) {
        Err(ternvm::ternary::Error::InvalidEncoding(_)) => {}
        other => panic!("expected InvalidEncoding, got {:?}", other),
    }
}
