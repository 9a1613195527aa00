use ternvm::hyte::{char_from_hyte, try_hyte_from_char};
use ternvm::trit::Trit;
use ternvm::ternary;
use ternvm::ternary::Error;
use ternvm::tryte::Tryte;

fn int_n(n: i64, trytes: usize) -> Vec<Tryte> {
    let mut v = ternary::zero_trytes(trytes);
    ternary::read_i64(&mut v, n).unwrap();
    v
}

/// Writing a host integer and reading it back is the identity across
/// widths, over the whole representable range.
#[test]
fn host_int_round_trip() {
    let cases: [(i64, usize); 12] = [
        (0, 1),
        (364, 1),
        (-364, 1),
        (265720, 2),
        (-265720, 2),
        (12345, 2),
        (141214768240, 4),
        (-141214768240, 4),
        (-98765432, 4),
        (75047317648499560, 6),
        (-75047317648499560, 6),
        (31, 3),
    ];
    for (n, width) in cases {
        assert_eq!(n, ternary::to_i64(&int_n(n, width)));
    }
}

/// Out-of-range host integers are rejected with the bounds error.
#[test]
fn host_int_out_of_bounds() {
    let mut v = ternary::zero_trytes(1);
    assert_eq!(
        Err(Error::IntegerOutOfBounds(-364, 364, 365)),
        ternary::read_i64(&mut v, 365)
    );
    assert_eq!(
        Err(Error::IntegerOutOfBounds(-364, 364, -365)),
        ternary::read_i64(&mut v, -365)
    );
}

/// Rendering as a trit string and parsing it back is the identity.
#[test]
fn trit_string_round_trip() {
    for n in [-364, -41, 0, 1, 242, 364, -265720, 265720] {
        let v = int_n(n, 2);
        let s = ternary::write_trits(&v);
        let mut back = ternary::zero_trytes(2);
        ternary::read_trits(&mut back, &s).unwrap();
        assert_eq!(v, back);
    }
}

/// Rendering as a hyte string and parsing it back is the identity.
#[test]
fn hyte_string_round_trip() {
    for n in [-364, -41, 0, 1, 242, 364, -265720, 265720] {
        let v = int_n(n, 2);
        let s = ternary::write_hytes(&v);
        let mut back = ternary::zero_trytes(2);
        ternary::read_hytes(&mut back, &s).unwrap();
        assert_eq!(v, back);
    }
}

/// Writing the byte image and reading it back is the identity.
#[test]
fn byte_round_trip() {
    for n in [-364, 0, 364, 100000, -141214768240, 141214768240] {
        let v = int_n(n, 4);
        let bytes = ternary::write_bytes(&v);
        let mut back = ternary::zero_trytes(4);
        ternary::read_bytes(&mut back, &bytes).unwrap();
        assert_eq!(v, back);
    }
}

/// A byte image with the reserved trit pattern is rejected.
#[test]
fn byte_image_rejects_reserved_pattern() {
    let mut v = ternary::zero_trytes(1);
    let bytes: Vec<u8> = vec![0b10, 0];
    assert_eq!(
        Err(Error::InvalidBitPattern(2)),
        ternary::read_bytes(&mut v, &bytes)
    );
    let long: Vec<u8> = vec![0, 0, 0];
    assert_eq!(
        Err(Error::InvalidDataLength(2, 3)),
        ternary::read_bytes(&mut v, &long)
    );
}

/// The hyte alphabet maps characters and packed hytes both ways.
#[test]
fn hyte_alphabet_round_trip() {
    let alphabet = [
        'm', 'l', 'k', 'j', 'i', 'h', 'g', 'f', 'e', 'd', 'c', 'b', 'a', '0', 'A', 'B', 'C',
        'D', 'E', 'F', 'G', 'H', 'I', 'J', 'K', 'L', 'M',
    ];
    for c in alphabet {
        let h = try_hyte_from_char(c).unwrap();
        assert_eq!(c, char_from_hyte(h));
    }
    assert_eq!(Err(Error::InvalidCharacter('N')), try_hyte_from_char('N'));
    assert_eq!('?', char_from_hyte(0b10));
}

/// The scalar comparison orders values like the integers they stand for.
#[test]
fn compare_orders_by_value() {
    let pairs: [(i64, i64, Trit); 5] = [
        (-5, 3, Trit::Neg),
        (3, -5, Trit::Pos),
        (7, 7, Trit::Zero),
        (-364, -363, Trit::Neg),
        (364, -364, Trit::Pos),
    ];
    for (a, b, expected) in pairs {
        assert_eq!(expected, ternary::compare(&int_n(a, 2), &int_n(b, 2)));
    }
}
