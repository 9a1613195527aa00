//! Variable-length text codec: a Unicode scalar becomes one, two or three
//! trytes, in the style of a byte-oriented variable-length encoding.
//!
//! The first tryte's top trits name the length class. A one-tryte
//! character has top trit 0; a two-tryte character starts with top trits
//! (+1, 0); a three-tryte character with (+1, +1). Every continuation
//! tryte has top trit -1. The remaining trits carry the code point as a
//! signed value, offset by the midpoint of the class's code-point range.

use vstd::prelude::*;

verus! {

use crate::strutil::push_char;
use crate::ternary::{
    get_trit,
    lemma_high_trits_zero,
    lemma_tryte_zero_trits,
    lemma_word_tryte_values,
    lemma_pow3_words,
    read_i64,
    to_i64,
    trit_of,
    value_of,
    write_trits,
    zero_trytes,
    Error,
};
use crate::trit::Trit;
use crate::tryte::Tryte;
use vstd::arithmetic::power::{lemma_pow_adds, pow};

/// Highest code point of the one-tryte class.
pub const SINGLE_MAX: u32 = 242;

/// Highest code point of the two-tryte class.
pub const DOUBLE_MAX: u32 = 19925;

/// Highest code point of the three-tryte class.
pub const TRIPLE_MAX: u32 = 1614248;

/// Midpoint of the one-tryte code-point range 0..=242.
pub const SINGLE_OFFSET: i64 = 121;

/// Midpoint of the two-tryte code-point range 243..=19925.
pub const DOUBLE_OFFSET: i64 = 10084;

/// Midpoint of the three-tryte code-point range 19926..=1614248.
pub const TRIPLE_OFFSET: i64 = 817087;

/// The number of trytes that encode the given character.
pub open spec fn spec_char_len(c: char) -> int {
    if c as u32 <= 242 {
        1
    } else if c as u32 <= 19925 {
        2
    } else {
        3
    }
}

/// The value of the low three trits of a tryte.
pub open spec fn low3_value(t: Tryte) -> int {
    t.t0.val() + 3 * t.t1.val() + 9 * t.t2.val()
}

/// The value of the low four trits of a tryte.
pub open spec fn low4_value(t: Tryte) -> int {
    low3_value(t) + 27 * t.t3.val()
}

/// The value of the low five trits of a tryte.
pub open spec fn low5_value(t: Tryte) -> int {
    low4_value(t) + 81 * t.t4.val()
}

/// The payload of a one-tryte character: the whole start tryte.
pub open spec fn payload1(d0: Tryte) -> int {
    d0.value()
}

/// The payload of a two-tryte character: four trits of the start tryte and
/// five of the continuation.
pub open spec fn payload2(d0: Tryte, d1: Tryte) -> int {
    low4_value(d0) + 81 * low5_value(d1)
}

/// The payload of a three-tryte character: three trits of the start tryte
/// and five of each continuation.
pub open spec fn payload3(d0: Tryte, d1: Tryte, d2: Tryte) -> int {
    low3_value(d0) + 27 * low5_value(d1) + 6561 * low5_value(d2)
}

/// The trit string of a tryte sequence, most significant trit first.
pub open spec fn spec_trit_string(s: Seq<Tryte>) -> Seq<char> {
    Seq::new((6 * s.len()) as nat, |j: int| trit_of(s, 6 * s.len() - 1 - j).spec_char())
}

/// The error reported for a malformed encoding: carries the offending
/// trytes written as a trit string.
pub fn invalid_encoding_from_trytes(src: &Vec<Tryte>) -> (r: Error)
    requires
        src@.len() <= 0x100_0000,
    ensures
        r matches Error::InvalidEncoding(msg) && msg@ == spec_trit_string(src@),
{
    let s = write_trits(src);
    proof {
        assert(s@ =~= spec_trit_string(src@));
    }
    Error::InvalidEncoding(s)
}

/// Pack a small word value into a single start tryte: the whole payload
/// with a zero top trit.
#[verifier::rlimit(100)]
#[verifier::spinoff_prover]
fn pack_single(tmp: &Vec<Tryte>) -> (d0: Tryte)
    requires
        tmp@.len() == 4,
        -121 <= value_of(tmp@) <= 121,
    ensures
        d0.t5 == Trit::Zero,
        payload1(d0) == value_of(tmp@),
{
    let d0 = Tryte {
        t0: get_trit(tmp, 0),
        t1: get_trit(tmp, 1),
        t2: get_trit(tmp, 2),
        t3: get_trit(tmp, 3),
        t4: get_trit(tmp, 4),
        t5: Trit::Zero,
    };
    proof {
        assert(pow(3, 5) == 243) by {
            reveal_with_fuel(pow, 7);
        }
        lemma_high_trits_zero(tmp@, 5);
        lemma_word_tryte_values(tmp@);
        lemma_tryte_zero_trits(tmp@, 1);
        lemma_tryte_zero_trits(tmp@, 2);
        lemma_tryte_zero_trits(tmp@, 3);
        assert(d0 == tmp@[0]);
    }
    d0
}

/// Pack a word value into a two-tryte character: a start tryte with top
/// trits (+1, 0) and one continuation with top trit -1.
#[verifier::rlimit(100)]
#[verifier::spinoff_prover]
fn pack_double(tmp: &Vec<Tryte>) -> (r: (Tryte, Tryte))
    requires
        tmp@.len() == 4,
        -9841 <= value_of(tmp@) <= 9841,
    ensures
        r.0.t5 == Trit::Pos,
        r.0.t4 == Trit::Zero,
        r.1.t5 == Trit::Neg,
        payload2(r.0, r.1) == value_of(tmp@),
{
    let d0 = Tryte {
        t0: get_trit(tmp, 0),
        t1: get_trit(tmp, 1),
        t2: get_trit(tmp, 2),
        t3: get_trit(tmp, 3),
        t4: Trit::Zero,
        t5: Trit::Pos,
    };
    let d1 = Tryte {
        t0: get_trit(tmp, 4),
        t1: get_trit(tmp, 5),
        t2: get_trit(tmp, 6),
        t3: get_trit(tmp, 7),
        t4: get_trit(tmp, 8),
        t5: Trit::Neg,
    };
    proof {
        assert(pow(3, 9) == 19683) by {
            reveal_with_fuel(pow, 10);
        }
        lemma_high_trits_zero(tmp@, 9);
        lemma_word_tryte_values(tmp@);
        lemma_tryte_zero_trits(tmp@, 2);
        lemma_tryte_zero_trits(tmp@, 3);
        let w0 = tmp@[0];
        let w1 = tmp@[1];
        assert(w1.trit(3) == Trit::Zero && w1.trit(4) == Trit::Zero && w1.trit(5) == Trit::Zero);
        assert(payload2(d0, d1) == w0.value() + 729 * w1.value());
    }
    (d0, d1)
}

/// Pack a word value into a three-tryte character: a start tryte with top
/// trits (+1, +1) and two continuations with top trit -1.
#[verifier::rlimit(100)]
#[verifier::spinoff_prover]
fn pack_triple(tmp: &Vec<Tryte>) -> (r: (Tryte, Tryte, Tryte))
    requires
        tmp@.len() == 4,
        -797161 <= value_of(tmp@) <= 797161,
    ensures
        r.0.t5 == Trit::Pos,
        r.0.t4 == Trit::Pos,
        r.0.t3 == Trit::Zero,
        r.1.t5 == Trit::Neg,
        r.2.t5 == Trit::Neg,
        payload3(r.0, r.1, r.2) == value_of(tmp@),
{
    let d0 = Tryte {
        t0: get_trit(tmp, 0),
        t1: get_trit(tmp, 1),
        t2: get_trit(tmp, 2),
        t3: Trit::Zero,
        t4: Trit::Pos,
        t5: Trit::Pos,
    };
    let d1 = Tryte {
        t0: get_trit(tmp, 3),
        t1: get_trit(tmp, 4),
        t2: get_trit(tmp, 5),
        t3: get_trit(tmp, 6),
        t4: get_trit(tmp, 7),
        t5: Trit::Neg,
    };
    let d2 = Tryte {
        t0: get_trit(tmp, 8),
        t1: get_trit(tmp, 9),
        t2: get_trit(tmp, 10),
        t3: get_trit(tmp, 11),
        t4: get_trit(tmp, 12),
        t5: Trit::Neg,
    };
    proof {
        assert(pow(3, 13) == 1594323) by {
            lemma_pow3_words();
            lemma_pow_adds(3, 1, 12);
            reveal_with_fuel(pow, 2);
        }
        lemma_high_trits_zero(tmp@, 13);
        lemma_word_tryte_values(tmp@);
        lemma_tryte_zero_trits(tmp@, 3);
        let w0 = tmp@[0];
        let w1 = tmp@[1];
        let w2 = tmp@[2];
        assert(w2.trit(1) == Trit::Zero && w2.trit(2) == Trit::Zero && w2.trit(3) == Trit::Zero
            && w2.trit(4) == Trit::Zero && w2.trit(5) == Trit::Zero);
        assert(payload3(d0, d1, d2) == w0.value() + 729 * w1.value() + 531441 * w2.value());
    }
    (d0, d1, d2)
}

/// Encode one character into the first one to three trytes of `dest`.
/// Trytes beyond the encoding are untouched. Every Unicode scalar value
/// is encodable, so the result is always the encoded length.
pub fn encode_char(dest: &mut Vec<Tryte>, c: char) -> (r: Result<usize, Error>)
    requires
        old(dest)@.len() >= 3,
        old(dest)@.len() <= 0x100_0000,
    ensures
        final(dest)@.len() == old(dest)@.len(),
        r is Ok,
        match r {
            Ok(n) => {
                &&& n == spec_char_len(c)
                &&& forall|k: int| n <= k < old(dest)@.len() ==> final(dest)@[k] == old(dest)@[k]
                &&& (n == 1 ==> payload1(final(dest)@[0]) == c as u32 - 121
                    && final(dest)@[0].t5 == Trit::Zero)
                &&& (n == 2 ==> payload2(final(dest)@[0], final(dest)@[1]) == c as u32 - 10084
                    && final(dest)@[0].t5 == Trit::Pos && final(dest)@[0].t4 == Trit::Zero
                    && final(dest)@[1].t5 == Trit::Neg)
                &&& (n == 3 ==> payload3(final(dest)@[0], final(dest)@[1], final(dest)@[2]) == c
                    as u32 - 817087 && final(dest)@[0].t5 == Trit::Pos && final(dest)@[0].t4
                    == Trit::Pos && final(dest)@[0].t3 == Trit::Zero && final(dest)@[1].t5
                    == Trit::Neg && final(dest)@[2].t5 == Trit::Neg)
            },
            Err(e) => false,
        },
{
    proof {
        vstd::utf8::char_is_scalar(c);
    }
    let cp: u32 = c as u32;
    let offset: i64 = if cp <= SINGLE_MAX {
        SINGLE_OFFSET
    } else if cp <= DOUBLE_MAX {
        DOUBLE_OFFSET
    } else {
        TRIPLE_OFFSET
    };
    let shifted: i64 = cp as i64 - offset;
    let mut tmp = zero_trytes(4);
    proof {
        lemma_pow3_words();
    }
    let filled = read_i64(&mut tmp, shifted);
    match filled {
        Ok(u) => {},
        Err(u) => {
            proof {
                assert(false);
            }
        },
    }
    if cp <= SINGLE_MAX {
        let d0 = pack_single(&tmp);
        dest.set(0, d0);
        Ok(1)
    } else if cp <= DOUBLE_MAX {
        let (d0, d1) = pack_double(&tmp);
        dest.set(0, d0);
        dest.set(1, d1);
        Ok(2)
    } else {
        let (d0, d1, d2) = pack_triple(&tmp);
        dest.set(0, d0);
        dest.set(1, d1);
        dest.set(2, d2);
        Ok(3)
    }
}

/// The low three trits of a tryte, as a host integer.
fn low3_of(t: Tryte) -> (v: i64)
    ensures
        v == low3_value(t),
        -13 <= v <= 13,
{
    t.t0.to_i16() as i64 + 3 * t.t1.to_i16() as i64 + 9 * t.t2.to_i16() as i64
}

/// The low four trits of a tryte, as a host integer.
fn low4_of(t: Tryte) -> (v: i64)
    ensures
        v == low4_value(t),
        -40 <= v <= 40,
{
    low3_of(t) + 27 * t.t3.to_i16() as i64
}

/// The low five trits of a tryte, as a host integer.
fn low5_of(t: Tryte) -> (v: i64)
    ensures
        v == low5_value(t),
        -121 <= v <= 121,
{
    low4_of(t) + 81 * t.t4.to_i16() as i64
}

/// The payload of a one-tryte character, as a host integer.
fn unpack_single(d0: Tryte) -> (v: i64)
    requires
        d0.t5 == Trit::Zero,
    ensures
        v == payload1(d0),
        -121 <= v <= 121,
{
    low5_of(d0)
}

/// The payload of a two-tryte character, as a host integer.
fn unpack_double(d0: Tryte, d1: Tryte) -> (v: i64)
    ensures
        v == payload2(d0, d1),
        -9841 <= v <= 9841,
{
    low4_of(d0) + 81 * low5_of(d1)
}

/// The payload of a three-tryte character, as a host integer.
fn unpack_triple(d0: Tryte, d1: Tryte, d2: Tryte) -> (v: i64)
    ensures
        v == payload3(d0, d1, d2),
        -797161 <= v <= 797161,
{
    low3_of(d0) + 27 * low5_of(d1) + 6561 * low5_of(d2)
}

/// The character and tryte count encoded at the head of three trytes, if
/// their shape is well formed and the code point is a Unicode scalar.
pub open spec fn spec_decode_char(d0: Tryte, d1: Tryte, d2: Tryte) -> Option<(char, int)> {
    if d0.t5 == Trit::Zero {
        Some((((payload1(d0) + 121) as u32) as char, 1int))
    } else if d0.t5 == Trit::Pos && d0.t4 == Trit::Zero {
        if d1.t5 != Trit::Neg {
            None
        } else {
            Some((((payload2(d0, d1) + 10084) as u32) as char, 2int))
        }
    } else if d0.t5 == Trit::Pos && d0.t4 == Trit::Pos {
        if d1.t5 != Trit::Neg {
            None
        } else if d2.t5 != Trit::Neg {
            None
        } else if vstd::utf8::is_scalar((payload3(d0, d1, d2) + 817087) as u32) {
            Some((((payload3(d0, d1, d2) + 817087) as u32) as char, 3int))
        } else {
            None
        }
    } else {
        None
    }
}

/// Decode one character from the first one to three trytes of `src`,
/// returning it with the number of trytes it occupied.
#[verifier::rlimit(100)]
pub fn decode_char(src: &Vec<Tryte>) -> (r: Result<(char, usize), Error>)
    requires
        src@.len() >= 3,
        src@.len() <= 0x100_0000,
    ensures
        r matches Ok(p) ==> 1 <= p.1 <= 3,
        r is Ok <==> spec_decode_char(src@[0], src@[1], src@[2]) is Some,
        r matches Ok(p) ==> spec_decode_char(src@[0], src@[1], src@[2]) == Some(
            (p.0, p.1 as int),
        ),
        ({
            let d0 = src@[0];
            let d1 = src@[1];
            let d2 = src@[2];
            if d0.t5 == Trit::Zero {
                r matches Ok(p) && p.0 as u32 == payload1(d0) + 121 && p.1 == 1
            } else if d0.t5 == Trit::Pos && d0.t4 == Trit::Zero {
                if d1.t5 != Trit::Neg {
                    r matches Err(e) && e matches Error::InvalidEncoding(m) && m@
                        == spec_trit_string(seq![d1])
                } else {
                    r matches Ok(p) && p.0 as u32 == payload2(d0, d1) + 10084 && p.1 == 2
                }
            } else if d0.t5 == Trit::Pos && d0.t4 == Trit::Pos {
                if d1.t5 != Trit::Neg {
                    r matches Err(e) && e matches Error::InvalidEncoding(m) && m@
                        == spec_trit_string(seq![d1])
                } else if d2.t5 != Trit::Neg {
                    r matches Err(e) && e matches Error::InvalidEncoding(m) && m@
                        == spec_trit_string(seq![d2])
                } else if vstd::utf8::is_scalar((payload3(d0, d1, d2) + 817087) as u32) {
                    r matches Ok(p) && p.0 as u32 == payload3(d0, d1, d2) + 817087 && p.1 == 3
                } else {
                    r matches Err(e) && e matches Error::InvalidEncoding(m) && m@
                        == spec_trit_string(seq![d0, d1, d2])
                }
            } else {
                r matches Err(e) && e matches Error::InvalidEncoding(m) && m@
                    == spec_trit_string(seq![d0])
            }
        }),
{
    let d0 = src[0];
    let d1 = src[1];
    let d2 = src[2];
    if d0.t5 == Trit::Zero {
        let v = unpack_single(d0);
        let cp: i64 = v + SINGLE_OFFSET;
        match char::from_u32(cp as u32) {
            Some(c) => Ok((c, 1)),
            None => {
                proof {
                    assert(false);
                }
                Err(invalid_encoding_from_trytes(src))
            },
        }
    } else if d0.t5 == Trit::Pos && d0.t4 == Trit::Zero {
        if !(d1.t5 == Trit::Neg) {
            let bad: Vec<Tryte> = vec![d1];
            return Err(invalid_encoding_from_trytes(&bad));
        }
        let v = unpack_double(d0, d1);
        let cp: i64 = v + DOUBLE_OFFSET;
        match char::from_u32(cp as u32) {
            Some(c) => Ok((c, 2)),
            None => {
                proof {
                    assert(false);
                }
                Err(invalid_encoding_from_trytes(src))
            },
        }
    } else if d0.t5 == Trit::Pos && d0.t4 == Trit::Pos {
        if !(d1.t5 == Trit::Neg) {
            let bad: Vec<Tryte> = vec![d1];
            return Err(invalid_encoding_from_trytes(&bad));
        }
        if !(d2.t5 == Trit::Neg) {
            let bad: Vec<Tryte> = vec![d2];
            return Err(invalid_encoding_from_trytes(&bad));
        }
        let v = unpack_triple(d0, d1, d2);
        let cp: i64 = v + TRIPLE_OFFSET;
        match char::from_u32(cp as u32) {
            Some(c) => Ok((c, 3)),
            None => {
                let bad: Vec<Tryte> = vec![d0, d1, d2];
                Err(invalid_encoding_from_trytes(&bad))
            },
        }
    } else {
        let bad: Vec<Tryte> = vec![d0];
        return Err(invalid_encoding_from_trytes(&bad));
    }
}


/// A character laid down by the encoder decodes back to itself: the
/// shapes match and the payload plus the class midpoint is the original
/// code point.
pub proof fn lemma_encoded_char_decodes(c: char, n: int, d0: Tryte, d1: Tryte, d2: Tryte)
    requires
        n == spec_char_len(c),
        n == 1 ==> payload1(d0) == c as u32 - 121 && d0.t5 == Trit::Zero,
        n == 2 ==> payload2(d0, d1) == c as u32 - 10084 && d0.t5 == Trit::Pos && d0.t4
            == Trit::Zero && d1.t5 == Trit::Neg,
        n == 3 ==> payload3(d0, d1, d2) == c as u32 - 817087 && d0.t5 == Trit::Pos && d0.t4
            == Trit::Pos && d1.t5 == Trit::Neg && d2.t5 == Trit::Neg,
    ensures
        spec_decode_char(d0, d1, d2) == Some((c, n)),
{
    vstd::utf8::char_is_scalar(c);
    vstd::utf8::char_u32_cast(c, c as u32);
    if n == 1 {
        assert((payload1(d0) + 121) as u32 == c as u32);
    } else if n == 2 {
        assert((payload2(d0, d1) + 10084) as u32 == c as u32);
    } else {
        assert((payload3(d0, d1, d2) + 817087) as u32 == c as u32);
    }
}

/// The run of characters decoded from position `i` of a framed buffer
/// until the claimed count `len` is consumed: the decoded characters and
/// the position actually reached, or nothing on the first malformed
/// encoding. The step is clamped to stay positive, which matters only for
/// shapes [`spec_decode_char`] never produces.
pub open spec fn spec_decode_run(src: Seq<Tryte>, i: int, len: int) -> Option<(Seq<char>, int)>
    decreases len + 3 - i,
{
    if i >= len {
        Some((Seq::empty(), i))
    } else {
        match spec_decode_char(src[4 + i], src[4 + i + 1], src[4 + i + 2]) {
            None => None,
            Some((c, n)) => {
                let step = if n < 1 {
                    1int
                } else {
                    n
                };
                match spec_decode_run(src, i + step, len) {
                    None => None,
                    Some((rest, fin)) => Some((seq![c] + rest, fin)),
                }
            },
        }
    }
}

/// A decode run that ends exactly at the claimed count reads nothing
/// beyond it, so it only depends on the trytes inside the frame.
pub proof fn lemma_decode_run_frame(a: Seq<Tryte>, b: Seq<Tryte>, i: int, len: int)
    requires
        0 <= i,
        forall|q: int| 4 + i <= q < 4 + len ==> a[q] == b[q],
        spec_decode_run(a, i, len) matches Some(p) && p.1 <= len,
    ensures
        spec_decode_run(b, i, len) == spec_decode_run(a, i, len),
    decreases len + 3 - i,
{
    if i >= len {
    } else {
        let d0 = a[4 + i];
        match spec_decode_char(a[4 + i], a[4 + i + 1], a[4 + i + 2]) {
            None => {
                assert(false);
            },
            Some((c, n)) => {
                assert(1 <= n <= 3);
                if i + n > len {
                    let run = spec_decode_run(a, i + n, len);
                    assert(run matches Some(p2) && p2.1 == i + n);
                    assert(false);
                }
                assert(b[4 + i] == d0);
                if n == 2 {
                    assert(b[4 + i + 1] == a[4 + i + 1]);
                }
                if n == 3 {
                    assert(b[4 + i + 1] == a[4 + i + 1]);
                    assert(b[4 + i + 2] == a[4 + i + 2]);
                }
                assert(spec_decode_char(b[4 + i], b[4 + i + 1], b[4 + i + 2]) == Some((c, n)));
                lemma_decode_run_frame(a, b, i + n, len);
            },
        }
    }
}

/// Appending one more well-formed character to a buffer whose first
/// `len1` trytes decode cleanly extends the decode run by that character.
pub proof fn lemma_decode_run_extend(
    src: Seq<Tryte>,
    i: int,
    cs: Seq<char>,
    len1: int,
    c: char,
    n: int,
)
    requires
        0 <= i,
        spec_decode_run(src, i, len1) == Some((cs, len1)),
        spec_decode_char(src[4 + len1], src[4 + len1 + 1], src[4 + len1 + 2]) == Some((c, n)),
        1 <= n <= 3,
    ensures
        spec_decode_run(src, i, len1 + n) == Some((cs.push(c), len1 + n)),
    decreases len1 + 3 - i,
{
    if i >= len1 {
        assert(i == len1);
        assert(cs =~= Seq::<char>::empty());
        let tail = spec_decode_run(src, len1 + n, len1 + n);
        assert(tail == Some((Seq::<char>::empty(), len1 + n)));
        assert(seq![c] + Seq::<char>::empty() =~= cs.push(c));
    } else {
        match spec_decode_char(src[4 + i], src[4 + i + 1], src[4 + i + 2]) {
            None => {
                assert(false);
            },
            Some((c0, n0)) => {
                assert(1 <= n0 <= 3);
                let rest_run = spec_decode_run(src, i + n0, len1);
                assert(rest_run matches Some(p) && p.1 == len1 && cs == seq![c0] + p.0);
                let rest = rest_run->Some_0.0;
                lemma_decode_run_extend(src, i + n0, rest, len1, c, n);
                assert(seq![c0] + rest.push(c) =~= (seq![c0] + rest).push(c));
            },
        }
    }
}

/// The number of trytes that encode the first `i` characters of a string.
pub open spec fn spec_enc_len_upto(s: Seq<char>, i: int) -> int
    decreases i,
{
    if i <= 0 {
        0
    } else {
        spec_enc_len_upto(s, i - 1) + spec_char_len(s[i - 1])
    }
}

/// Encode a whole string into `dest`: the characters' trytes start at
/// tryte 4, and the total count of encoded trytes is framed as a word in
/// trytes 0..4 and returned. Every string encodes, given room.
pub fn encode_str(dest: &mut Vec<Tryte>, s: &str) -> (r: Result<usize, Error>)
    requires
        old(dest)@.len() >= 4 + 3 * s@.len(),
        old(dest)@.len() <= 0x100_0000,
        s@.len() <= 0x10_0000,
    ensures
        final(dest)@.len() == old(dest)@.len(),
        r is Ok,
        match r {
            Ok(n) => {
                &&& n == spec_enc_len_upto(s@, s@.len() as int)
                &&& n <= 3 * s@.len()
                &&& value_of(final(dest)@.subrange(0, 4)) == n
                &&& spec_decode_run(final(dest)@, 0, n as int) == Some((s@, n as int))
            },
            Err(e) => false,
        },
{
    let slen = s.unicode_len();
    let mut written: usize = 0;
    let mut j: usize = 0;
    let mut buf = zero_trytes(3);
    while j < slen
        invariant
            j <= slen,
            slen == s@.len(),
            slen <= 0x10_0000,
            buf@.len() == 3,
            dest@.len() == old(dest)@.len(),
            dest@.len() >= 4 + 3 * slen,
            dest@.len() <= 0x100_0000,
            written == spec_enc_len_upto(s@, j as int),
            written <= 3 * j,
            spec_decode_run(dest@, 0, written as int) == Some(
                (s@.subrange(0, j as int), written as int),
            ),
        decreases slen - j,
    {
        let c = s.get_char(j);
        let n = match encode_char(&mut buf, c) {
            Ok(n) => n,
            Err(u) => {
                proof {
                    assert(false);
                }
                0
            },
        };
        let ghost dpre = dest@;
        let mut k: usize = 0;
        while k < n
            invariant
                k <= n,
                n <= 3,
                buf@.len() == 3,
                written <= 3 * j,
                j < slen,
                slen <= 0x10_0000,
                dest@.len() == old(dest)@.len(),
                dest@.len() >= 4 + 3 * slen,
                dest@.len() <= 0x100_0000,
                forall|q: int| 0 <= q < k ==> dest@[4 + written + q] == buf@[q],
                forall|q: int|
                    0 <= q < dest@.len() && !(4 + written <= q < 4 + written + k) ==> dest@[q]
                        == dpre[q],
            decreases n - k,
        {
            let t = buf[k];
            dest.set(4 + written + k, t);
            k = k + 1;
        }
        proof {
            lemma_decode_run_frame(dpre, dest@, 0, written as int);
            lemma_encoded_char_decodes(
                c,
                n as int,
                dest@[4 + written],
                dest@[4 + written + 1],
                dest@[4 + written + 2],
            );
            lemma_decode_run_extend(
                dest@,
                0,
                s@.subrange(0, j as int),
                written as int,
                c,
                n as int,
            );
            assert(s@.subrange(0, j as int).push(s@[j as int]) =~= s@.subrange(0, j + 1));
        }
        written = written + n;
        j = j + 1;
    }
    let mut w = zero_trytes(4);
    proof {
        lemma_pow3_words();
    }
    let framed = read_i64(&mut w, written as i64);
    match framed {
        Ok(u) => {},
        Err(u) => {
            proof {
                assert(false);
            }
        },
    }
    let ghost before_frame = dest@;
    dest.set(0, w[0]);
    dest.set(1, w[1]);
    dest.set(2, w[2]);
    dest.set(3, w[3]);
    proof {
        assert(dest@.subrange(0, 4) =~= w@);
        assert forall|q: int| 4 <= q < 4 + written implies dest@[q] == before_frame[q] by {}
        lemma_decode_run_frame(before_frame, dest@, 0, written as int);
        assert(s@.subrange(0, slen as int) =~= s@);
    }
    Ok(written)
}

/// Decode a framed string from `src`: the leading word holds the count of
/// encoded trytes, and the characters follow. Returns the string and the
/// count of trytes the decoder consumed, which can overshoot the frame by
/// at most two trytes when the last character claims more room than the
/// frame granted.
pub fn decode_str(src: &Vec<Tryte>) -> (r: Result<(String, usize), Error>)
    requires
        src@.len() >= 4,
        src@.len() <= 0x100_0000,
        0 <= value_of(src@.subrange(0, 4)),
        value_of(src@.subrange(0, 4)) + 6 <= src@.len(),
    ensures
        r is Ok <==> spec_decode_run(src@, 0, value_of(src@.subrange(0, 4))) is Some,
        r matches Ok(p) ==> spec_decode_run(src@, 0, value_of(src@.subrange(0, 4))) == Some(
            (p.0@, p.1 as int),
        ),
        r matches Ok(p) ==> value_of(src@.subrange(0, 4)) <= p.1 <= value_of(
            src@.subrange(0, 4),
        ) + 2,
{
    let mut w = zero_trytes(4);
    w.set(0, src[0]);
    w.set(1, src[1]);
    w.set(2, src[2]);
    w.set(3, src[3]);
    proof {
        assert(w@ =~= src@.subrange(0, 4));
    }
    let len64 = to_i64(&w);
    let len = len64 as usize;
    let mut out = String::new();
    let mut i: usize = 0;
    while i < len
        invariant
            i <= len + 2,
            len == value_of(src@.subrange(0, 4)),
            4 + len + 2 <= src@.len(),
            src@.len() <= 0x100_0000,
            match spec_decode_run(src@, i as int, len as int) {
                Some(p) => spec_decode_run(src@, 0, len as int) == Some((out@ + p.0, p.1)),
                None => spec_decode_run(src@, 0, len as int) is None,
            },
        decreases len + 2 - i,
    {
        let mut buf = zero_trytes(3);
        buf.set(0, src[4 + i]);
        buf.set(1, src[4 + i + 1]);
        buf.set(2, src[4 + i + 2]);
        proof {
            assert(buf@[0] == src@[4 + i] && buf@[1] == src@[4 + i + 1] && buf@[2] == src@[4 + i
                + 2]);
        }
        let ghost prev_out = out@;
        match decode_char(&buf) {
            Ok((c, n)) => {
                push_char(&mut out, c);
                proof {
                    let run_i = spec_decode_run(src@, i as int, len as int);
                    assert(run_i == match spec_decode_run(src@, i + n, len as int) {
                        None => None::<(Seq<char>, int)>,
                        Some((rest, fin)) => Some((seq![c] + rest, fin)),
                    });
                    match spec_decode_run(src@, i + n, len as int) {
                        None => {},
                        Some((rest, fin)) => {
                            assert(prev_out + (seq![c] + rest) =~= out@ + rest);
                        },
                    }
                }
                i = i + n;
            },
            Err(e) => {
                return Err(e);
            },
        }
    }
    proof {
        assert(spec_decode_run(src@, i as int, len as int) == Some((
            Seq::<char>::empty(),
            i as int,
        )));
        assert(out@ + Seq::<char>::empty() =~= out@);
    }
    Ok((out, i))
}

} // verus!

