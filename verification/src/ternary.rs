//! Multi-tryte balanced-ternary integers, stored little-endian in vectors
//! of trytes, and the arithmetic the machine builds on.
//!
//! The mathematical meaning of a tryte vector is given by [`value_of`]: the
//! sum of each trit times the matching power of three. Every operation in
//! this module carries a contract over that value.

use vstd::prelude::*;

verus! {

use vstd::arithmetic::div_mod::{lemma_fundamental_div_mod, lemma_fundamental_div_mod_converse};
use vstd::arithmetic::power::{lemma_pow_adds, lemma_pow_positive, pow};
use crate::trit::{sgn, Trit};
use crate::tryte::Tryte;

/// Errors of the ternary numeric layer.
#[derive(Clone, Debug, PartialEq, Eq)]
pub enum Error {
    /// A host integer lies outside the representable range; carries the
    /// minimum, the maximum and the offending value.
    IntegerOutOfBounds(i64, i64, i64),
    /// A two-bit trit field held the reserved pattern; carries the bits.
    InvalidBitPattern(u64),
    /// A character outside the expected alphabet.
    InvalidCharacter(char),
    /// A string or buffer of the wrong length; carries the expected and the
    /// actual length.
    InvalidDataLength(usize, usize),
    /// A malformed multi-tryte text encoding; carries the offending trytes
    /// written as a trit string.
    InvalidEncoding(String),
}

/// The trit at position `i` of a tryte vector (position 0 is the least
/// significant trit of the first tryte).
pub open spec fn trit_of(s: Seq<Tryte>, i: int) -> Trit {
    s[i / 6].trit(i % 6)
}

/// The value contributed by the trits below position `n`.
pub open spec fn value_upto(s: Seq<Tryte>, n: int) -> int
    decreases n,
{
    if n <= 0 {
        0
    } else {
        value_upto(s, n - 1) + trit_of(s, n - 1).val() * pow(3, (n - 1) as nat)
    }
}

/// The value of the whole vector as a mathematical integer.
pub open spec fn value_of(s: Seq<Tryte>) -> int {
    value_upto(s, 6 * s.len() as int)
}

/// Two vectors that agree on every trit below `n` contribute the same value.
pub proof fn lemma_value_upto_frame(a: Seq<Tryte>, b: Seq<Tryte>, n: int)
    requires
        forall|i: int| 0 <= i < n ==> trit_of(a, i) == trit_of(b, i),
    ensures
        value_upto(a, n) == value_upto(b, n),
    decreases n,
{
    if n > 0 {
        lemma_value_upto_frame(a, b, n - 1);
    }
}

/// The value of `n` trits is bounded: twice its magnitude stays below
/// `pow(3, n)`.
pub proof fn lemma_value_upto_bound(s: Seq<Tryte>, n: int)
    requires
        0 <= n,
    ensures
        -(pow(3, n as nat) - 1) <= 2 * value_upto(s, n) <= pow(3, n as nat) - 1,
    decreases n,
{
    if n == 0 {
        assert(pow(3, 0nat) == 1) by {
            reveal_with_fuel(pow, 2);
        }
    } else {
        lemma_value_upto_bound(s, n - 1);
        lemma_pow_positive(3, (n - 1) as nat);
        let p: int = pow(3, (n - 1) as nat);
        assert(pow(3, n as nat) == 3 * p) by {
            lemma_pow_adds(3, 1, (n - 1) as nat);
            reveal_with_fuel(pow, 2);
        }
        let t: int = trit_of(s, n - 1).val();
        let v1: int = value_upto(s, n - 1);
        assert(-1 <= t <= 1);
        assert(-p <= t * p <= p) by (nonlinear_arith)
            requires
                -1 <= t <= 1,
                p >= 1,
        ;
        assert(value_upto(s, n) == v1 + t * p);
        assert(2 * value_upto(s, n) == 2 * v1 + 2 * (t * p));
    }
}

/// Splitting the value at a tryte boundary: the trits of tryte `k` together
/// contribute the tryte's value scaled by `pow(3, 6k)`.
#[verifier::rlimit(100)]
pub proof fn lemma_value_chunk(s: Seq<Tryte>, k: int)
    requires
        0 <= k < s.len(),
    ensures
        value_upto(s, 6 * k + 6) == value_upto(s, 6 * k) + s[k].value() * pow(3, (6 * k) as nat),
{
    let p: int = pow(3, (6 * k) as nat);
    lemma_pow_positive(3, (6 * k) as nat);
    reveal_with_fuel(pow, 7);
    reveal_with_fuel(value_upto, 7);
    assert forall|j: int| 0 <= j < 6 implies trit_of(s, 6 * k + j) == s[k].trit(j) by {
        lemma_fundamental_div_mod_converse(6 * k + j, 6, k, j);
    }
    assert(pow(3, (6 * k + 1) as nat) == 3 * p) by {
        lemma_pow_adds(3, 1, (6 * k) as nat);
    }
    assert(pow(3, (6 * k + 2) as nat) == 9 * p) by {
        lemma_pow_adds(3, 2, (6 * k) as nat);
    }
    assert(pow(3, (6 * k + 3) as nat) == 27 * p) by {
        lemma_pow_adds(3, 3, (6 * k) as nat);
    }
    assert(pow(3, (6 * k + 4) as nat) == 81 * p) by {
        lemma_pow_adds(3, 4, (6 * k) as nat);
    }
    assert(pow(3, (6 * k + 5) as nat) == 243 * p) by {
        lemma_pow_adds(3, 5, (6 * k) as nat);
    }
    let a0: int = s[k].trit(0).val();
    let a1: int = s[k].trit(1).val();
    let a2: int = s[k].trit(2).val();
    let a3: int = s[k].trit(3).val();
    let a4: int = s[k].trit(4).val();
    let a5: int = s[k].trit(5).val();
    assert(value_upto(s, 6 * k + 6) == value_upto(s, 6 * k) + a0 * p + a1 * (3 * p) + a2 * (9 * p)
        + a3 * (27 * p) + a4 * (81 * p) + a5 * (243 * p));
    assert((a0 + 3 * a1 + 9 * a2 + 27 * a3 + 81 * a4 + 243 * a5) * p == a0 * p + a1 * (3 * p) + a2
        * (9 * p) + a3 * (27 * p) + a4 * (81 * p) + a5 * (243 * p)) by (nonlinear_arith);
}

/// A vector of zero trytes.
pub fn zero_trytes(n: usize) -> (v: Vec<Tryte>)
    ensures
        v@.len() == n,
        forall|k: int| 0 <= k < n ==> v@[k] == Tryte::spec_zero(),
{
    let mut v: Vec<Tryte> = Vec::new();
    let mut i: usize = 0;
    while i < n
        invariant
            i <= n,
            v@.len() == i,
            forall|k: int| 0 <= k < i ==> v@[k] == Tryte::spec_zero(),
        decreases n - i,
    {
        v.push(Tryte::zero());
        i = i + 1;
    }
    v
}

/// The number of trits in a tryte vector.
pub fn trit_len(v: &Vec<Tryte>) -> (r: usize)
    requires
        v@.len() <= 0x1000_0000,
    ensures
        r == 6 * v@.len(),
{
    6 * v.len()
}

/// The trit at position `i` of the vector.
pub fn get_trit(v: &Vec<Tryte>, i: usize) -> (r: Trit)
    requires
        i < 6 * v@.len(),
    ensures
        r == trit_of(v@, i as int),
{
    let t = v[i / 6];
    t.get_trit(i % 6)
}

/// Replace the trit at position `i` of the vector.
pub fn set_trit(v: &mut Vec<Tryte>, i: usize, t: Trit)
    requires
        i < 6 * old(v)@.len(),
    ensures
        final(v)@.len() == old(v)@.len(),
        forall|j: int|
            0 <= j < 6 * old(v)@.len() ==> trit_of(final(v)@, j) == (if j == i {
                t
            } else {
                trit_of(old(v)@, j)
            }),
        forall|k: int| 0 <= k < old(v)@.len() && k != i / 6 ==> final(v)@[k] == old(v)@[k],
{
    let k = i / 6;
    let updated = v[k].set_trit(i % 6, t);
    v.set(k, updated);
    proof {
        assert forall|j: int| 0 <= j < 6 * old(v)@.len() implies trit_of(v@, j) == (if j == i {
            t
        } else {
            trit_of(old(v)@, j)
        }) by {
            lemma_fundamental_div_mod(j, 6);
            lemma_fundamental_div_mod(i as int, 6);
        }
    }
}

/// Set every tryte of the vector to zero.
pub fn clear(v: &mut Vec<Tryte>)
    ensures
        final(v)@.len() == old(v)@.len(),
        forall|k: int| 0 <= k < final(v)@.len() ==> final(v)@[k] == Tryte::spec_zero(),
{
    let n = v.len();
    let mut i: usize = 0;
    while i < n
        invariant
            i <= n,
            v@.len() == n,
            forall|k: int| 0 <= k < i ==> v@[k] == Tryte::spec_zero(),
        decreases n - i,
    {
        v.set(i, Tryte::zero());
        i = i + 1;
    }
}

/// Every trit of an all-zero vector is zero, and its value is zero.
pub proof fn lemma_zero_value(s: Seq<Tryte>, n: int)
    requires
        forall|k: int| 0 <= k < s.len() ==> s[k] == Tryte::spec_zero(),
        0 <= n <= 6 * s.len(),
    ensures
        value_upto(s, n) == 0,
        forall|j: int| 0 <= j < 6 * s.len() ==> trit_of(s, j) == Trit::Zero,
    decreases n,
{
    assert forall|j: int| 0 <= j < 6 * s.len() implies trit_of(s, j) == Trit::Zero by {
        lemma_fundamental_div_mod(j, 6);
    }
    if n > 0 {
        lemma_zero_value(s, n - 1);
        assert(trit_of(s, n - 1) == Trit::Zero);
        assert(trit_of(s, n - 1).val() * pow(3, (n - 1) as nat) == 0) by (nonlinear_arith)
            requires
                trit_of(s, n - 1).val() == 0,
        ;
    }
}

/// Pointwise digit negation flips the value's sign.
pub proof fn lemma_value_neg(a: Seq<Tryte>, b: Seq<Tryte>, n: int)
    requires
        forall|i: int| 0 <= i < n ==> trit_of(a, i).val() == -trit_of(b, i).val(),
    ensures
        value_upto(a, n) == -value_upto(b, n),
    decreases n,
{
    if n > 0 {
        lemma_value_neg(a, b, n - 1);
        let p: int = pow(3, (n - 1) as nat);
        let ta: int = trit_of(a, n - 1).val();
        let tb: int = trit_of(b, n - 1).val();
        assert(ta * p == -(tb * p)) by (nonlinear_arith)
            requires
                ta == -tb,
        ;
    }
}

/// Two vectors that agree on every trit in `[m, n)` gain the same value
/// over that window.
pub proof fn lemma_value_diff_high(a: Seq<Tryte>, b: Seq<Tryte>, m: int, n: int)
    requires
        0 <= m <= n,
        forall|i: int| m <= i < n ==> trit_of(a, i) == trit_of(b, i),
    ensures
        value_upto(a, n) - value_upto(a, m) == value_upto(b, n) - value_upto(b, m),
    decreases n - m,
{
    if n > m {
        lemma_value_diff_high(a, b, m, n - 1);
    }
}

/// When two vectors agree above position `k` and differ at `k`, the sign of
/// the difference of their values is the sign of the difference at `k`.
pub proof fn lemma_value_diff_sign(a: Seq<Tryte>, b: Seq<Tryte>, k: int, n: int)
    requires
        0 <= k < n,
        forall|i: int| k < i < n ==> trit_of(a, i) == trit_of(b, i),
        trit_of(a, k).val() != trit_of(b, k).val(),
    ensures
        sgn(value_upto(a, n) - value_upto(b, n)) == sgn(trit_of(a, k).val() - trit_of(b, k).val()),
{
    lemma_value_diff_high(a, b, k + 1, n);
    lemma_value_upto_bound(a, k);
    lemma_value_upto_bound(b, k);
    lemma_pow_positive(3, k as nat);
    let p: int = pow(3, k as nat);
    let dd: int = trit_of(a, k).val() - trit_of(b, k).val();
    let low: int = value_upto(a, k) - value_upto(b, k);
    let ta: int = trit_of(a, k).val();
    let tb: int = trit_of(b, k).val();
    assert(ta * p - tb * p == dd * p) by (nonlinear_arith)
        requires
            dd == ta - tb,
    ;
    assert(value_upto(a, n) - value_upto(b, n) == dd * p + low);
    assert(-(2 * p - 2) <= 2 * low <= 2 * p - 2);
    if dd >= 1 {
        assert(dd * p >= p) by (nonlinear_arith)
            requires
                dd >= 1,
                p >= 1,
        ;
    } else {
        assert(dd * p <= -p) by (nonlinear_arith)
            requires
                dd <= -1,
                p >= 1,
        ;
    }
}

/// Digitwise ternary AND of two vectors into `dest`.
pub fn and(dest: &mut Vec<Tryte>, lhs: &Vec<Tryte>, rhs: &Vec<Tryte>)
    requires
        old(dest)@.len() == lhs@.len(),
        rhs@.len() == lhs@.len(),
        lhs@.len() <= 0x1000_0000,
    ensures
        final(dest)@.len() == lhs@.len(),
        forall|j: int|
            0 <= j < 6 * lhs@.len() ==> trit_of(final(dest)@, j).val() == (if trit_of(lhs@, j).val()
                <= trit_of(rhs@, j).val() {
                trit_of(lhs@, j).val()
            } else {
                trit_of(rhs@, j).val()
            }),
{
    let n = 6 * lhs.len();
    let mut i: usize = 0;
    while i < n
        invariant
            i <= n,
            n == 6 * lhs@.len(),
            dest@.len() == lhs@.len(),
            rhs@.len() == lhs@.len(),
            forall|j: int|
                0 <= j < i ==> trit_of(dest@, j).val() == (if trit_of(lhs@, j).val() <= trit_of(
                    rhs@,
                    j,
                ).val() {
                    trit_of(lhs@, j).val()
                } else {
                    trit_of(rhs@, j).val()
                }),
        decreases n - i,
    {
        let c = get_trit(lhs, i).and(get_trit(rhs, i));
        set_trit(dest, i, c);
        i = i + 1;
    }
}

/// Digitwise ternary OR of two vectors into `dest`.
pub fn or(dest: &mut Vec<Tryte>, lhs: &Vec<Tryte>, rhs: &Vec<Tryte>)
    requires
        old(dest)@.len() == lhs@.len(),
        rhs@.len() == lhs@.len(),
        lhs@.len() <= 0x1000_0000,
    ensures
        final(dest)@.len() == lhs@.len(),
        forall|j: int|
            0 <= j < 6 * lhs@.len() ==> trit_of(final(dest)@, j).val() == (if trit_of(lhs@, j).val()
                >= trit_of(rhs@, j).val() {
                trit_of(lhs@, j).val()
            } else {
                trit_of(rhs@, j).val()
            }),
{
    let n = 6 * lhs.len();
    let mut i: usize = 0;
    while i < n
        invariant
            i <= n,
            n == 6 * lhs@.len(),
            dest@.len() == lhs@.len(),
            rhs@.len() == lhs@.len(),
            forall|j: int|
                0 <= j < i ==> trit_of(dest@, j).val() == (if trit_of(lhs@, j).val() >= trit_of(
                    rhs@,
                    j,
                ).val() {
                    trit_of(lhs@, j).val()
                } else {
                    trit_of(rhs@, j).val()
                }),
        decreases n - i,
    {
        let c = get_trit(lhs, i).or(get_trit(rhs, i));
        set_trit(dest, i, c);
        i = i + 1;
    }
}

/// Digitwise ternary comparison of two vectors into `dest`.
pub fn tcmp(dest: &mut Vec<Tryte>, lhs: &Vec<Tryte>, rhs: &Vec<Tryte>)
    requires
        old(dest)@.len() == lhs@.len(),
        rhs@.len() == lhs@.len(),
        lhs@.len() <= 0x1000_0000,
    ensures
        final(dest)@.len() == lhs@.len(),
        forall|j: int|
            0 <= j < 6 * lhs@.len() ==> trit_of(final(dest)@, j).val() == sgn(
                trit_of(lhs@, j).val() - trit_of(rhs@, j).val(),
            ),
{
    let n = 6 * lhs.len();
    let mut i: usize = 0;
    while i < n
        invariant
            i <= n,
            n == 6 * lhs@.len(),
            dest@.len() == lhs@.len(),
            rhs@.len() == lhs@.len(),
            forall|j: int|
                0 <= j < i ==> trit_of(dest@, j).val() == sgn(
                    trit_of(lhs@, j).val() - trit_of(rhs@, j).val(),
                ),
        decreases n - i,
    {
        let c = get_trit(lhs, i).tcmp(get_trit(rhs, i));
        set_trit(dest, i, c);
        i = i + 1;
    }
}

/// Digitwise trit product of two vectors into `dest`.
pub fn tmul(dest: &mut Vec<Tryte>, lhs: &Vec<Tryte>, rhs: &Vec<Tryte>)
    requires
        old(dest)@.len() == lhs@.len(),
        rhs@.len() == lhs@.len(),
        lhs@.len() <= 0x1000_0000,
    ensures
        final(dest)@.len() == lhs@.len(),
        forall|j: int|
            0 <= j < 6 * lhs@.len() ==> trit_of(final(dest)@, j).val() == trit_of(lhs@, j).val()
                * trit_of(rhs@, j).val(),
{
    let n = 6 * lhs.len();
    let mut i: usize = 0;
    while i < n
        invariant
            i <= n,
            n == 6 * lhs@.len(),
            dest@.len() == lhs@.len(),
            rhs@.len() == lhs@.len(),
            forall|j: int|
                0 <= j < i ==> trit_of(dest@, j).val() == trit_of(lhs@, j).val() * trit_of(
                    rhs@,
                    j,
                ).val(),
        decreases n - i,
    {
        let c = get_trit(lhs, i).tmul(get_trit(rhs, i));
        set_trit(dest, i, c);
        i = i + 1;
    }
}

/// Scalar comparison: the sign of the difference of the two values, found
/// by scanning from the most significant trit down.
pub fn compare(lhs: &Vec<Tryte>, rhs: &Vec<Tryte>) -> (r: Trit)
    requires
        lhs@.len() == rhs@.len(),
        lhs@.len() <= 0x1000_0000,
    ensures
        r.val() == sgn(value_of(lhs@) - value_of(rhs@)),
{
    let n = 6 * lhs.len();
    let mut i: usize = n;
    while i > 0
        invariant
            i <= n,
            n == 6 * lhs@.len(),
            rhs@.len() == lhs@.len(),
            forall|j: int| i <= j < n ==> trit_of(lhs@, j) == trit_of(rhs@, j),
        decreases i,
    {
        i = i - 1;
        let a = get_trit(lhs, i);
        let b = get_trit(rhs, i);
        let c = a.tcmp(b);
        if !(c == Trit::Zero) {
            proof {
                lemma_value_diff_sign(lhs@, rhs@, i as int, n as int);
            }
            return c;
        }
        proof {
            assert(trit_of(lhs@, i as int) == trit_of(rhs@, i as int));
        }
    }
    proof {
        lemma_value_upto_frame(lhs@, rhs@, n as int);
    }
    Trit::Zero
}

/// Ripple addition with carry across two equal-length vectors. The result
/// and the carry-out satisfy
/// `dest + carry_out * 3^(6n) == lhs + rhs + carry_in`.
#[verifier::rlimit(100)]
pub fn add(dest: &mut Vec<Tryte>, lhs: &Vec<Tryte>, rhs: &Vec<Tryte>, carry: Trit) -> (c: Trit)
    requires
        old(dest)@.len() == lhs@.len(),
        rhs@.len() == lhs@.len(),
    ensures
        final(dest)@.len() == lhs@.len(),
        value_of(final(dest)@) + c.val() * pow(3, (6 * lhs@.len()) as nat) == value_of(lhs@)
            + value_of(rhs@) + carry.val(),
{
    let ghost c0: int = carry.val();
    let n = lhs.len();
    let mut carry = carry;
    let mut i: usize = 0;
    proof {
        assert(pow(3, 0nat) == 1) by {
            reveal_with_fuel(pow, 2);
        }
    }
    while i < n
        invariant
            i <= n,
            dest@.len() == n,
            lhs@.len() == n,
            rhs@.len() == n,
            value_upto(dest@, 6 * i) + carry.val() * pow(3, (6 * i) as nat) == value_upto(
                lhs@,
                6 * i,
            ) + value_upto(rhs@, 6 * i) + c0,
        decreases n - i,
    {
        let ghost prev = dest@;
        let ghost cin: int = carry.val();
        let (t, c2) = lhs[i].add_with_carry(rhs[i], carry);
        dest.set(i, t);
        proof {
            let p: int = pow(3, (6 * i) as nat);
            assert forall|j: int| 0 <= j < 6 * i implies trit_of(dest@, j) == trit_of(
                prev,
                j,
            ) by {
                lemma_fundamental_div_mod(j, 6);
            }
            lemma_value_upto_frame(dest@, prev, 6 * i);
            lemma_value_chunk(dest@, i as int);
            lemma_value_chunk(lhs@, i as int);
            lemma_value_chunk(rhs@, i as int);
            assert(pow(3, (6 * (i + 1)) as nat) == 729 * p) by {
                lemma_pow_adds(3, 6, (6 * i) as nat);
                reveal_with_fuel(pow, 7);
            }
            let dv: int = t.value();
            let c2v: int = c2.val();
            let lv: int = lhs@[i as int].value();
            let rv: int = rhs@[i as int].value();
            assert(dv * p + c2v * (729 * p) == lv * p + rv * p + cin * p) by (nonlinear_arith)
                requires
                    dv + 729 * c2v == lv + rv + cin,
            ;
        }
        carry = c2;
        i = i + 1;
    }
    carry
}

/// The largest value representable in the given number of trytes.
pub open spec fn spec_max_value(tryte_len: nat) -> int {
    (pow(3, 6 * tryte_len) - 1) / 2
}

/// The powers of three at the tryte boundaries up to six trytes, as
/// concrete numbers.
pub proof fn lemma_pow3_words()
    ensures
        pow(3, 6) == 729,
        pow(3, 12) == 531441,
        pow(3, 18) == 387420489,
        pow(3, 24) == 282429536481,
        pow(3, 30) == 205891132094649,
        pow(3, 36) == 150094635296999121,
{
    reveal_with_fuel(pow, 7);
    assert(pow(3, 6) == 729);
    lemma_pow_adds(3, 6, 6);
    lemma_pow_adds(3, 6, 12);
    lemma_pow_adds(3, 6, 18);
    lemma_pow_adds(3, 6, 24);
    lemma_pow_adds(3, 6, 30);
}

/// Twice the magnitude of the value of at most 36 trits stays below
/// `pow(3, 36)`.
pub proof fn lemma_value_bound_words(s: Seq<Tryte>, n: int)
    requires
        0 <= n <= 36,
    ensures
        -(pow(3, 36) - 1) <= 2 * value_upto(s, n) <= pow(3, 36) - 1,
{
    lemma_value_upto_bound(s, n);
    vstd::arithmetic::power::lemma_pow_increases(3, n as nat, 36);
}

/// The largest representable value for a vector of up to six trytes.
pub fn max_value(tryte_len: usize) -> (r: i64)
    requires
        tryte_len <= 6,
    ensures
        2 * r + 1 == pow(3, (6 * tryte_len) as nat),
        r >= 0,
        r == spec_max_value(tryte_len as nat),
{
    proof {
        lemma_pow3_words();
        reveal_with_fuel(pow, 2);
    }
    match tryte_len {
        0 => 0,
        1 => 364,
        2 => 265720,
        3 => 193710244,
        4 => 141214768240,
        5 => 102945566047324,
        _ => 75047317648499560,
    }
}

/// The value of the vector as a host integer.
pub fn to_i64(v: &Vec<Tryte>) -> (r: i64)
    requires
        v@.len() <= 6,
    ensures
        r == value_of(v@),
{
    let n = 6 * v.len();
    let mut acc: i64 = 0;
    let mut i: usize = n;
    proof {
        reveal_with_fuel(pow, 2);
    }
    while i > 0
        invariant
            i <= n,
            n == 6 * v@.len(),
            v@.len() <= 6,
            acc * pow(3, i as nat) == value_upto(v@, n as int) - value_upto(v@, i as int),
            -(pow(3, (n - i) as nat) - 1) <= 2 * acc <= pow(3, (n - i) as nat) - 1,
        decreases i,
    {
        i = i - 1;
        let t = get_trit(v, i);
        proof {
            lemma_pow3_words();
            vstd::arithmetic::power::lemma_pow_increases(3, (n - i - 1) as nat, 36);
            vstd::arithmetic::power::lemma_pow_increases(3, (n - i) as nat, 36);
            lemma_pow_positive(3, i as nat);
            let p: int = pow(3, i as nat);
            assert(pow(3, (i + 1) as nat) == 3 * p) by {
                lemma_pow_adds(3, 1, i as nat);
                reveal_with_fuel(pow, 2);
            }
            assert(pow(3, (n - i) as nat) == 3 * pow(3, (n - i - 1) as nat)) by {
                lemma_pow_adds(3, 1, (n - i - 1) as nat);
                reveal_with_fuel(pow, 2);
            }
            let tv: int = trit_of(v@, i as int).val();
            assert((3 * acc + tv) * p == acc * (3 * p) + tv * p) by (nonlinear_arith);
        }
        acc = acc * 3 + t.to_i16() as i64;
    }
    proof {
        reveal_with_fuel(pow, 2);
        assert(acc * pow(3, 0) == acc) by (nonlinear_arith)
            requires
                pow(3, 0) == 1,
        ;
    }
    acc
}

/// Powers of three are odd.
pub proof fn lemma_pow3_odd(k: nat)
    ensures
        pow(3, k) % 2 == 1,
    decreases k,
{
    if k == 0 {
        reveal_with_fuel(pow, 2);
    } else {
        lemma_pow3_odd((k - 1) as nat);
        let prev: int = pow(3, (k - 1) as nat);
        assert(pow(3, k) == 3 * prev) by {
            lemma_pow_adds(3, 1, (k - 1) as nat);
            reveal_with_fuel(pow, 2);
        }
        assert((3 * prev) % 2 == 1) by (nonlinear_arith)
            requires
                prev % 2 == 1,
        ;
    }
}

/// Fill the vector with the balanced-ternary digits of a host integer.
/// Succeeds exactly when the integer lies within the representable range;
/// on failure the vector is untouched.
#[verifier::rlimit(100)]
pub fn read_i64(v: &mut Vec<Tryte>, n: i64) -> (r: Result<(), Error>)
    requires
        old(v)@.len() <= 6,
    ensures
        final(v)@.len() == old(v)@.len(),
        r is Ok <==> -spec_max_value(old(v)@.len()) <= n <= spec_max_value(old(v)@.len()),
        match r {
            Ok(u) => value_of(final(v)@) == n,
            Err(e) => final(v)@ == old(v)@ && e == Error::IntegerOutOfBounds(
                (-spec_max_value(old(v)@.len())) as i64,
                spec_max_value(old(v)@.len()) as i64,
                n,
            ),
        },
{
    let len = v.len();
    let max = max_value(len);
    if n < -max || max < n {
        return Err(Error::IntegerOutOfBounds(-max, max, n));
    }
    let neg = n < 0;
    let ghost s: int = if neg {
        -1
    } else {
        1
    };
    let mut m: i64 = if neg {
        -n
    } else {
        n
    };
    let total = 6 * len;
    let mut i: usize = 0;
    proof {
        reveal_with_fuel(pow, 2);
    }
    while i < total
        invariant
            i <= total,
            total == 6 * len,
            v@.len() == len,
            len <= 6,
            m >= 0,
            2 * m <= pow(3, (total - i) as nat) - 1,
            s == if neg {
                -1int
            } else {
                1int
            },
            value_upto(v@, i as int) + s * m * pow(3, i as nat) == n,
        decreases total - i,
    {
        let ghost m0: int = m as int;
        let ghost prev = v@;
        let r = m % 3;
        let d: Trit;
        if r == 1 {
            d = Trit::Pos;
            m = (m - 1) / 3;
        } else if r == 0 {
            d = Trit::Zero;
            m = m / 3;
        } else {
            d = Trit::Neg;
            m = (m + 1) / 3;
        }
        let t = if neg {
            d.negate()
        } else {
            d
        };
        set_trit(v, i, t);
        proof {
            lemma_pow3_words();
            vstd::arithmetic::power::lemma_pow_increases(3, (total - i) as nat, 36);
            lemma_pow_positive(3, i as nat);
            let p: int = pow(3, i as nat);
            assert(pow(3, (i + 1) as nat) == 3 * p) by {
                lemma_pow_adds(3, 1, i as nat);
                reveal_with_fuel(pow, 2);
            }
            assert(pow(3, (total - i) as nat) == 3 * pow(3, (total - i - 1) as nat)) by {
                lemma_pow_adds(3, 1, (total - i - 1) as nat);
                reveal_with_fuel(pow, 2);
            }
            assert forall|j: int| 0 <= j < i implies trit_of(v@, j) == trit_of(prev, j) by {}
            lemma_value_upto_frame(v@, prev, i as int);
            let dv: int = d.val();
            assert(m0 == dv + 3 * m);
            let pp: int = pow(3, (total - i - 1) as nat);
            lemma_pow3_odd((total - i - 1) as nat);
            assert(6 * (m as int) == 2 * m0 - 2 * dv);
            assert(2 * (m as int) != pp);
            assert(2 * (m as int) <= pp - 1);
            assert(trit_of(v@, i as int).val() == s * dv) by (nonlinear_arith)
                requires
                    trit_of(v@, i as int).val() == (if s == 1 {
                        dv
                    } else {
                        -dv
                    }),
                    s == 1 || s == -1,
            ;
            assert(s * m0 * p == s * dv * p + s * (m as int) * (3 * p)) by (nonlinear_arith)
                requires
                    m0 == dv + 3 * m,
            ;
        }
        i = i + 1;
    }
    proof {
        assert(m == 0);
        assert(s * 0 * pow(3, i as nat) == 0) by (nonlinear_arith);
    }
    Ok(())
}

/// Two vectors of equal length and equal value are equal digit for digit:
/// the balanced-ternary representation of a value is unique.
pub proof fn lemma_value_unique_upto(a: Seq<Tryte>, b: Seq<Tryte>, n: int)
    requires
        0 <= n,
        value_upto(a, n) == value_upto(b, n),
    ensures
        forall|j: int| 0 <= j < n ==> trit_of(a, j) == trit_of(b, j),
    decreases n,
{
    if n > 0 {
        if trit_of(a, n - 1).val() != trit_of(b, n - 1).val() {
            lemma_value_diff_sign(a, b, n - 1, n);
            assert(false);
        }
        assert(trit_of(a, n - 1) == trit_of(b, n - 1));
        let p: int = pow(3, (n - 1) as nat);
        assert(value_upto(a, n - 1) == value_upto(b, n - 1));
        lemma_value_unique_upto(a, b, n - 1);
    }
}

/// Two tryte vectors of equal length carrying the same value are the same
/// vector.
pub proof fn lemma_value_unique(a: Seq<Tryte>, b: Seq<Tryte>)
    requires
        a.len() == b.len(),
        value_of(a) == value_of(b),
    ensures
        a =~= b,
{
    lemma_value_unique_upto(a, b, 6 * a.len() as int);
    assert forall|k: int| 0 <= k < a.len() implies a[k] == b[k] by {
        assert forall|j: int| 0 <= j < 6 implies a[k].trit(j) == b[k].trit(j) by {
            lemma_fundamental_div_mod_converse(6 * k + j, 6, k, j);
            assert(trit_of(a, 6 * k + j) == trit_of(b, 6 * k + j));
        }
        let x = a[k];
        let y = b[k];
        assert(x.trit(0) == y.trit(0) && x.trit(1) == y.trit(1) && x.trit(2) == y.trit(2) && x.trit(
            3,
        ) == y.trit(3) && x.trit(4) == y.trit(4) && x.trit(5) == y.trit(5));
        assert(x.t0 == y.t0 && x.t1 == y.t1 && x.t2 == y.t2 && x.t3 == y.t3 && x.t4 == y.t4 && x.t5
            == y.t5);
    }
}

/// When the true sum lies within the representable range, ripple addition
/// reports no carry and represents the sum exactly.
pub proof fn lemma_add_within_range(s: Seq<Tryte>, c: Trit, total: int)
    requires
        value_of(s) + c.val() * pow(3, (6 * s.len()) as nat) == total,
        2 * total <= pow(3, (6 * s.len()) as nat) - 1,
        -(pow(3, (6 * s.len()) as nat) - 1) <= 2 * total,
    ensures
        c == Trit::Zero,
        value_of(s) == total,
{
    lemma_value_upto_bound(s, 6 * s.len() as int);
    let p: int = pow(3, (6 * s.len()) as nat);
    lemma_pow_positive(3, (6 * s.len()) as nat);
    match c {
        Trit::Zero => {
            assert(c.val() * p == 0) by (nonlinear_arith)
                requires
                    c.val() == 0,
            ;
        },
        Trit::Pos => {
            assert(c.val() * p == p) by (nonlinear_arith)
                requires
                    c.val() == 1,
            ;
            assert(false);
        },
        Trit::Neg => {
            assert(c.val() * p == -p) by (nonlinear_arith)
                requires
                    c.val() == -1,
            ;
            assert(false);
        },
    }
}

/// Add `sign * src * 3^offset` into the window of `dest` starting at trit
/// `offset`, rippling a carry; the carry out of the window is returned.
/// Trits outside the window are untouched.
#[verifier::rlimit(100)]
fn add_scaled(dest: &mut Vec<Tryte>, src: &Vec<Tryte>, sign: Trit, offset: usize) -> (c: Trit)
    requires
        offset + 6 * src@.len() <= 6 * old(dest)@.len(),
        old(dest)@.len() <= 0x1000_0000,
    ensures
        final(dest)@.len() == old(dest)@.len(),
        forall|j: int|
            0 <= j < 6 * old(dest)@.len() && !(offset <= j < offset + 6 * src@.len())
                ==> trit_of(final(dest)@, j) == trit_of(old(dest)@, j),
        value_upto(final(dest)@, offset + 6 * src@.len()) + c.val() * pow(
            3,
            (offset + 6 * src@.len()) as nat,
        ) == value_upto(old(dest)@, offset + 6 * src@.len()) + sign.val() * value_of(src@) * pow(
            3,
            offset as nat,
        ),
{
    let ghost orig = dest@;
    let ghost q: int = pow(3, offset as nat);
    let ghost s: int = sign.val();
    let ghost vsrc = src@;
    let m = 6 * src.len();
    let mut carry = Trit::Zero;
    let mut i: usize = 0;
    proof {
        lemma_pow_positive(3, offset as nat);
        assert(s * value_upto(vsrc, 0) * q == 0) by (nonlinear_arith);
    }
    while i < m
        invariant
            i <= m,
            m == 6 * src@.len(),
            dest@.len() == old(dest)@.len(),
            dest@.len() <= 0x1000_0000,
            offset + m <= 6 * dest@.len(),
            src@ == vsrc,
            q == pow(3, offset as nat),
            s == sign.val(),
            forall|j: int|
                0 <= j < 6 * dest@.len() && !(offset <= j < offset + i) ==> trit_of(dest@, j)
                    == trit_of(orig, j),
            value_upto(dest@, offset + i) + carry.val() * pow(3, (offset + i) as nat)
                == value_upto(orig, offset + i) + s * value_upto(vsrc, i as int) * q,
        decreases m - i,
    {
        let ghost prev = dest@;
        let ghost cin: int = carry.val();
        let a = get_trit(dest, offset + i);
        let b = get_trit(src, i);
        let scaled = b.tmul(sign);
        let (t, c2) = a.add_with_carry(scaled, carry);
        set_trit(dest, offset + i, t);
        proof {
            let p: int = pow(3, (offset + i) as nat);
            let r: int = pow(3, i as nat);
            lemma_pow_positive(3, (offset + i) as nat);
            lemma_value_upto_frame(dest@, prev, offset + i);
            assert(pow(3, (offset + i + 1) as nat) == 3 * p) by {
                lemma_pow_adds(3, 1, (offset + i) as nat);
                reveal_with_fuel(pow, 2);
            }
            assert(p == q * r) by {
                lemma_pow_adds(3, offset as nat, i as nat);
                assert(q * r == pow(3, offset as nat) * pow(3, i as nat));
            }
            let av: int = trit_of(orig, offset + i).val();
            let bv: int = trit_of(vsrc, i as int).val();
            let tv: int = t.val();
            let c2v: int = c2.val();
            assert(tv + 3 * c2v == av + bv * s + cin);
            assert(tv * p + c2v * (3 * p) == av * p + (bv * s) * p + cin * p) by (nonlinear_arith)
                requires
                    tv + 3 * c2v == av + bv * s + cin,
            ;
            assert(s * value_upto(vsrc, i + 1) * q == s * value_upto(vsrc, i as int) * q + (bv * s)
                * (q * r)) by (nonlinear_arith)
                requires
                    value_upto(vsrc, i + 1) == value_upto(vsrc, i as int) + bv * r,
            ;
        }
        carry = c2;
        i = i + 1;
    }
    carry
}

/// Long multiplication: `dest`, initially all zero and twice as long as
/// each factor, receives the full product of `lhs` and `rhs`.
#[verifier::rlimit(100)]
pub fn multiply(dest: &mut Vec<Tryte>, lhs: &Vec<Tryte>, rhs: &Vec<Tryte>)
    requires
        lhs@.len() == rhs@.len(),
        old(dest)@.len() == lhs@.len() + rhs@.len(),
        forall|k: int| 0 <= k < old(dest)@.len() ==> old(dest)@[k] == Tryte::spec_zero(),
        lhs@.len() <= 0x100_0000,
    ensures
        final(dest)@.len() == old(dest)@.len(),
        value_of(final(dest)@) == value_of(lhs@) * value_of(rhs@),
{
    let ghost vl: int = value_of(lhs@);
    let n = lhs.len();
    let half = 6 * n;
    let m = 6 * rhs.len();
    let mut i: usize = 0;
    proof {
        lemma_zero_value(old(dest)@, half as int);
        assert(vl * value_upto(rhs@, 0) == 0) by (nonlinear_arith);
    }
    while i < m
        invariant
            i <= m,
            m == 6 * rhs@.len(),
            half == 6 * lhs@.len(),
            lhs@.len() == rhs@.len(),
            dest@.len() == lhs@.len() + rhs@.len(),
            lhs@.len() <= 0x100_0000,
            dest@.len() <= 0x1000_0000,
            vl == value_of(lhs@),
            forall|j: int| half + i <= j < 6 * dest@.len() ==> trit_of(dest@, j) == Trit::Zero,
            value_upto(dest@, half + i) == vl * value_upto(rhs@, i as int),
        decreases m - i,
    {
        let ghost prev = dest@;
        let sign = get_trit(rhs, i);
        let c = add_scaled(dest, lhs, sign, i);
        let ghost mid = dest@;
        set_trit(dest, half + i, c);
        proof {
            let p: int = pow(3, (half + i) as nat);
            let r: int = pow(3, i as nat);
            let sv: int = trit_of(rhs@, i as int).val();
            lemma_value_upto_frame(dest@, mid, half + i);
            assert(trit_of(mid, half + i) == trit_of(prev, half + i));
            assert(value_upto(mid, half + i) + c.val() * pow(3, (half + i) as nat) == value_upto(
                prev,
                half + i,
            ) + sv * value_of(lhs@) * r);
            assert(value_upto(dest@, half + i + 1) == value_upto(dest@, half + i) + c.val() * p);
            assert(vl * value_upto(rhs@, i + 1) == vl * value_upto(rhs@, i as int) + sv * vl * r)
                by (nonlinear_arith)
                requires
                    value_upto(rhs@, i + 1) == value_upto(rhs@, i as int) + sv * r,
            ;
            assert forall|j: int|
                half + i + 1 <= j < 6 * dest@.len() implies trit_of(dest@, j) == Trit::Zero by {}
        }
        i = i + 1;
    }
    proof {
        assert(value_upto(dest@, half + m) == vl * value_upto(rhs@, m as int));
        assert(6 * dest@.len() == half + m);
    }
}

/// Place `src` inside `dest` (three times as wide) at trit position
/// `offset + 6 * src.len()`: positive offsets shift toward the most
/// significant end. Trits of `dest` outside the placed window keep their
/// old digits.
pub fn shift(dest: &mut Vec<Tryte>, src: &Vec<Tryte>, offset: i64)
    requires
        old(dest)@.len() == 3 * src@.len(),
        src@.len() <= 0x100_0000,
        -0x2000_0000_0000_0000 <= offset <= 0x2000_0000_0000_0000,
    ensures
        final(dest)@.len() == old(dest)@.len(),
        forall|j: int|
            0 <= j < 6 * old(dest)@.len() ==> trit_of(final(dest)@, j) == (if offset + 6
                * src@.len() <= j < offset + 12 * src@.len() {
                trit_of(src@, j - offset - 6 * src@.len())
            } else {
                trit_of(old(dest)@, j)
            }),
{
    let ghost orig = dest@;
    let m = 6 * src.len();
    let total = 6 * dest.len();
    let mut i: usize = 0;
    while i < m
        invariant
            i <= m,
            m == 6 * src@.len(),
            total == 6 * dest@.len(),
            dest@.len() == 3 * src@.len(),
            src@.len() <= 0x100_0000,
            -0x2000_0000_0000_0000 <= offset <= 0x2000_0000_0000_0000,
            forall|j: int|
                0 <= j < total ==> trit_of(dest@, j) == (if offset + m <= j < offset + m + i {
                    trit_of(src@, j - offset - m)
                } else {
                    trit_of(orig, j)
                }),
        decreases m - i,
    {
        let pos: i64 = offset + (m as i64) + (i as i64);
        if 0 <= pos && pos < total as i64 {
            let t = get_trit(src, i);
            set_trit(dest, pos as usize, t);
        }
        i = i + 1;
    }
}

/// Pointwise equal trits make equal vectors.
pub proof fn lemma_trits_pointwise_equal(a: Seq<Tryte>, b: Seq<Tryte>)
    requires
        a.len() == b.len(),
        forall|j: int| 0 <= j < 6 * a.len() ==> trit_of(a, j) == trit_of(b, j),
    ensures
        a =~= b,
{
    assert forall|k: int| 0 <= k < a.len() implies a[k] == b[k] by {
        assert forall|j: int| 0 <= j < 6 implies a[k].trit(j) == b[k].trit(j) by {
            lemma_fundamental_div_mod_converse(6 * k + j, 6, k, j);
            assert(trit_of(a, 6 * k + j) == trit_of(b, 6 * k + j));
        }
        let x = a[k];
        let y = b[k];
        assert(x.trit(0) == y.trit(0) && x.trit(1) == y.trit(1) && x.trit(2) == y.trit(2) && x.trit(
            3,
        ) == y.trit(3) && x.trit(4) == y.trit(4) && x.trit(5) == y.trit(5));
        assert(x.t0 == y.t0 && x.t1 == y.t1 && x.t2 == y.t2 && x.t3 == y.t3 && x.t4 == y.t4 && x.t5
            == y.t5);
    }
}

/// Fill the vector with the digits named by a trit string, written most
/// significant first. Succeeds exactly when the string has one character
/// per trit and every character names a digit; on failure the vector is
/// untouched.
pub fn read_trits(v: &mut Vec<Tryte>, s: &str) -> (r: Result<(), Error>)
    requires
        old(v)@.len() <= 0x100_0000,
    ensures
        final(v)@.len() == old(v)@.len(),
        r is Ok <==> s@.len() == 6 * old(v)@.len() && (forall|j: int|
            0 <= j < s@.len() ==> Trit::spec_from_char(s@[j]) is Some),
        match r {
            Ok(u) => forall|i: int|
                0 <= i < 6 * old(v)@.len() ==> Some(trit_of(final(v)@, i)) == Trit::spec_from_char(
                    s@[6 * old(v)@.len() - 1 - i],
                ),
            Err(e) => final(v)@ == old(v)@ && (if s@.len() != 6 * old(v)@.len() {
                e == Error::InvalidDataLength((6 * old(v)@.len()) as usize, s@.len() as usize)
            } else {
                exists|j: int|
                    0 <= j < s@.len() && Trit::spec_from_char(s@[j]) is None && e
                        == Error::InvalidCharacter(s@[j])
            }),
        },
{
    let total = 6 * v.len();
    let n = s.unicode_len();
    if n != total {
        return Err(Error::InvalidDataLength(total, n));
    }
    let mut j: usize = 0;
    while j < total
        invariant
            j <= total,
            total == s@.len(),
            total == 6 * v@.len(),
            v@ == old(v)@,
            forall|k: int| 0 <= k < j ==> Trit::spec_from_char(s@[k]) is Some,
        decreases total - j,
    {
        let c = s.get_char(j);
        match Trit::from_char(c) {
            Ok(u) => {},
            Err(e) => {
                proof {
                    assert(Trit::spec_from_char(s@[j as int]) is None);
                }
                return Err(e);
            },
        }
        j = j + 1;
    }
    let mut i: usize = 0;
    while i < total
        invariant
            i <= total,
            total == 6 * v@.len(),
            v@.len() == old(v)@.len(),
            total == s@.len(),
            total == 6 * old(v)@.len(),
            forall|k: int| 0 <= k < total ==> Trit::spec_from_char(s@[k]) is Some,
            forall|k: int|
                0 <= k < i ==> Some(trit_of(v@, k)) == Trit::spec_from_char(s@[total - 1 - k]),
        decreases total - i,
    {
        let c = s.get_char(total - 1 - i);
        let t = match Trit::from_char(c) {
            Ok(t) => t,
            Err(u) => {
                proof {
                    assert(false);
                }
                Trit::Zero
            },
        };
        set_trit(v, i, t);
        i = i + 1;
    }
    Ok(())
}

/// The trit string of the vector, most significant digit first.
pub fn write_trits(v: &Vec<Tryte>) -> (r: String)
    requires
        v@.len() <= 0x100_0000,
    ensures
        r@.len() == 6 * v@.len(),
        forall|j: int|
            0 <= j < 6 * v@.len() ==> r@[j] == trit_of(v@, 6 * v@.len() - 1 - j).spec_char(),
{
    let total = 6 * v.len();
    let mut out = String::new();
    let mut j: usize = 0;
    while j < total
        invariant
            j <= total,
            total == 6 * v@.len(),
            out@.len() == j,
            forall|k: int| 0 <= k < j ==> out@[k] == trit_of(v@, total - 1 - k).spec_char(),
        decreases total - j,
    {
        let t = get_trit(v, total - 1 - j);
        crate::strutil::push_char(&mut out, t.to_char());
        j = j + 1;
    }
    out
}

/// Rendering a vector as a trit string and parsing the string back yields
/// the vector's own digits: the two text forms are mutually inverse.
pub proof fn lemma_trit_str_round_trip(v: Seq<Tryte>, s: Seq<char>)
    requires
        s.len() == 6 * v.len(),
        forall|j: int| 0 <= j < s.len() ==> s[j] == trit_of(v, 6 * v.len() - 1 - j).spec_char(),
    ensures
        forall|i: int|
            0 <= i < 6 * v.len() ==> Trit::spec_from_char(s[6 * v.len() - 1 - i]) == Some(
                trit_of(v, i),
            ),
{
}

/// Fill the vector from a hyte string, most significant tryte first, two
/// characters per tryte. Succeeds exactly when the length matches and
/// every character belongs to the alphabet; on failure the vector is
/// untouched.
pub fn read_hytes(v: &mut Vec<Tryte>, s: &str) -> (r: Result<(), Error>)
    requires
        old(v)@.len() <= 0x100_0000,
    ensures
        final(v)@.len() == old(v)@.len(),
        r is Ok <==> s@.len() == 2 * old(v)@.len() && (forall|k: int|
            0 <= k < old(v)@.len() ==> (#[trigger] Tryte::spec_from_hyte_chars(
                s@[2 * k],
                s@[2 * k + 1],
            )) is Some),
        match r {
            Ok(u) => forall|k: int|
                0 <= k < old(v)@.len() ==> Some(final(v)@[old(v)@.len() - 1 - k])
                    == #[trigger] Tryte::spec_from_hyte_chars(s@[2 * k], s@[2 * k + 1]),
            Err(e) => final(v)@ == old(v)@ && (if s@.len() != 2 * old(v)@.len() {
                e == Error::InvalidDataLength((2 * old(v)@.len()) as usize, s@.len() as usize)
            } else {
                exists|j: int| 0 <= j < s@.len() && e == Error::InvalidCharacter(s@[j])
            }),
        },
{
    let len = v.len();
    let n = s.unicode_len();
    if n != 2 * len {
        return Err(Error::InvalidDataLength(2 * len, n));
    }
    let mut tmp: Vec<Tryte> = Vec::new();
    let mut k: usize = 0;
    while k < len
        invariant
            k <= len,
            len <= 0x100_0000,
            s@.len() == 2 * len,
            len == v@.len(),
            v@ == old(v)@,
            tmp@.len() == k,
            forall|q: int|
                0 <= q < k ==> Some(tmp@[q]) == #[trigger] Tryte::spec_from_hyte_chars(
                    s@[2 * q],
                    s@[2 * q + 1],
                ),
        decreases len - k,
    {
        let hc = s.get_char(2 * k);
        let lc = s.get_char(2 * k + 1);
        let t = match Tryte::from_hyte_chars(hc, lc) {
            Ok(t) => t,
            Err(e) => {
                proof {
                    assert((#[trigger] Tryte::spec_from_hyte_chars(
                        s@[2 * (k as int)],
                        s@[2 * (k as int) + 1],
                    )) is None);
                    if crate::hyte::spec_hyte_from_char(s@[2 * (k as int)]) is None {
                        assert(e == Error::InvalidCharacter(s@[2 * (k as int)]));
                    } else {
                        assert(e == Error::InvalidCharacter(s@[2 * (k as int) + 1]));
                    }
                }
                return Err(e);
            },
        };
        tmp.push(t);
        k = k + 1;
    }
    let mut q: usize = 0;
    while q < len
        invariant
            q <= len,
            v@.len() == len,
            len == old(v)@.len(),
            tmp@.len() == len,
            s@.len() == 2 * len,
            forall|w: int|
                0 <= w < len ==> Some(tmp@[w]) == #[trigger] Tryte::spec_from_hyte_chars(
                    s@[2 * w],
                    s@[2 * w + 1],
                ),
            forall|w: int|
                0 <= w < q ==> Some(v@[len - 1 - w]) == #[trigger] Tryte::spec_from_hyte_chars(
                    s@[2 * w],
                    s@[2 * w + 1],
                ),
        decreases len - q,
    {
        v.set(len - 1 - q, tmp[q]);
        q = q + 1;
    }
    Ok(())
}

/// The hyte string of the vector: most significant tryte first, high hyte
/// before low hyte within each tryte.
pub fn write_hytes(v: &Vec<Tryte>) -> (r: String)
    requires
        v@.len() <= 0x100_0000,
    ensures
        r@.len() == 2 * v@.len(),
        forall|k: int|
            0 <= k < v@.len() ==> #[trigger] r@[2 * k] == crate::hyte::spec_char_from_hyte(
                v@[v@.len() - 1 - k].high_hyte_val() as u8,
            ) && r@[2 * k + 1] == crate::hyte::spec_char_from_hyte(
                v@[v@.len() - 1 - k].low_hyte_val() as u8,
            ),
{
    let len = v.len();
    let mut out = String::new();
    let mut k: usize = 0;
    while k < len
        invariant
            k <= len,
            len <= 0x100_0000,
            v@.len() == len,
            out@.len() == 2 * k,
            forall|q: int|
                0 <= q < k ==> #[trigger] out@[2 * q] == crate::hyte::spec_char_from_hyte(
                    v@[len - 1 - q].high_hyte_val() as u8,
                ) && out@[2 * q + 1] == crate::hyte::spec_char_from_hyte(
                    v@[len - 1 - q].low_hyte_val() as u8,
                ),
        decreases len - k,
    {
        let ghost prev = out@;
        let t = v[len - 1 - k];
        crate::strutil::push_char(&mut out, crate::hyte::char_from_hyte(t.high_hyte()));
        crate::strutil::push_char(&mut out, crate::hyte::char_from_hyte(t.low_hyte()));
        proof {
            assert forall|q: int| 0 <= q < k + 1 implies (#[trigger] out@[2 * q])
                == crate::hyte::spec_char_from_hyte(v@[len - 1 - q].high_hyte_val() as u8)
                && out@[2 * q + 1] == crate::hyte::spec_char_from_hyte(
                v@[len - 1 - q].low_hyte_val() as u8,
            ) by {
                if q < k {
                    assert(out@[2 * q] == prev[2 * q]);
                    assert(out@[2 * q + 1] == prev[2 * q + 1]);
                } else {
                    assert(out@[2 * q] == crate::hyte::spec_char_from_hyte(
                        t.high_hyte_val() as u8,
                    ));
                    assert(out@[2 * q + 1] == crate::hyte::spec_char_from_hyte(
                        t.low_hyte_val() as u8,
                    ));
                }
            }
        }
        k = k + 1;
    }
    out
}

/// Rendering a vector as a hyte string and parsing the string back yields
/// the vector's own trytes: the two hyte forms are mutually inverse.
pub proof fn lemma_hyte_str_round_trip(v: Seq<Tryte>, s: Seq<char>)
    requires
        s.len() == 2 * v.len(),
        forall|k: int|
            0 <= k < v.len() ==> #[trigger] s[2 * k] == crate::hyte::spec_char_from_hyte(
                v[v.len() - 1 - k].high_hyte_val() as u8,
            ) && s[2 * k + 1] == crate::hyte::spec_char_from_hyte(
                v[v.len() - 1 - k].low_hyte_val() as u8,
            ),
    ensures
        forall|k: int|
            0 <= k < v.len() ==> #[trigger] Tryte::spec_from_hyte_chars(s[2 * k], s[2 * k + 1])
                == Some(v[v.len() - 1 - k]),
{
    assert forall|k: int| 0 <= k < v.len() implies #[trigger] Tryte::spec_from_hyte_chars(
        s[2 * k],
        s[2 * k + 1],
    ) == Some(v[v.len() - 1 - k]) by {
        let t = v[v.len() - 1 - k];
        t.lemma_hyte_pack_round_trip();
        crate::hyte::lemma_hyte_char_round_trip(t.high_hyte_val() as u8);
        crate::hyte::lemma_hyte_char_round_trip(t.low_hyte_val() as u8);
    }
}

/// Bytes `2q` and `2q+1` of an image are the serialized form of tryte `q`
/// of a vector.
pub open spec fn byte_pair_of(bytes: Seq<u8>, v: Seq<Tryte>, q: int) -> bool {
    bytes[2 * q] == v[q].low_byte_val() && bytes[2 * q + 1] == v[q].high_byte_val()
}

/// Bytes `2q` and `2q+1` of an image form a well-formed tryte.
pub open spec fn byte_pair_valid(bytes: Seq<u8>, q: int) -> bool {
    Tryte::bytes_valid(bytes[2 * q], bytes[2 * q + 1])
}

/// The tryte carried by bytes `2q` and `2q+1` of an image.
pub open spec fn byte_pair_tryte(bytes: Seq<u8>, q: int) -> Tryte {
    Tryte::spec_from_bytes(bytes[2 * q], bytes[2 * q + 1])
}

/// Fill the vector from its byte image: two little-endian bytes per tryte,
/// least significant tryte first. Succeeds exactly when the length matches
/// and every field is legal; on failure the vector is untouched.
pub fn read_bytes(v: &mut Vec<Tryte>, bytes: &Vec<u8>) -> (r: Result<(), Error>)
    requires
        old(v)@.len() <= 0x100_0000,
    ensures
        final(v)@.len() == old(v)@.len(),
        r is Ok <==> bytes@.len() == 2 * old(v)@.len() && (forall|k: int|
            0 <= k < old(v)@.len() ==> #[trigger] byte_pair_valid(bytes@, k)),
        match r {
            Ok(u) => forall|k: int|
                0 <= k < old(v)@.len() ==> #[trigger] final(v)@[k] == byte_pair_tryte(bytes@, k),
            Err(e) => final(v)@ == old(v)@ && (if bytes@.len() != 2 * old(v)@.len() {
                e == Error::InvalidDataLength((2 * old(v)@.len()) as usize, bytes@.len() as usize)
            } else {
                e matches Error::InvalidBitPattern(u)
            }),
        },
{
    let len = v.len();
    if bytes.len() != 2 * len {
        return Err(Error::InvalidDataLength(2 * len, bytes.len()));
    }
    let mut tmp: Vec<Tryte> = Vec::new();
    let mut k: usize = 0;
    while k < len
        invariant
            k <= len,
            len <= 0x100_0000,
            bytes@.len() == 2 * len,
            len == v@.len(),
            v@ == old(v)@,
            tmp@.len() == k,
            forall|q: int| 0 <= q < k ==> #[trigger] byte_pair_valid(bytes@, q),
            forall|q: int| 0 <= q < k ==> #[trigger] tmp@[q] == byte_pair_tryte(bytes@, q),
        decreases len - k,
    {
        let lo = bytes[2 * k];
        let hi = bytes[2 * k + 1];
        let t = match Tryte::from_bytes(lo, hi) {
            Ok(t) => t,
            Err(e) => {
                proof {
                    assert(!(#[trigger] byte_pair_valid(bytes@, k as int)));
                }
                return Err(e);
            },
        };
        tmp.push(t);
        proof {
            assert(byte_pair_valid(bytes@, k as int));
            assert(tmp@[k as int] == byte_pair_tryte(bytes@, k as int));
        }
        k = k + 1;
    }
    let mut q: usize = 0;
    while q < len
        invariant
            q <= len,
            v@.len() == len,
            len == old(v)@.len(),
            tmp@.len() == len,
            bytes@.len() == 2 * len,
            forall|w: int| 0 <= w < len ==> #[trigger] byte_pair_valid(bytes@, w),
            forall|w: int| 0 <= w < len ==> #[trigger] tmp@[w] == byte_pair_tryte(bytes@, w),
            forall|w: int| 0 <= w < q ==> #[trigger] v@[w] == byte_pair_tryte(bytes@, w),
        decreases len - q,
    {
        v.set(q, tmp[q]);
        q = q + 1;
    }
    Ok(())
}

/// The byte image of the vector: two little-endian bytes per tryte.
pub fn write_bytes(v: &Vec<Tryte>) -> (r: Vec<u8>)
    requires
        v@.len() <= 0x100_0000,
    ensures
        r@.len() == 2 * v@.len(),
        forall|k: int| 0 <= k < v@.len() ==> #[trigger] byte_pair_of(r@, v@, k),
{
    let len = v.len();
    let mut out: Vec<u8> = Vec::new();
    let mut k: usize = 0;
    while k < len
        invariant
            k <= len,
            len <= 0x100_0000,
            v@.len() == len,
            out@.len() == 2 * k,
            forall|q: int| 0 <= q < k ==> #[trigger] byte_pair_of(out@, v@, q),
        decreases len - k,
    {
        let ghost prev = out@;
        let (lo, hi) = v[k].write_bytes();
        out.push(lo);
        out.push(hi);
        proof {
            assert forall|q: int| 0 <= q < k + 1 implies #[trigger] byte_pair_of(
                out@,
                v@,
                q,
            ) by {
                if q < k {
                    assert(byte_pair_of(prev, v@, q));
                    assert(out@[2 * q] == prev[2 * q]);
                    assert(out@[2 * q + 1] == prev[2 * q + 1]);
                } else {
                    assert(out@[2 * q] == lo);
                    assert(out@[2 * q + 1] == hi);
                }
            }
        }
        k = k + 1;
    }
    out
}

/// Writing a vector's byte image and reading it back yields the vector's
/// own trytes: the byte codec is bijective on well-formed images.
pub proof fn lemma_byte_round_trip(v: Seq<Tryte>, bytes: Seq<u8>)
    requires
        bytes.len() == 2 * v.len(),
        forall|k: int| 0 <= k < v.len() ==> #[trigger] byte_pair_of(bytes, v, k),
    ensures
        forall|k: int| 0 <= k < v.len() ==> #[trigger] byte_pair_valid(bytes, k),
        forall|k: int| 0 <= k < v.len() ==> #[trigger] byte_pair_tryte(bytes, k) == v[k],
{
    assert forall|k: int| 0 <= k < v.len() implies #[trigger] byte_pair_valid(bytes, k) by {
        assert(byte_pair_of(bytes, v, k));
        v[k].lemma_byte_pack_round_trip();
    }
    assert forall|k: int| 0 <= k < v.len() implies #[trigger] byte_pair_tryte(bytes, k)
        == v[k] by {
        assert(byte_pair_of(bytes, v, k));
        v[k].lemma_byte_pack_round_trip();
    }
}

/// A vector whose value is small has zeros in all of its high trit
/// positions, and its low trits alone carry the value.
pub proof fn lemma_high_trits_zero(s: Seq<Tryte>, k: int)
    requires
        0 <= k <= 6 * s.len(),
        -(pow(3, k as nat) - 1) <= 2 * value_of(s) <= pow(3, k as nat) - 1,
    ensures
        forall|j: int| k <= j < 6 * s.len() ==> trit_of(s, j) == Trit::Zero,
        value_upto(s, k) == value_of(s),
{
    lemma_high_trits_zero_upto(s, k, 6 * s.len() as int);
}

proof fn lemma_high_trits_zero_upto(s: Seq<Tryte>, k: int, n: int)
    requires
        0 <= k <= n <= 6 * s.len(),
        -(pow(3, k as nat) - 1) <= 2 * value_upto(s, n) <= pow(3, k as nat) - 1,
    ensures
        forall|j: int| k <= j < n ==> trit_of(s, j) == Trit::Zero,
        value_upto(s, k) == value_upto(s, n),
    decreases n - k,
{
    if n > k {
        let p: int = pow(3, (n - 1) as nat);
        let t: int = trit_of(s, n - 1).val();
        lemma_value_upto_bound(s, n - 1);
        lemma_pow_positive(3, (n - 1) as nat);
        vstd::arithmetic::power::lemma_pow_increases(3, k as nat, (n - 1) as nat);
        if t != 0 {
            assert(t * p >= p || t * p <= -p) by (nonlinear_arith)
                requires
                    t == 1 || t == -1,
                    p >= 1,
            ;
            assert(false);
        }
        assert(t * p == 0) by (nonlinear_arith)
            requires
                t == 0,
        ;
        lemma_high_trits_zero_upto(s, k, n - 1);
    }
}

/// The value of a four-tryte word, tryte by tryte.
pub proof fn lemma_word_tryte_values(s: Seq<Tryte>)
    requires
        s.len() == 4,
    ensures
        value_of(s) == s[0].value() + 729 * s[1].value() + 531441 * s[2].value() + 387420489
            * s[3].value(),
{
    reveal_with_fuel(pow, 2);
    reveal_with_fuel(value_upto, 2);
    lemma_pow3_words();
    lemma_value_chunk(s, 0);
    lemma_value_chunk(s, 1);
    lemma_value_chunk(s, 2);
    lemma_value_chunk(s, 3);
    let v1: int = s[1].value();
    let v2: int = s[2].value();
    let v3: int = s[3].value();
    assert(v1 * 729 == 729 * v1) by (nonlinear_arith);
    assert(v2 * 531441 == 531441 * v2) by (nonlinear_arith);
    assert(v3 * 387420489 == 387420489 * v3) by (nonlinear_arith);
}

/// A tryte whose six trit positions all read zero has value zero.
pub proof fn lemma_tryte_zero_trits(s: Seq<Tryte>, k: int)
    requires
        0 <= k < s.len(),
        forall|j: int| 6 * k <= j < 6 * k + 6 ==> trit_of(s, j) == Trit::Zero,
    ensures
        s[k].value() == 0,
        s[k] == Tryte::spec_zero(),
{
    assert forall|j: int| 0 <= j < 6 implies s[k].trit(j) == Trit::Zero by {
        lemma_fundamental_div_mod_converse(6 * k + j, 6, k, j);
        assert(trit_of(s, 6 * k + j) == Trit::Zero);
    }
    assert(s[k].trit(0) == Trit::Zero && s[k].trit(1) == Trit::Zero && s[k].trit(2) == Trit::Zero
        && s[k].trit(3) == Trit::Zero && s[k].trit(4) == Trit::Zero && s[k].trit(5) == Trit::Zero);
}

/// The value of an eight-tryte double word splits at the word boundary:
/// the low four trytes plus the high four trytes scaled by `pow(3, 24)`.
#[verifier::rlimit(100)]
pub proof fn lemma_split_word8(s: Seq<Tryte>)
    requires
        s.len() == 8,
    ensures
        value_of(s) == value_of(s.subrange(0, 4)) + pow(3, 24) * value_of(s.subrange(4, 8)),
{
    reveal_with_fuel(pow, 2);
    reveal_with_fuel(value_upto, 2);
    lemma_pow3_words();
    let lo = s.subrange(0, 4);
    let hi = s.subrange(4, 8);
    lemma_word_tryte_values(lo);
    lemma_word_tryte_values(hi);
    lemma_value_chunk(s, 0);
    lemma_value_chunk(s, 1);
    lemma_value_chunk(s, 2);
    lemma_value_chunk(s, 3);
    lemma_value_chunk(s, 4);
    lemma_value_chunk(s, 5);
    lemma_value_chunk(s, 6);
    lemma_value_chunk(s, 7);
    assert(pow(3, 30) == pow(3, 24) * 729) by {
        lemma_pow_adds(3, 24, 6);
    }
    assert(pow(3, 36) == pow(3, 24) * 531441) by {
        lemma_pow_adds(3, 24, 12);
    }
    assert(pow(3, 42) == pow(3, 24) * 387420489) by {
        lemma_pow_adds(3, 24, 18);
        lemma_pow_adds(3, 6, 12);
    }
    let p24: int = pow(3, 24);
    let v4: int = s[4].value();
    let v5: int = s[5].value();
    let v6: int = s[6].value();
    let v7: int = s[7].value();
    assert(v4 * p24 == p24 * v4) by (nonlinear_arith);
    assert(v5 * (p24 * 729) == p24 * (729 * v5)) by (nonlinear_arith);
    assert(v6 * (p24 * 531441) == p24 * (531441 * v6)) by (nonlinear_arith);
    assert(v7 * (p24 * 387420489) == p24 * (387420489 * v7)) by (nonlinear_arith);
    assert(p24 * v4 + p24 * (729 * v5) + p24 * (531441 * v6) + p24 * (387420489 * v7) == p24 * (v4
        + 729 * v5 + 531441 * v6 + 387420489 * v7)) by (nonlinear_arith);
}

/// A tryte-aligned subrange sees the same trits, shifted down by six per
/// tryte.
pub proof fn lemma_subrange_trits(s: Seq<Tryte>, a: int, b: int)
    requires
        0 <= a <= b <= s.len(),
    ensures
        forall|j: int|
            0 <= j < 6 * (b - a) ==> trit_of(s.subrange(a, b), j) == trit_of(s, 6 * a + j),
{
    assert forall|j: int| 0 <= j < 6 * (b - a) implies trit_of(s.subrange(a, b), j) == trit_of(
        s,
        6 * a + j,
    ) by {
        lemma_fundamental_div_mod(j, 6);
        lemma_fundamental_div_mod_converse(6 * a + j, 6, a + j / 6, j % 6);
    }
}

/// Zero trits above position `k` contribute nothing to the value.
pub proof fn lemma_value_zero_above(s: Seq<Tryte>, k: int, n: int)
    requires
        0 <= k <= n,
        forall|j: int| k <= j < n ==> trit_of(s, j) == Trit::Zero,
    ensures
        value_upto(s, n) == value_upto(s, k),
    decreases n - k,
{
    if n > k {
        lemma_value_zero_above(s, k, n - 1);
        assert(trit_of(s, n - 1).val() * pow(3, (n - 1) as nat) == 0) by (nonlinear_arith)
            requires
                trit_of(s, n - 1).val() == 0,
        ;
    }
}

/// Quotient and remainder of truncated division: the quotient is rounded
/// toward zero and the remainder carries the dividend's sign. The law
/// `q * b + r == a` holds exactly, with `|r| < |b|`.
pub fn div_rem(a: i64, b: i64) -> (r: (i64, i64))
    requires
        a != i64::MIN,
        b != i64::MIN,
        b != 0,
    ensures
        r.0 * b + r.1 == a,
        (if r.1 >= 0 {
            r.1 as int
        } else {
            -(r.1 as int)
        }) < (if b >= 0 {
            b as int
        } else {
            -(b as int)
        }),
        r.1 == 0 || sgn(r.1 as int) == sgn(a as int),
        (if r.0 >= 0 {
            r.0 as int
        } else {
            -(r.0 as int)
        }) <= (if a >= 0 {
            a as int
        } else {
            -(a as int)
        }),
{
    let ua: u64 = if a < 0 {
        (-a) as u64
    } else {
        a as u64
    };
    let ub: u64 = if b < 0 {
        (-b) as u64
    } else {
        b as u64
    };
    let q0: u64 = ua / ub;
    let r0: u64 = ua % ub;
    proof {
        assert(ua == ub * (ua / ub) + ua % ub) by {
            vstd::arithmetic::div_mod::lemma_fundamental_div_mod(ua as int, ub as int);
        }
        assert(ub * q0 <= ua) by (nonlinear_arith)
            requires
                ub * q0 + r0 == ua,
                r0 >= 0,
        ;
        assert(q0 <= ua) by (nonlinear_arith)
            requires
                ub * q0 <= ua,
                ub >= 1,
                q0 >= 0,
        ;
    }
    let q: i64 = if (a < 0) != (b < 0) {
        -(q0 as i64)
    } else {
        q0 as i64
    };
    let rem: i64 = if a < 0 {
        -(r0 as i64)
    } else {
        r0 as i64
    };
    proof {
        let ai: int = a as int;
        let bi: int = b as int;
        let qi: int = q as int;
        let ri: int = rem as int;
        assert(qi * bi + ri == ai) by (nonlinear_arith)
            requires
                (ub as int) * (q0 as int) + (r0 as int) == (ua as int),
                ua as int == (if ai >= 0 {
                    ai
                } else {
                    -ai
                }),
                ub as int == (if bi >= 0 {
                    bi
                } else {
                    -bi
                }),
                qi == (if (ai < 0) != (bi < 0) {
                    -(q0 as int)
                } else {
                    q0 as int
                }),
                ri == (if ai < 0 {
                    -(r0 as int)
                } else {
                    r0 as int
                }),
                bi != 0,
        ;
    }
    (q, rem)
}

/// The scalar comparison is a total order: for any two values exactly one
/// of less, equal and greater holds, and the order is transitive. Stated
/// over the sign that [`compare`] returns.
pub proof fn lemma_compare_trichotomy(a: int, b: int)
    ensures
        sgn(a - b) == -1 <==> a < b,
        sgn(a - b) == 0 <==> a == b,
        sgn(a - b) == 1 <==> a > b,
        (sgn(a - b) == -1 || sgn(a - b) == 0 || sgn(a - b) == 1),
{
}

/// Transitivity of the scalar comparison.
pub proof fn lemma_compare_transitive(a: int, b: int, c: int)
    requires
        sgn(a - b) == 1,
        sgn(b - c) == 1,
    ensures
        sgn(a - c) == 1,
{
}

/// Negate `src` digitwise into `dest`.
pub fn negate(dest: &mut Vec<Tryte>, src: &Vec<Tryte>)
    requires
        old(dest)@.len() == src@.len(),
    ensures
        final(dest)@.len() == src@.len(),
        forall|j: int|
            0 <= j < 6 * src@.len() ==> trit_of(final(dest)@, j).val() == -trit_of(src@, j).val(),
        value_of(final(dest)@) == -value_of(src@),
{
    let n = src.len();
    let mut i: usize = 0;
    while i < n
        invariant
            i <= n,
            dest@.len() == n,
            src@.len() == n,
            forall|k: int| 0 <= k < i ==> dest@[k] == src@[k].spec_neg(),
        decreases n - i,
    {
        let t = src[i].negate();
        dest.set(i, t);
        i = i + 1;
    }
    proof {
        assert forall|j: int| 0 <= j < 6 * src@.len() implies trit_of(dest@, j).val() == -trit_of(
            src@,
            j,
        ).val() by {
            lemma_fundamental_div_mod(j, 6);
        }
        lemma_value_neg(dest@, src@, 6 * src@.len() as int);
    }
}

} // verus!
