//! A tryte: six balanced trits, the basic storage cell of the machine.

use vstd::prelude::*;

verus! {

use crate::hyte::{char_from_hyte, spec_char_from_hyte, spec_hyte_from_char, try_hyte_from_char, valid_hyte};
use crate::strutil::push_char;
use crate::ternary::Error;
use crate::trit::Trit;

/// Six trits, index 0 least significant. The value range is -364..=364.
///
/// On the wire a tryte occupies the low 12 bits of a 16-bit word, two bits
/// per trit; the byte codec below validates every field on input.
#[derive(Clone, Copy, Debug, PartialEq, Eq, Structural)]
pub struct Tryte {
    pub t0: Trit,
    pub t1: Trit,
    pub t2: Trit,
    pub t3: Trit,
    pub t4: Trit,
    pub t5: Trit,
}

/// The trit with the given two-bit encoding; the reserved pattern is never
/// produced by callers.
pub open spec fn spec_trit_of_bits(b: u8) -> Trit {
    if b == 1 {
        Trit::Pos
    } else if b == 3 {
        Trit::Neg
    } else {
        Trit::Zero
    }
}

impl Tryte {
    /// The trit at position `i` (0 is least significant).
    pub open spec fn trit(self, i: int) -> Trit {
        if i == 0 {
            self.t0
        } else if i == 1 {
            self.t1
        } else if i == 2 {
            self.t2
        } else if i == 3 {
            self.t3
        } else if i == 4 {
            self.t4
        } else {
            self.t5
        }
    }

    /// The tryte as a mathematical integer.
    pub open spec fn value(self) -> int {
        self.t0.val() + 3 * self.t1.val() + 9 * self.t2.val() + 27 * self.t3.val() + 81
            * self.t4.val() + 243 * self.t5.val()
    }

    /// The all-zero tryte.
    pub open spec fn spec_zero() -> Tryte {
        Tryte {
            t0: Trit::Zero,
            t1: Trit::Zero,
            t2: Trit::Zero,
            t3: Trit::Zero,
            t4: Trit::Zero,
            t5: Trit::Zero,
        }
    }

    /// The low hyte (trits 0..3), packed two bits per trit.
    pub open spec fn low_hyte_val(self) -> int {
        self.t0.spec_bits() + 4 * self.t1.spec_bits() + 16 * self.t2.spec_bits()
    }

    /// The high hyte (trits 3..6), packed two bits per trit.
    pub open spec fn high_hyte_val(self) -> int {
        self.t3.spec_bits() + 4 * self.t4.spec_bits() + 16 * self.t5.spec_bits()
    }

    /// The low byte of the serialized form: trits 0..4, two bits per trit.
    pub open spec fn low_byte_val(self) -> int {
        self.t0.spec_bits() + 4 * self.t1.spec_bits() + 16 * self.t2.spec_bits() + 64
            * self.t3.spec_bits()
    }

    /// The high byte of the serialized form: trits 4..6 in its low nibble.
    pub open spec fn high_byte_val(self) -> int {
        self.t4.spec_bits() + 4 * self.t5.spec_bits()
    }

    /// The whole 12-bit packed form.
    pub open spec fn packed_val(self) -> int {
        self.low_byte_val() + 256 * self.high_byte_val()
    }

    /// The all-zero tryte, as executable code.
    pub fn zero() -> (r: Tryte)
        ensures
            r == Tryte::spec_zero(),
    {
        Tryte {
            t0: Trit::Zero,
            t1: Trit::Zero,
            t2: Trit::Zero,
            t3: Trit::Zero,
            t4: Trit::Zero,
            t5: Trit::Zero,
        }
    }

    /// A tryte holding a single digit.
    pub fn from_trit(t: Trit) -> (r: Tryte)
        ensures
            r == (Tryte { t0: t, ..Tryte::spec_zero() }),
    {
        Tryte {
            t0: t,
            t1: Trit::Zero,
            t2: Trit::Zero,
            t3: Trit::Zero,
            t4: Trit::Zero,
            t5: Trit::Zero,
        }
    }

    /// The tryte as a single digit, if the upper five trits are zero.
    pub fn try_into_trit(self) -> (r: Result<Trit, Error>)
        ensures
            match r {
                Ok(t) => self == (Tryte { t0: t, ..Tryte::spec_zero() }),
                Err(e) => self != (Tryte { t0: self.t0, ..Tryte::spec_zero() }) && e
                    == Error::InvalidBitPattern(self.packed_val() as u64),
            },
    {
        if self.t1 == Trit::Zero && self.t2 == Trit::Zero && self.t3 == Trit::Zero && self.t4
            == Trit::Zero && self.t5 == Trit::Zero {
            Ok(self.t0)
        } else {
            Err(Error::InvalidBitPattern(self.packed() as u64))
        }
    }

    /// The trit at position `i`.
    pub fn get_trit(self, i: usize) -> (r: Trit)
        requires
            i < 6,
        ensures
            r == self.trit(i as int),
    {
        match i {
            0 => self.t0,
            1 => self.t1,
            2 => self.t2,
            3 => self.t3,
            4 => self.t4,
            _ => self.t5,
        }
    }

    /// The tryte with the trit at position `i` replaced.
    pub fn set_trit(self, i: usize, t: Trit) -> (r: Tryte)
        requires
            i < 6,
        ensures
            r.trit(i as int) == t,
            forall|j: int| 0 <= j < 6 && j != i ==> r.trit(j) == self.trit(j),
    {
        match i {
            0 => Tryte { t0: t, ..self },
            1 => Tryte { t1: t, ..self },
            2 => Tryte { t2: t, ..self },
            3 => Tryte { t3: t, ..self },
            4 => Tryte { t4: t, ..self },
            _ => Tryte { t5: t, ..self },
        }
    }

    /// The 12-bit packed form.
    pub fn packed(self) -> (r: u16)
        ensures
            r == self.packed_val(),
    {
        let lo: u16 = self.t0.bits() as u16 + 4 * self.t1.bits() as u16 + 16 * self.t2.bits()
            as u16 + 64 * self.t3.bits() as u16;
        let hi: u16 = self.t4.bits() as u16 + 4 * self.t5.bits() as u16;
        lo + 256 * hi
    }

    /// The low four trits, packed two bits per trit, as used by the opcode
    /// and register selector fields.
    pub fn low_trit4(self) -> (r: u8)
        ensures
            r == self.t0.spec_bits() + 4 * self.t1.spec_bits() + 16 * self.t2.spec_bits() + 64
                * self.t3.spec_bits(),
    {
        self.t0.bits() + 4 * self.t1.bits() + 16 * self.t2.bits() + 64 * self.t3.bits()
    }

    /// The low hyte, packed.
    pub fn low_hyte(self) -> (r: u8)
        ensures
            r == self.low_hyte_val(),
            valid_hyte(r),
    {
        self.t0.bits() + 4 * self.t1.bits() + 16 * self.t2.bits()
    }

    /// The high hyte, packed.
    pub fn high_hyte(self) -> (r: u8)
        ensures
            r == self.high_hyte_val(),
            valid_hyte(r),
    {
        self.t3.bits() + 4 * self.t4.bits() + 16 * self.t5.bits()
    }

    /// The tryte with every digit negated, as a specification value.
    pub open spec fn spec_neg(self) -> Tryte {
        Tryte {
            t0: self.t0.spec_neg(),
            t1: self.t1.spec_neg(),
            t2: self.t2.spec_neg(),
            t3: self.t3.spec_neg(),
            t4: self.t4.spec_neg(),
            t5: self.t5.spec_neg(),
        }
    }

    /// The negated tryte: every digit flips its sign, so the value flips
    /// its sign.
    #[verifier::rlimit(100)]
    #[verifier::spinoff_prover]
    pub fn negate(self) -> (r: Tryte)
        ensures
            r == self.spec_neg(),
            forall|j: int| 0 <= j < 6 ==> r.trit(j) == self.trit(j).spec_neg(),
            r.value() == -self.value(),
    {
        Tryte {
            t0: self.t0.negate(),
            t1: self.t1.negate(),
            t2: self.t2.negate(),
            t3: self.t3.negate(),
            t4: self.t4.negate(),
            t5: self.t5.negate(),
        }
    }

    /// Ripple addition with carry. The returned tryte and carry-out satisfy
    /// sum + 729 * carry_out == self + rhs + carry_in.
    pub fn add_with_carry(self, rhs: Tryte, carry: Trit) -> (r: (Tryte, Trit))
        ensures
            r.0.value() + 729 * r.1.val() == self.value() + rhs.value() + carry.val(),
    {
        let (d0, c1) = self.t0.add_with_carry(rhs.t0, carry);
        let (d1, c2) = self.t1.add_with_carry(rhs.t1, c1);
        let (d2, c3) = self.t2.add_with_carry(rhs.t2, c2);
        let (d3, c4) = self.t3.add_with_carry(rhs.t3, c3);
        let (d4, c5) = self.t4.add_with_carry(rhs.t4, c4);
        let (d5, c6) = self.t5.add_with_carry(rhs.t5, c5);
        (Tryte { t0: d0, t1: d1, t2: d2, t3: d3, t4: d4, t5: d5 }, c6)
    }

    /// Whether two little-endian bytes form a well-formed tryte: each
    /// two-bit field avoids the reserved pattern and the upper nibble of
    /// the high byte is zero.
    pub open spec fn bytes_valid(lo: u8, hi: u8) -> bool {
        &&& hi < 16
        &&& lo % 4 != 2
        &&& lo / 4 % 4 != 2
        &&& lo / 16 % 4 != 2
        &&& lo / 64 != 2
        &&& hi % 4 != 2
        &&& hi / 4 % 4 != 2
    }

    /// The tryte carried by two well-formed little-endian bytes.
    pub open spec fn spec_from_bytes(lo: u8, hi: u8) -> Tryte {
        Tryte {
            t0: spec_trit_of_bits((lo % 4) as u8),
            t1: spec_trit_of_bits((lo / 4 % 4) as u8),
            t2: spec_trit_of_bits((lo / 16 % 4) as u8),
            t3: spec_trit_of_bits((lo / 64) as u8),
            t4: spec_trit_of_bits((hi % 4) as u8),
            t5: spec_trit_of_bits((hi / 4 % 4) as u8),
        }
    }

    /// Deserialize a tryte from its two little-endian bytes. Every two-bit
    /// field must hold a legal trit pattern and the upper four bits of the
    /// 16-bit form must be zero.
    pub fn from_bytes(lo: u8, hi: u8) -> (r: Result<Tryte, Error>)
        ensures
            r is Ok <==> Tryte::bytes_valid(lo, hi),
            match r {
                Ok(t) => {
                    &&& t == Tryte::spec_from_bytes(lo, hi)
                    &&& t.low_byte_val() == lo
                    &&& t.high_byte_val() == hi
                },
                Err(e) => e == if hi >= 16 {
                    Error::InvalidBitPattern(hi as u64)
                } else {
                    Error::InvalidBitPattern(2u64)
                },
            },
    {
        if hi >= 16 {
            return Err(Error::InvalidBitPattern(hi as u64));
        }
        let t0 = Trit::from_bits(lo % 4)?;
        let t1 = Trit::from_bits(lo / 4 % 4)?;
        let t2 = Trit::from_bits(lo / 16 % 4)?;
        let t3 = Trit::from_bits(lo / 64)?;
        let t4 = Trit::from_bits(hi % 4)?;
        let t5 = Trit::from_bits(hi / 4 % 4)?;
        Ok(Tryte { t0, t1, t2, t3, t4, t5 })
    }

    /// Serialize the tryte as its two little-endian bytes.
    pub fn write_bytes(self) -> (r: (u8, u8))
        ensures
            r.0 == self.low_byte_val(),
            r.1 == self.high_byte_val(),
            r.1 < 16,
    {
        let lo: u8 = self.t0.bits() + 4 * self.t1.bits() + 16 * self.t2.bits() + 64
            * self.t3.bits();
        let hi: u8 = self.t4.bits() + 4 * self.t5.bits();
        (lo, hi)
    }

    /// The tryte assembled from two packed hytes.
    pub open spec fn spec_from_hytes(low: u8, high: u8) -> Tryte {
        Tryte {
            t0: spec_trit_of_bits((low % 4) as u8),
            t1: spec_trit_of_bits((low / 4 % 4) as u8),
            t2: spec_trit_of_bits((low / 16) as u8),
            t3: spec_trit_of_bits((high % 4) as u8),
            t4: spec_trit_of_bits((high / 4 % 4) as u8),
            t5: spec_trit_of_bits((high / 16) as u8),
        }
    }

    /// The tryte named by two hyte characters, high hyte first, if both
    /// belong to the alphabet.
    pub open spec fn spec_from_hyte_chars(high_c: char, low_c: char) -> Option<Tryte> {
        match (spec_hyte_from_char(high_c), spec_hyte_from_char(low_c)) {
            (Some(h), Some(l)) => Some(Tryte::spec_from_hytes(l, h)),
            _ => None,
        }
    }

    /// Parse a tryte from its two hyte characters, high hyte first.
    pub fn from_hyte_chars(high_c: char, low_c: char) -> (r: Result<Tryte, Error>)
        ensures
            match r {
                Ok(t) => Tryte::spec_from_hyte_chars(high_c, low_c) == Some(t),
                Err(e) => {
                    &&& Tryte::spec_from_hyte_chars(high_c, low_c) is None
                    &&& e == if spec_hyte_from_char(high_c) is None {
                        Error::InvalidCharacter(high_c)
                    } else {
                        Error::InvalidCharacter(low_c)
                    }
                },
            },
    {
        let high = try_hyte_from_char(high_c)?;
        let low = try_hyte_from_char(low_c)?;
        Ok(
            Tryte {
                t0: trit_of_valid_bits(low % 4),
                t1: trit_of_valid_bits(low / 4 % 4),
                t2: trit_of_valid_bits(low / 16),
                t3: trit_of_valid_bits(high % 4),
                t4: trit_of_valid_bits(high / 4 % 4),
                t5: trit_of_valid_bits(high / 16),
            },
        )
    }

    /// Parse a tryte from its two-character hyte form, high hyte first.
    pub fn from_hyte_str(s: &str) -> (r: Result<Tryte, Error>)
        ensures
            match r {
                Ok(t) => s@.len() == 2 && Tryte::spec_from_hyte_chars(s@[0], s@[1]) == Some(t),
                Err(e) => e == if s@.len() != 2 {
                    Error::InvalidDataLength(2usize, s@.len() as usize)
                } else if spec_hyte_from_char(s@[0]) is None {
                    Error::InvalidCharacter(s@[0])
                } else {
                    Error::InvalidCharacter(s@[1])
                },
            },
            r is Ok <==> s@.len() == 2 && Tryte::spec_from_hyte_chars(s@[0], s@[1]) is Some,
    {
        let n = s.unicode_len();
        if n != 2 {
            return Err(Error::InvalidDataLength(2, n));
        }
        let high_char = s.get_char(0);
        let low_char = s.get_char(1);
        Tryte::from_hyte_chars(high_char, low_char)
    }

    /// Serializing a tryte to bytes and reading them back gives the tryte
    /// back.
    pub proof fn lemma_byte_pack_round_trip(self)
        ensures
            Tryte::bytes_valid(self.low_byte_val() as u8, self.high_byte_val() as u8),
            Tryte::spec_from_bytes(self.low_byte_val() as u8, self.high_byte_val() as u8) == self,
    {
    }

    /// Packing the hytes of a tryte and reassembling them gives the tryte
    /// back.
    pub proof fn lemma_hyte_pack_round_trip(self)
        ensures
            Tryte::spec_from_hytes(self.low_hyte_val() as u8, self.high_hyte_val() as u8) == self,
            valid_hyte(self.low_hyte_val() as u8),
            valid_hyte(self.high_hyte_val() as u8),
    {
    }

    /// The two-character hyte form of the tryte, high hyte first.
    pub fn write_hytes(self) -> (r: String)
        ensures
            r@ == seq![
                spec_char_from_hyte(self.high_hyte_val() as u8),
                spec_char_from_hyte(self.low_hyte_val() as u8),
            ],
    {
        let mut s = String::new();
        let high_char = char_from_hyte(self.high_hyte());
        let low_char = char_from_hyte(self.low_hyte());
        push_char(&mut s, high_char);
        push_char(&mut s, low_char);
        proof {
            assert(s@ =~= seq![
                spec_char_from_hyte(self.high_hyte_val() as u8),
                spec_char_from_hyte(self.low_hyte_val() as u8),
            ]);
        }
        s
    }
}

/// The trit with the given two-bit encoding, for fields already known to be
/// legal.
fn trit_of_valid_bits(b: u8) -> (r: Trit)
    requires
        b == 0 || b == 1 || b == 3,
    ensures
        r == spec_trit_of_bits(b),
{
    if b == 1 {
        Trit::Pos
    } else if b == 3 {
        Trit::Neg
    } else {
        Trit::Zero
    }
}

} // verus!
