//! A single balanced-ternary digit and its arithmetic tables.

use vstd::prelude::*;

verus! {

use crate::ternary::Error;

/// Sign of an integer: -1, 0 or +1.
pub open spec fn sgn(n: int) -> int {
    if n < 0 {
        -1
    } else if n > 0 {
        1
    } else {
        0
    }
}

/// One balanced-ternary digit, drawn from {-1, 0, +1}.
///
/// On the wire a trit occupies two bits with the fixed encoding
/// 00 = 0, 01 = +1, 11 = -1; the pattern 10 is reserved and rejected
/// wherever raw bits enter the system.
#[derive(Clone, Copy, Debug, PartialEq, Eq, PartialOrd, Ord, Structural)]
pub enum Trit {
    Neg,
    Zero,
    Pos,
}

impl Trit {
    /// The digit as a mathematical integer.
    pub open spec fn val(self) -> int {
        match self {
            Trit::Neg => -1,
            Trit::Zero => 0,
            Trit::Pos => 1,
        }
    }

    /// The fixed two-bit encoding of the digit.
    pub open spec fn spec_bits(self) -> u8 {
        match self {
            Trit::Neg => 3,
            Trit::Zero => 0,
            Trit::Pos => 1,
        }
    }

    /// The two-bit encoding, as executable code.
    pub fn bits(self) -> (r: u8)
        ensures
            r == self.spec_bits(),
    {
        match self {
            Trit::Neg => 3,
            Trit::Zero => 0,
            Trit::Pos => 1,
        }
    }

    /// Decode a two-bit field. The reserved pattern 10 is an error, as is
    /// anything outside two bits.
    pub fn from_bits(b: u8) -> (r: Result<Trit, Error>)
        ensures
            match r {
                Ok(t) => (b == 0 || b == 1 || b == 3) && t.spec_bits() == b,
                Err(e) => !(b == 0 || b == 1 || b == 3) && e == Error::InvalidBitPattern(
                    b as u64,
                ),
            },
    {
        match b {
            0 => Ok(Trit::Zero),
            1 => Ok(Trit::Pos),
            3 => Ok(Trit::Neg),
            _ => Err(Error::InvalidBitPattern(b as u64)),
        }
    }

    /// Decode the low two bits of a four-trit selector field, rejecting the
    /// reserved pattern.
    pub fn from_trit4(trit4: u8) -> (r: Result<Trit, Error>)
        ensures
            match r {
                Ok(t) => (trit4 & 3) != 2 && t.spec_bits() == trit4 & 3,
                Err(e) => (trit4 & 3) == 2 && e == Error::InvalidBitPattern(2),
            },
    {
        let b: u8 = trit4 & 3;
        proof {
            assert(trit4 & 3 < 4) by (bit_vector);
        }
        Trit::from_bits(b)
    }

    /// The encoding viewed as a table index (0, 1 or 3).
    pub fn into_index(self) -> (r: usize)
        ensures
            r == self.spec_bits() as usize,
    {
        self.bits() as usize
    }

    /// The negated digit, as a specification value.
    pub open spec fn spec_neg(self) -> Trit {
        match self {
            Trit::Neg => Trit::Pos,
            Trit::Zero => Trit::Zero,
            Trit::Pos => Trit::Neg,
        }
    }

    /// Negation: flips the sign of the digit.
    pub fn negate(self) -> (r: Trit)
        ensures
            r == self.spec_neg(),
            r.val() == -self.val(),
    {
        match self {
            Trit::Neg => Trit::Pos,
            Trit::Zero => Trit::Zero,
            Trit::Pos => Trit::Neg,
        }
    }

    /// Ternary comparison: the sign of the difference of the two digits.
    pub fn tcmp(self, rhs: Trit) -> (r: Trit)
        ensures
            r.val() == sgn(self.val() - rhs.val()),
    {
        match (self, rhs) {
            (Trit::Neg, Trit::Neg) => Trit::Zero,
            (Trit::Neg, Trit::Zero) => Trit::Neg,
            (Trit::Neg, Trit::Pos) => Trit::Neg,
            (Trit::Zero, Trit::Neg) => Trit::Pos,
            (Trit::Zero, Trit::Zero) => Trit::Zero,
            (Trit::Zero, Trit::Pos) => Trit::Neg,
            (Trit::Pos, Trit::Neg) => Trit::Pos,
            (Trit::Pos, Trit::Zero) => Trit::Pos,
            (Trit::Pos, Trit::Pos) => Trit::Zero,
        }
    }

    /// Ternary AND: the minimum of the two digits.
    pub fn and(self, rhs: Trit) -> (r: Trit)
        ensures
            r.val() == if self.val() <= rhs.val() {
                self.val()
            } else {
                rhs.val()
            },
    {
        if self.to_i16() <= rhs.to_i16() {
            self
        } else {
            rhs
        }
    }

    /// Ternary OR: the maximum of the two digits.
    pub fn or(self, rhs: Trit) -> (r: Trit)
        ensures
            r.val() == if self.val() >= rhs.val() {
                self.val()
            } else {
                rhs.val()
            },
    {
        if self.to_i16() >= rhs.to_i16() {
            self
        } else {
            rhs
        }
    }

    /// Digit product, without carry.
    pub fn tmul(self, rhs: Trit) -> (r: Trit)
        ensures
            r.val() == self.val() * rhs.val(),
    {
        match (self, rhs) {
            (Trit::Zero, _) => Trit::Zero,
            (_, Trit::Zero) => Trit::Zero,
            (Trit::Pos, t) => t,
            (Trit::Neg, t) => t.negate(),
        }
    }

    /// Full addition of two digits and a carry-in. The pair (sum, carry-out)
    /// satisfies a + b + c_in == sum + 3 * c_out, which pins both components
    /// since each lies in {-1, 0, +1}.
    pub fn add_with_carry(self, rhs: Trit, carry_in: Trit) -> (r: (Trit, Trit))
        ensures
            r.0.val() + 3 * r.1.val() == self.val() + rhs.val() + carry_in.val(),
    {
        let s: i16 = self.to_i16() + rhs.to_i16() + carry_in.to_i16();
        match s {
            -3 => (Trit::Zero, Trit::Neg),
            -2 => (Trit::Pos, Trit::Neg),
            -1 => (Trit::Neg, Trit::Zero),
            0 => (Trit::Zero, Trit::Zero),
            1 => (Trit::Pos, Trit::Zero),
            2 => (Trit::Neg, Trit::Pos),
            _ => (Trit::Zero, Trit::Pos),
        }
    }

    /// The digit as a host integer.
    pub fn to_i16(self) -> (r: i16)
        ensures
            r == self.val(),
    {
        match self {
            Trit::Neg => -1,
            Trit::Zero => 0,
            Trit::Pos => 1,
        }
    }

    /// A digit from a host integer; anything outside -1..=1 is rejected.
    pub fn from_i16(n: i16) -> (r: Result<Trit, Error>)
        ensures
            match r {
                Ok(t) => -1 <= n <= 1 && t.val() == n,
                Err(e) => !(-1 <= n <= 1) && e == Error::IntegerOutOfBounds(-1i64, 1i64, n as i64),
            },
    {
        match n {
            -1 => Ok(Trit::Neg),
            0 => Ok(Trit::Zero),
            1 => Ok(Trit::Pos),
            _ => Err(Error::IntegerOutOfBounds(-1, 1, n as i64)),
        }
    }

    /// The printable character of the digit.
    pub open spec fn spec_char(self) -> char {
        match self {
            Trit::Neg => 'T',
            Trit::Zero => '0',
            Trit::Pos => '1',
        }
    }

    /// The printable character: 'T' for -1, '0' for 0, '1' for +1.
    pub fn to_char(self) -> (r: char)
        ensures
            r == self.spec_char(),
    {
        match self {
            Trit::Neg => 'T',
            Trit::Zero => '0',
            Trit::Pos => '1',
        }
    }

    /// The digit named by a printable character, if there is one.
    pub open spec fn spec_from_char(c: char) -> Option<Trit> {
        match c {
            'T' => Some(Trit::Neg),
            '0' => Some(Trit::Zero),
            '1' => Some(Trit::Pos),
            _ => None,
        }
    }

    /// A digit from its printable character; unknown characters are rejected.
    pub fn from_char(c: char) -> (r: Result<Trit, Error>)
        ensures
            match r {
                Ok(t) => Trit::spec_from_char(c) == Some(t) && t.spec_char() == c,
                Err(e) => Trit::spec_from_char(c) is None && e == Error::InvalidCharacter(c),
            },
    {
        match c {
            'T' => Ok(Trit::Neg),
            '0' => Ok(Trit::Zero),
            '1' => Ok(Trit::Pos),
            _ => Err(Error::InvalidCharacter(c)),
        }
    }
}

/// Negation is an involution: negating a digit twice gives the digit back.
pub proof fn lemma_trit_negation_involution(t: Trit)
    ensures
        t.spec_neg().spec_neg() == t,
{
}

} // verus!
