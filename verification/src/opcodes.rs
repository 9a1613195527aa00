//! The four-trit opcode selector of the extended instruction catalogue.

use vstd::prelude::*;

verus! {

use crate::error::Error;
use crate::trit::Trit;
use crate::tryte::spec_trit_of_bits;

/// The balanced value of a packed four-trit selector, if every two-bit
/// field holds a legal pattern.
pub open spec fn spec_trit4_value(t4: u8) -> Option<int> {
    if t4 % 4 == 2 || (t4 / 4) % 4 == 2 || (t4 / 16) % 4 == 2 || t4 / 64 == 2 {
        None
    } else {
        Some(
            spec_trit_of_bits((t4 % 4) as u8).val() + 3 * spec_trit_of_bits(
                ((t4 / 4) % 4) as u8,
            ).val() + 9 * spec_trit_of_bits(((t4 / 16) % 4) as u8).val() + 27 * spec_trit_of_bits(
                (t4 / 64) as u8,
            ).val(),
        )
    }
}

/// The payload carried by a selector error: the decoded value reduced to
/// a byte, negative values wrapping, as a signed table entry reduces.
pub open spec fn spec_value_payload(v: int) -> u8 {
    if v >= 0 {
        v as u8
    } else {
        (v + 256) as u8
    }
}

/// The payload for a whole packed selector: the decoded value's byte, or
/// 255 for a reserved bit pattern, the mark of an unassigned table entry.
pub open spec fn spec_selector_payload(t4: u8) -> u8 {
    match spec_trit4_value(t4) {
        Some(v) => spec_value_payload(v),
        None => 255,
    }
}

/// The payload of a selector error, as executable code.
pub fn value_payload(v: i8) -> (r: u8)
    requires
        -40 <= v <= 40,
    ensures
        r == spec_value_payload(v as int),
{
    if v >= 0 {
        v as u8
    } else {
        (v as i16 + 256) as u8
    }
}

/// The balanced value of a packed four-trit selector, as executable code.
pub fn trit4_value(t4: u8) -> (r: Option<i8>)
    ensures
        match r {
            Some(v) => spec_trit4_value(t4) == Some(v as int) && -40 <= v <= 40,
            None => spec_trit4_value(t4) is None,
        },
{
    let b0 = match Trit::from_bits(t4 % 4) {
        Ok(t) => t,
        Err(u) => {
            return None;
        },
    };
    let b1 = match Trit::from_bits(t4 / 4 % 4) {
        Ok(t) => t,
        Err(u) => {
            return None;
        },
    };
    let b2 = match Trit::from_bits(t4 / 16 % 4) {
        Ok(t) => t,
        Err(u) => {
            return None;
        },
    };
    let b3 = match Trit::from_bits(t4 / 64) {
        Ok(t) => t,
        Err(u) => {
            return None;
        },
    };
    let v: i16 = b0.to_i16() + 3 * b1.to_i16() + 9 * b2.to_i16() + 27 * b3.to_i16();
    Some(v as i8)
}

/// One mnemonic of the extended instruction catalogue: the selector
/// numbering that also assigns values to the system-register transfers
/// (Lsr/Ssr) and counts the jumps under Jmp/Call/Jmpr/Callr. The
/// instruction form executed by the machine is the 35-mnemonic catalogue
/// of [`crate::inst::Inst`], which drops the system-register transfers
/// and renumbers everything from LT up; this selector decode is kept as
/// the catalogue's own four-trit numbering and is not consulted by the
/// engine.
#[derive(Clone, Copy, Debug, PartialEq, Eq, Structural)]
pub enum Opcode {
    And,
    Or,
    Tmul,
    Tcmp,
    Cmp,
    Shf,
    Add,
    Mul,
    Div,
    Andi,
    Ori,
    Tmuli,
    Tcmpi,
    Shfi,
    Addi,
    Lui,
    Lsr,
    Ssr,
    Lt,
    Lh,
    Lw,
    St,
    Sh,
    Sw,
    BT,
    B0,
    B1,
    BT0,
    BT1,
    B01,
    Jmp,
    Call,
    Jmpr,
    Callr,
    Syscall,
    Break,
}

impl Opcode {
    /// The selector value of the mnemonic.
    pub open spec fn index(self) -> int {
        match self {
            Opcode::And => 0,
            Opcode::Or => 1,
            Opcode::Tmul => 2,
            Opcode::Tcmp => 3,
            Opcode::Cmp => 4,
            Opcode::Shf => 5,
            Opcode::Add => 6,
            Opcode::Mul => 7,
            Opcode::Div => 8,
            Opcode::Andi => 9,
            Opcode::Ori => 10,
            Opcode::Tmuli => 11,
            Opcode::Tcmpi => 12,
            Opcode::Shfi => 13,
            Opcode::Addi => 14,
            Opcode::Lui => 15,
            Opcode::Lsr => 16,
            Opcode::Ssr => 17,
            Opcode::Lt => 18,
            Opcode::Lh => 19,
            Opcode::Lw => 20,
            Opcode::St => 21,
            Opcode::Sh => 22,
            Opcode::Sw => 23,
            Opcode::BT => 24,
            Opcode::B0 => 25,
            Opcode::B1 => 26,
            Opcode::BT0 => 27,
            Opcode::BT1 => 28,
            Opcode::B01 => 29,
            Opcode::Jmp => 30,
            Opcode::Call => 31,
            Opcode::Jmpr => 32,
            Opcode::Callr => 33,
            Opcode::Syscall => 34,
            Opcode::Break => 35,
        }
    }

    /// Decode a packed four-trit selector into a mnemonic. A reserved bit
    /// pattern or a value outside the catalogue is rejected.
    pub fn from_trit4(trit4: u8) -> (r: Result<Opcode, Error>)
        ensures
            match r {
                Ok(op) => spec_trit4_value(trit4) == Some(op.index()),
                Err(e) => {
                    &&& match spec_trit4_value(trit4) {
                        Some(v) => !(0 <= v <= 35),
                        None => true,
                    }
                    &&& e == Error::InvalidOpcode(spec_selector_payload(trit4))
                },
            },
    {
        let v = match trit4_value(trit4) {
            Some(v) => v,
            None => {
                return Err(Error::InvalidOpcode(255));
            },
        };
        if v < 0 || v > 35 {
            return Err(Error::InvalidOpcode(value_payload(v)));
        }
        Ok(
            match v {
                0 => Opcode::And,
                1 => Opcode::Or,
                2 => Opcode::Tmul,
                3 => Opcode::Tcmp,
                4 => Opcode::Cmp,
                5 => Opcode::Shf,
                6 => Opcode::Add,
                7 => Opcode::Mul,
                8 => Opcode::Div,
                9 => Opcode::Andi,
                10 => Opcode::Ori,
                11 => Opcode::Tmuli,
                12 => Opcode::Tcmpi,
                13 => Opcode::Shfi,
                14 => Opcode::Addi,
                15 => Opcode::Lui,
                16 => Opcode::Lsr,
                17 => Opcode::Ssr,
                18 => Opcode::Lt,
                19 => Opcode::Lh,
                20 => Opcode::Lw,
                21 => Opcode::St,
                22 => Opcode::Sh,
                23 => Opcode::Sw,
                24 => Opcode::BT,
                25 => Opcode::B0,
                26 => Opcode::B1,
                27 => Opcode::BT0,
                28 => Opcode::BT1,
                29 => Opcode::B01,
                30 => Opcode::Jmp,
                31 => Opcode::Call,
                32 => Opcode::Jmpr,
                33 => Opcode::Callr,
                34 => Opcode::Syscall,
                _ => Opcode::Break,
            },
        )
    }
}

} // verus!
