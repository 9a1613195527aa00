//! The register file: 24 standard registers with fixed roles and 4 system
//! registers, each holding one 24-trit word.

use vstd::prelude::*;

verus! {

use crate::error::Error;
use crate::opcodes::{spec_selector_payload, spec_trit4_value, trit4_value, value_payload};
use crate::ternary::{value_of, zero_trytes};
use crate::tryte::Tryte;

/// A name for one slot of the register file.
pub trait Register: Sized {
    /// The slot this register occupies in the register file.
    spec fn file_index(self) -> int;

    /// The slot as executable code.
    fn into_index(self) -> (r: usize)
        ensures
            r == self.file_index(),
            0 <= r < 28,
    ;
}

/// One of the 24 standard registers. ZERO always reads as zero; LO and HI
/// receive the low and high parts of wide results; SP and FP are the
/// conventional stack and frame pointers; RA is the return address
/// written by the call instructions; the rest are general.
#[derive(Clone, Copy, Debug, PartialEq, Eq, Structural)]
pub enum StandardRegister {
    Zero,
    Lo,
    Hi,
    Sp,
    Fp,
    Ra,
    A0,
    A1,
    A2,
    A3,
    A4,
    A5,
    S0,
    S1,
    S2,
    S3,
    S4,
    S5,
    T0,
    T1,
    T2,
    T3,
    T4,
    T5,
}

impl StandardRegister {
    /// The slot of this register in the register file.
    pub open spec fn index_spec(self) -> int {
        match self {
            StandardRegister::Zero => 0,
            StandardRegister::Lo => 1,
            StandardRegister::Hi => 2,
            StandardRegister::Sp => 3,
            StandardRegister::Fp => 4,
            StandardRegister::Ra => 5,
            StandardRegister::A0 => 6,
            StandardRegister::A1 => 7,
            StandardRegister::A2 => 8,
            StandardRegister::A3 => 9,
            StandardRegister::A4 => 10,
            StandardRegister::A5 => 11,
            StandardRegister::S0 => 12,
            StandardRegister::S1 => 13,
            StandardRegister::S2 => 14,
            StandardRegister::S3 => 15,
            StandardRegister::S4 => 16,
            StandardRegister::S5 => 17,
            StandardRegister::T0 => 18,
            StandardRegister::T1 => 19,
            StandardRegister::T2 => 20,
            StandardRegister::T3 => 21,
            StandardRegister::T4 => 22,
            StandardRegister::T5 => 23,
        }
    }

    /// The register in the given register-file slot.
    pub open spec fn spec_from_index(i: int) -> StandardRegister {
        if i == 0 {
            StandardRegister::Zero
        } else if i == 1 {
            StandardRegister::Lo
        } else if i == 2 {
            StandardRegister::Hi
        } else if i == 3 {
            StandardRegister::Sp
        } else if i == 4 {
            StandardRegister::Fp
        } else if i == 5 {
            StandardRegister::Ra
        } else if i == 6 {
            StandardRegister::A0
        } else if i == 7 {
            StandardRegister::A1
        } else if i == 8 {
            StandardRegister::A2
        } else if i == 9 {
            StandardRegister::A3
        } else if i == 10 {
            StandardRegister::A4
        } else if i == 11 {
            StandardRegister::A5
        } else if i == 12 {
            StandardRegister::S0
        } else if i == 13 {
            StandardRegister::S1
        } else if i == 14 {
            StandardRegister::S2
        } else if i == 15 {
            StandardRegister::S3
        } else if i == 16 {
            StandardRegister::S4
        } else if i == 17 {
            StandardRegister::S5
        } else if i == 18 {
            StandardRegister::T0
        } else if i == 19 {
            StandardRegister::T1
        } else if i == 20 {
            StandardRegister::T2
        } else if i == 21 {
            StandardRegister::T3
        } else if i == 22 {
            StandardRegister::T4
        } else {
            StandardRegister::T5
        }
    }

    /// The register in the given register-file slot, as executable code.
    pub fn from_index(i: usize) -> (r: StandardRegister)
        requires
            i < 24,
        ensures
            r == StandardRegister::spec_from_index(i as int),
            r.index_spec() == i,
    {
        match i {
            0 => StandardRegister::Zero,
            1 => StandardRegister::Lo,
            2 => StandardRegister::Hi,
            3 => StandardRegister::Sp,
            4 => StandardRegister::Fp,
            5 => StandardRegister::Ra,
            6 => StandardRegister::A0,
            7 => StandardRegister::A1,
            8 => StandardRegister::A2,
            9 => StandardRegister::A3,
            10 => StandardRegister::A4,
            11 => StandardRegister::A5,
            12 => StandardRegister::S0,
            13 => StandardRegister::S1,
            14 => StandardRegister::S2,
            15 => StandardRegister::S3,
            16 => StandardRegister::S4,
            17 => StandardRegister::S5,
            18 => StandardRegister::T0,
            19 => StandardRegister::T1,
            20 => StandardRegister::T2,
            21 => StandardRegister::T3,
            22 => StandardRegister::T4,
            _ => StandardRegister::T5,
        }
    }

    /// Decode a packed four-trit selector into a standard register, in
    /// register-file order (ZERO, LO, HI, SP, FP, RA, then the general
    /// registers). Note that the instruction form's operand fields use a
    /// different selector order, with RA encoded last: see
    /// [`crate::operands::spec_isa_register`].
    pub fn from_trit4(trit4: u8) -> (r: Result<StandardRegister, Error>)
        ensures
            match r {
                Ok(reg) => spec_trit4_value(trit4) == Some(reg.index_spec()),
                Err(e) => {
                    &&& match spec_trit4_value(trit4) {
                        Some(v) => !(0 <= v < 24),
                        None => true,
                    }
                    &&& e == Error::InvalidRegister(spec_selector_payload(trit4))
                },
            },
    {
        let v = match trit4_value(trit4) {
            Some(v) => v,
            None => {
                return Err(Error::InvalidRegister(255));
            },
        };
        if v < 0 || v >= 24 {
            return Err(Error::InvalidRegister(value_payload(v)));
        }
        Ok(StandardRegister::from_index(v as usize))
    }
}

impl Register for StandardRegister {
    open spec fn file_index(self) -> int {
        self.index_spec()
    }

    fn into_index(self) -> (r: usize)
        ensures
            r == self.file_index(),
            0 <= r < 28,
    {
        match self {
            StandardRegister::Zero => 0,
            StandardRegister::Lo => 1,
            StandardRegister::Hi => 2,
            StandardRegister::Sp => 3,
            StandardRegister::Fp => 4,
            StandardRegister::Ra => 5,
            StandardRegister::A0 => 6,
            StandardRegister::A1 => 7,
            StandardRegister::A2 => 8,
            StandardRegister::A3 => 9,
            StandardRegister::A4 => 10,
            StandardRegister::A5 => 11,
            StandardRegister::S0 => 12,
            StandardRegister::S1 => 13,
            StandardRegister::S2 => 14,
            StandardRegister::S3 => 15,
            StandardRegister::S4 => 16,
            StandardRegister::S5 => 17,
            StandardRegister::T0 => 18,
            StandardRegister::T1 => 19,
            StandardRegister::T2 => 20,
            StandardRegister::T3 => 21,
            StandardRegister::T4 => 22,
            StandardRegister::T5 => 23,
        }
    }
}

/// One of the four system registers, held after the standard registers in
/// the register file.
#[derive(Clone, Copy, Debug, PartialEq, Eq, Structural)]
pub enum SystemRegister {
    Eha,
    Era,
    Ec,
    Ed,
}

impl SystemRegister {
    /// The ordinal of the system register among its own kind.
    pub open spec fn ordinal(self) -> int {
        match self {
            SystemRegister::Eha => 0,
            SystemRegister::Era => 1,
            SystemRegister::Ec => 2,
            SystemRegister::Ed => 3,
        }
    }

    /// Decode a packed four-trit selector into a system register.
    pub fn from_trit4(trit4: u8) -> (r: Result<SystemRegister, Error>)
        ensures
            match r {
                Ok(reg) => spec_trit4_value(trit4) == Some(reg.ordinal()),
                Err(e) => {
                    &&& match spec_trit4_value(trit4) {
                        Some(v) => !(0 <= v < 4),
                        None => true,
                    }
                    &&& e == Error::InvalidRegister(spec_selector_payload(trit4))
                },
            },
    {
        let v = match trit4_value(trit4) {
            Some(v) => v,
            None => {
                return Err(Error::InvalidRegister(255));
            },
        };
        match v {
            0 => Ok(SystemRegister::Eha),
            1 => Ok(SystemRegister::Era),
            2 => Ok(SystemRegister::Ec),
            3 => Ok(SystemRegister::Ed),
            _ => Err(Error::InvalidRegister(value_payload(v))),
        }
    }
}

impl Register for SystemRegister {
    open spec fn file_index(self) -> int {
        self.ordinal() + 24
    }

    fn into_index(self) -> (r: usize)
        ensures
            r == self.file_index(),
            0 <= r < 28,
    {
        match self {
            SystemRegister::Eha => 24,
            SystemRegister::Era => 25,
            SystemRegister::Ec => 26,
            SystemRegister::Ed => 27,
        }
    }
}

/// The register file: 28 words of 4 trytes each, stored flat.
pub struct RegisterFile {
    pub trytes: Vec<Tryte>,
}

impl RegisterFile {
    /// Well-formedness: one 4-tryte word per register slot.
    pub open spec fn wf(self) -> bool {
        self.trytes@.len() == 112
    }

    /// The word held by the register in the given slot.
    pub open spec fn reg_seq(self, idx: int) -> Seq<Tryte> {
        self.trytes@.subrange(4 * idx, 4 * idx + 4)
    }

    /// The value held by the register in the given slot.
    pub open spec fn reg_value(self, idx: int) -> int {
        value_of(self.reg_seq(idx))
    }

    /// A fresh register file with every register zero.
    pub fn new() -> (r: RegisterFile)
        ensures
            r.wf(),
            forall|idx: int, k: int|
                0 <= idx < 28 && 0 <= k < 4 ==> (#[trigger] r.reg_seq(idx)[k])
                    == Tryte::spec_zero(),
            forall|idx: int| 0 <= idx < 28 ==> r.reg_value(idx) == 0,
    {
        let r = RegisterFile { trytes: zero_trytes(112) };
        proof {
            assert forall|idx: int| 0 <= idx < 28 implies r.reg_value(idx) == 0 by {
                assert(forall|k: int|
                    0 <= k < r.reg_seq(idx).len() ==> r.reg_seq(idx)[k] == Tryte::spec_zero());
                crate::ternary::lemma_zero_value(r.reg_seq(idx), 24);
            }
        }
        r
    }

    /// Read the word in the given slot.
    pub fn get(&self, idx: usize) -> (w: Vec<Tryte>)
        requires
            self.wf(),
            idx < 28,
        ensures
            w@ == self.reg_seq(idx as int),
            w@.len() == 4,
    {
        let mut w: Vec<Tryte> = Vec::new();
        w.push(self.trytes[4 * idx]);
        w.push(self.trytes[4 * idx + 1]);
        w.push(self.trytes[4 * idx + 2]);
        w.push(self.trytes[4 * idx + 3]);
        proof {
            assert(w@ =~= self.reg_seq(idx as int));
        }
        w
    }

    /// Replace the word in the given slot; every other slot keeps its word.
    pub fn set(&mut self, idx: usize, w: &Vec<Tryte>)
        requires
            old(self).wf(),
            idx < 28,
            w@.len() == 4,
        ensures
            final(self).wf(),
            final(self).reg_seq(idx as int) == w@,
            forall|other: int|
                0 <= other < 28 && other != idx ==> final(self).reg_seq(other) == old(
                    self,
                ).reg_seq(other),
    {
        self.trytes.set(4 * idx, w[0]);
        self.trytes.set(4 * idx + 1, w[1]);
        self.trytes.set(4 * idx + 2, w[2]);
        self.trytes.set(4 * idx + 3, w[3]);
        proof {
            assert(self.reg_seq(idx as int) =~= w@);
            assert forall|other: int|
                0 <= other < 28 && other != idx implies self.reg_seq(other) == old(self).reg_seq(
                other,
            ) by {
                assert(self.reg_seq(other) =~= old(self).reg_seq(other));
            }
        }
    }

    /// Set the given slot back to zero.
    pub fn clear_reg(&mut self, idx: usize)
        requires
            old(self).wf(),
            idx < 28,
        ensures
            final(self).wf(),
            final(self).reg_value(idx as int) == 0,
            forall|k: int|
                0 <= k < 4 ==> final(self).reg_seq(idx as int)[k] == Tryte::spec_zero(),
            forall|other: int|
                0 <= other < 28 && other != idx ==> final(self).reg_seq(other) == old(
                    self,
                ).reg_seq(other),
    {
        let z = zero_trytes(4);
        self.set(idx, &z);
        proof {
            crate::ternary::lemma_zero_value(self.reg_seq(idx as int), 24);
        }
    }
}

} // verus!
