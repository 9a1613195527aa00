//! Operand shapes: each decoder extracts one fixed trit-level layout from
//! a 24-trit instruction word. Fields sit low trit first: the opcode in
//! trits 0..4, then the operand fields as each shape lists them.

use vstd::prelude::*;

verus! {

use crate::error::Error;
use crate::opcodes::{spec_value_payload, value_payload};
use crate::registers::StandardRegister;
use crate::ternary::{get_trit, trit_of, Error as TernaryError};
use crate::text::spec_trit_string;
use crate::trit::Trit;
use crate::tryte::Tryte;

/// A half: two trytes, twelve trits, the width of an immediate field.
#[derive(Clone, Copy, Debug, PartialEq, Eq, Structural)]
pub struct Half {
    pub lo: Tryte,
    pub hi: Tryte,
}

impl Half {
    /// The half as a mathematical integer.
    pub open spec fn value(self) -> int {
        self.lo.value() + 729 * self.hi.value()
    }
}

/// A word-sized operand payload: four trytes, little-endian.
#[derive(Clone, Copy, Debug, PartialEq, Eq, Structural)]
pub struct Word {
    pub w0: Tryte,
    pub w1: Tryte,
    pub w2: Tryte,
    pub w3: Tryte,
}

impl Word {
    /// The word as a mathematical integer.
    pub open spec fn value(self) -> int {
        self.w0.value() + 729 * self.w1.value() + 531441 * self.w2.value() + 387420489
            * self.w3.value()
    }
}

/// The balanced value of the four-trit field at position `k` of a word.
pub open spec fn field_val(w: Seq<Tryte>, k: int) -> int {
    trit_of(w, 4 * k).val() + 3 * trit_of(w, 4 * k + 1).val() + 9 * trit_of(w, 4 * k + 2).val()
        + 27 * trit_of(w, 4 * k + 3).val()
}

/// The register named by an instruction field value. The instruction form
/// orders the selectors with the link register encoded last: values 0..5
/// name ZERO, LO, HI, SP and FP, values 5..23 name A0..A5, S0..S5 and
/// T0..T5, and value 23 names RA. This differs from the register-file
/// order that the bare selector decode
/// [`crate::registers::StandardRegister::from_trit4`] uses, where RA
/// sits between FP and A0.
pub open spec fn spec_isa_register(v: int) -> StandardRegister {
    if v < 5 {
        StandardRegister::spec_from_index(v)
    } else if v < 23 {
        StandardRegister::spec_from_index(v + 1)
    } else {
        StandardRegister::spec_from_index(5)
    }
}

/// Whether the four-trit field at position `k` names a register.
pub open spec fn field_reg_ok(w: Seq<Tryte>, k: int) -> bool {
    0 <= field_val(w, k) < 24
}

/// The value of the four-trit field at position `k`, as executable code.
pub fn field_value(word: &Vec<Tryte>, k: usize) -> (v: i8)
    requires
        word@.len() == 4,
        k < 6,
    ensures
        v == field_val(word@, k as int),
        -40 <= v <= 40,
{
    let a = get_trit(word, 4 * k).to_i16();
    let b = get_trit(word, 4 * k + 1).to_i16();
    let c = get_trit(word, 4 * k + 2).to_i16();
    let d = get_trit(word, 4 * k + 3).to_i16();
    (a + 3 * b + 9 * c + 27 * d) as i8
}

/// Decode the register field at position `k`.
pub fn register_field(word: &Vec<Tryte>, k: usize) -> (r: Result<StandardRegister, Error>)
    requires
        word@.len() == 4,
        k < 6,
    ensures
        r is Ok <==> field_reg_ok(word@, k as int),
        match r {
            Ok(reg) => reg == spec_isa_register(field_val(word@, k as int)),
            Err(e) => e == Error::InvalidRegister(spec_value_payload(field_val(word@, k as int))),
        },
{
    let v = field_value(word, k);
    if v < 0 || v >= 24 {
        return Err(Error::InvalidRegister(value_payload(v)));
    }
    let i: usize = if v < 5 {
        v as usize
    } else if v < 23 {
        (v + 1) as usize
    } else {
        5
    };
    Ok(StandardRegister::from_index(i))
}

/// An operand shape that can be read out of an instruction word.
pub trait Operand: Sized {
    /// Extract this shape from a 24-trit word.
    fn from_word(word: &Vec<Tryte>) -> (r: Result<Self, Error>)
        requires
            word@.len() == 4,
    ;
}

/// No operands: the rest of the word must be zero padding.
#[derive(Clone, Copy, Debug, PartialEq, Eq, Structural)]
pub struct Empty;

impl Empty {
    /// Whether the word is all zero above the opcode field.
    pub open spec fn padding_ok(w: Seq<Tryte>) -> bool {
        forall|i: int| 4 <= i < 24 ==> trit_of(w, i) == Trit::Zero
    }

    /// Extract the empty shape, rejecting non-zero padding.
    pub fn decode(word: &Vec<Tryte>) -> (r: Result<Empty, Error>)
        requires
            word@.len() == 4,
        ensures
            r is Ok <==> Empty::padding_ok(word@),
            r matches Err(e) ==> e matches Error::Ternary(t) && t
                matches TernaryError::InvalidEncoding(m) && m@ == spec_trit_string(word@),
    {
        let mut i: usize = 4;
        while i < 24
            invariant
                4 <= i <= 24,
                word@.len() == 4,
                forall|j: int| 4 <= j < i ==> trit_of(word@, j) == Trit::Zero,
            decreases 24 - i,
        {
            let t = get_trit(word, i);
            if !(t == Trit::Zero) {
                return Err(
                    Error::Ternary(crate::text::invalid_encoding_from_trytes(word)),
                );
            }
            i = i + 1;
        }
        Ok(Empty)
    }
}

impl Operand for Empty {
    fn from_word(word: &Vec<Tryte>) -> (r: Result<Empty, Error>)
        ensures
            r is Ok <==> Empty::padding_ok(word@),
    {
        Empty::decode(word)
    }
}

/// One source register.
#[derive(Clone, Copy, Debug, PartialEq, Eq, Structural)]
pub struct R {
    pub src: StandardRegister,
}

impl R {
    /// Whether the word's fields decode to this shape.
    pub open spec fn spec_ok(w: Seq<Tryte>) -> bool {
        field_reg_ok(w, 1)
    }

    /// The decoded shape, when the field names a register.
    pub open spec fn spec_decode(w: Seq<Tryte>) -> R {
        R { src: spec_isa_register(field_val(w, 1)) }
    }

    /// Extract a source register from field 1.
    pub fn decode(word: &Vec<Tryte>) -> (r: Result<R, Error>)
        requires
            word@.len() == 4,
        ensures
            r is Ok <==> field_reg_ok(word@, 1),
            match r {
                Ok(op) => op == R::spec_decode(word@),
                Err(e) => e == Error::InvalidRegister(spec_value_payload(field_val(word@, 1))),
            },
    {
        let src = register_field(word, 1)?;
        Ok(R { src })
    }
}

impl Operand for R {
    fn from_word(word: &Vec<Tryte>) -> (r: Result<R, Error>)
        ensures
            r is Ok <==> R::spec_ok(word@),
            r matches Ok(op) ==> op == R::spec_decode(word@),
    {
        R::decode(word)
    }
}

/// Two source registers.
#[derive(Clone, Copy, Debug, PartialEq, Eq, Structural)]
pub struct RR {
    pub lhs: StandardRegister,
    pub rhs: StandardRegister,
}

impl RR {
    /// Whether the word's fields decode to this shape.
    pub open spec fn spec_ok(w: Seq<Tryte>) -> bool {
        field_reg_ok(w, 1) && field_reg_ok(w, 2)
    }

    /// The decoded shape, when both fields name registers.
    pub open spec fn spec_decode(w: Seq<Tryte>) -> RR {
        RR { lhs: spec_isa_register(field_val(w, 1)), rhs: spec_isa_register(field_val(w, 2)) }
    }

    /// Extract two source registers from fields 1 and 2.
    pub fn decode(word: &Vec<Tryte>) -> (r: Result<RR, Error>)
        requires
            word@.len() == 4,
        ensures
            r is Ok <==> field_reg_ok(word@, 1) && field_reg_ok(word@, 2),
            match r {
                Ok(op) => op == RR::spec_decode(word@),
                Err(e) => e == Error::InvalidRegister(
                    spec_value_payload(
                        if !field_reg_ok(word@, 1) {
                            field_val(word@, 1)
                        } else {
                            field_val(word@, 2)
                        },
                    ),
                ),
            },
    {
        let lhs = register_field(word, 1)?;
        let rhs = register_field(word, 2)?;
        Ok(RR { lhs, rhs })
    }
}

impl Operand for RR {
    fn from_word(word: &Vec<Tryte>) -> (r: Result<RR, Error>)
        ensures
            r is Ok <==> RR::spec_ok(word@),
            r matches Ok(op) ==> op == RR::spec_decode(word@),
    {
        RR::decode(word)
    }
}

/// A destination and two source registers.
#[derive(Clone, Copy, Debug, PartialEq, Eq, Structural)]
pub struct RRR {
    pub dest: StandardRegister,
    pub lhs: StandardRegister,
    pub rhs: StandardRegister,
}

impl RRR {
    /// Whether the word's fields decode to this shape.
    pub open spec fn spec_ok(w: Seq<Tryte>) -> bool {
        field_reg_ok(w, 1) && field_reg_ok(w, 2) && field_reg_ok(w, 3)
    }

    /// The decoded shape, when all three fields name registers.
    pub open spec fn spec_decode(w: Seq<Tryte>) -> RRR {
        RRR {
            dest: spec_isa_register(field_val(w, 1)),
            lhs: spec_isa_register(field_val(w, 2)),
            rhs: spec_isa_register(field_val(w, 3)),
        }
    }

    /// Extract a destination and two sources from fields 1, 2 and 3.
    pub fn decode(word: &Vec<Tryte>) -> (r: Result<RRR, Error>)
        requires
            word@.len() == 4,
        ensures
            r is Ok <==> field_reg_ok(word@, 1) && field_reg_ok(word@, 2) && field_reg_ok(
                word@,
                3,
            ),
            match r {
                Ok(op) => op == RRR::spec_decode(word@),
                Err(e) => e == Error::InvalidRegister(
                    spec_value_payload(
                        if !field_reg_ok(word@, 1) {
                            field_val(word@, 1)
                        } else if !field_reg_ok(word@, 2) {
                            field_val(word@, 2)
                        } else {
                            field_val(word@, 3)
                        },
                    ),
                ),
            },
    {
        let dest = register_field(word, 1)?;
        let lhs = register_field(word, 2)?;
        let rhs = register_field(word, 3)?;
        Ok(RRR { dest, lhs, rhs })
    }
}

impl Operand for RRR {
    fn from_word(word: &Vec<Tryte>) -> (r: Result<RRR, Error>)
        ensures
            r is Ok <==> RRR::spec_ok(word@),
            r matches Ok(op) ==> op == RRR::spec_decode(word@),
    {
        RRR::decode(word)
    }
}

/// The immediate half of a word: its upper two trytes.
pub open spec fn spec_immediate(w: Seq<Tryte>) -> Half {
    Half { lo: w[2], hi: w[3] }
}

/// Extract the immediate half from trits 12..24.
pub fn immediate_half(word: &Vec<Tryte>) -> (r: Half)
    requires
        word@.len() == 4,
    ensures
        r == spec_immediate(word@),
{
    Half { lo: word[2], hi: word[3] }
}

/// A destination register and an immediate.
#[derive(Clone, Copy, Debug, PartialEq, Eq, Structural)]
pub struct RI {
    pub dest: StandardRegister,
    pub immediate: Half,
}

impl RI {
    /// Whether the word's fields decode to this shape.
    pub open spec fn spec_ok(w: Seq<Tryte>) -> bool {
        field_reg_ok(w, 1)
    }

    /// The decoded shape, when the destination field names a register.
    pub open spec fn spec_decode(w: Seq<Tryte>) -> RI {
        RI { dest: spec_isa_register(field_val(w, 1)), immediate: spec_immediate(w) }
    }

    /// Extract a destination from field 1 and the immediate half.
    pub fn decode(word: &Vec<Tryte>) -> (r: Result<RI, Error>)
        requires
            word@.len() == 4,
        ensures
            r is Ok <==> field_reg_ok(word@, 1),
            match r {
                Ok(op) => op == RI::spec_decode(word@),
                Err(e) => e == Error::InvalidRegister(spec_value_payload(field_val(word@, 1))),
            },
    {
        let dest = register_field(word, 1)?;
        Ok(RI { dest, immediate: immediate_half(word) })
    }
}

impl Operand for RI {
    fn from_word(word: &Vec<Tryte>) -> (r: Result<RI, Error>)
        ensures
            r is Ok <==> RI::spec_ok(word@),
            r matches Ok(op) ==> op == RI::spec_decode(word@),
    {
        RI::decode(word)
    }
}

/// A destination, a source and an immediate.
#[derive(Clone, Copy, Debug, PartialEq, Eq, Structural)]
pub struct RRI {
    pub dest: StandardRegister,
    pub src: StandardRegister,
    pub immediate: Half,
}

impl RRI {
    /// Whether the word's fields decode to this shape.
    pub open spec fn spec_ok(w: Seq<Tryte>) -> bool {
        field_reg_ok(w, 1) && field_reg_ok(w, 2)
    }

    /// The decoded shape, when both register fields name registers.
    pub open spec fn spec_decode(w: Seq<Tryte>) -> RRI {
        RRI {
            dest: spec_isa_register(field_val(w, 1)),
            src: spec_isa_register(field_val(w, 2)),
            immediate: spec_immediate(w),
        }
    }

    /// Extract a destination, a source and the immediate half.
    pub fn decode(word: &Vec<Tryte>) -> (r: Result<RRI, Error>)
        requires
            word@.len() == 4,
        ensures
            r is Ok <==> field_reg_ok(word@, 1) && field_reg_ok(word@, 2),
            match r {
                Ok(op) => op == RRI::spec_decode(word@),
                Err(e) => e == Error::InvalidRegister(
                    spec_value_payload(
                        if !field_reg_ok(word@, 1) {
                            field_val(word@, 1)
                        } else {
                            field_val(word@, 2)
                        },
                    ),
                ),
            },
    {
        let dest = register_field(word, 1)?;
        let src = register_field(word, 2)?;
        Ok(RRI { dest, src, immediate: immediate_half(word) })
    }
}

impl Operand for RRI {
    fn from_word(word: &Vec<Tryte>) -> (r: Result<RRI, Error>)
        ensures
            r is Ok <==> RRI::spec_ok(word@),
            r matches Ok(op) ==> op == RRI::spec_decode(word@),
    {
        RRI::decode(word)
    }
}

/// A destination, an address register and a memory offset.
#[derive(Clone, Copy, Debug, PartialEq, Eq, Structural)]
pub struct RRO {
    pub dest: StandardRegister,
    pub src: StandardRegister,
    pub offset: Half,
}

impl RRO {
    /// Whether the word's fields decode to this shape.
    pub open spec fn spec_ok(w: Seq<Tryte>) -> bool {
        field_reg_ok(w, 1) && field_reg_ok(w, 2)
    }

    /// The decoded shape, when both register fields name registers.
    pub open spec fn spec_decode(w: Seq<Tryte>) -> RRO {
        RRO {
            dest: spec_isa_register(field_val(w, 1)),
            src: spec_isa_register(field_val(w, 2)),
            offset: spec_immediate(w),
        }
    }

    /// Extract a destination, an address register and the offset half.
    pub fn decode(word: &Vec<Tryte>) -> (r: Result<RRO, Error>)
        requires
            word@.len() == 4,
        ensures
            r is Ok <==> field_reg_ok(word@, 1) && field_reg_ok(word@, 2),
            match r {
                Ok(op) => op == RRO::spec_decode(word@),
                Err(e) => e == Error::InvalidRegister(
                    spec_value_payload(
                        if !field_reg_ok(word@, 1) {
                            field_val(word@, 1)
                        } else {
                            field_val(word@, 2)
                        },
                    ),
                ),
            },
    {
        let dest = register_field(word, 1)?;
        let src = register_field(word, 2)?;
        Ok(RRO { dest, src, offset: immediate_half(word) })
    }
}

impl Operand for RRO {
    fn from_word(word: &Vec<Tryte>) -> (r: Result<RRO, Error>)
        ensures
            r is Ok <==> RRO::spec_ok(word@),
            r matches Ok(op) ==> op == RRO::spec_decode(word@),
    {
        RRO::decode(word)
    }
}

/// The 16-trit branch offset held in trits 8..24, zero-extended to a word.
pub open spec fn spec_branch_offset(w: Seq<Tryte>) -> Word {
    Word {
        w0: Tryte {
            t0: w[1].t2,
            t1: w[1].t3,
            t2: w[1].t4,
            t3: w[1].t5,
            t4: w[2].t0,
            t5: w[2].t1,
        },
        w1: Tryte {
            t0: w[2].t2,
            t1: w[2].t3,
            t2: w[2].t4,
            t3: w[2].t5,
            t4: w[3].t0,
            t5: w[3].t1,
        },
        w2: Tryte {
            t0: w[3].t2,
            t1: w[3].t3,
            t2: w[3].t4,
            t3: w[3].t5,
            t4: Trit::Zero,
            t5: Trit::Zero,
        },
        w3: Tryte::spec_zero(),
    }
}

/// Extract the 16-trit branch offset.
pub fn branch_offset(word: &Vec<Tryte>) -> (r: Word)
    requires
        word@.len() == 4,
    ensures
        r == spec_branch_offset(word@),
{
    let a = word[1];
    let b = word[2];
    let c = word[3];
    Word {
        w0: Tryte { t0: a.t2, t1: a.t3, t2: a.t4, t3: a.t5, t4: b.t0, t5: b.t1 },
        w1: Tryte { t0: b.t2, t1: b.t3, t2: b.t4, t3: b.t5, t4: c.t0, t5: c.t1 },
        w2: Tryte { t0: c.t2, t1: c.t3, t2: c.t4, t3: c.t5, t4: Trit::Zero, t5: Trit::Zero },
        w3: Tryte::zero(),
    }
}

/// A branch: a selector register and a 16-trit relative offset.
#[derive(Clone, Copy, Debug, PartialEq, Eq, Structural)]
pub struct RO {
    pub src: StandardRegister,
    pub offset: Word,
}

impl RO {
    /// Whether the word's fields decode to this shape.
    pub open spec fn spec_ok(w: Seq<Tryte>) -> bool {
        field_reg_ok(w, 1)
    }

    /// The decoded shape, when the selector field names a register.
    pub open spec fn spec_decode(w: Seq<Tryte>) -> RO {
        RO { src: spec_isa_register(field_val(w, 1)), offset: spec_branch_offset(w) }
    }

    /// Extract a selector register and the branch offset.
    pub fn decode(word: &Vec<Tryte>) -> (r: Result<RO, Error>)
        requires
            word@.len() == 4,
        ensures
            r is Ok <==> field_reg_ok(word@, 1),
            match r {
                Ok(op) => op == RO::spec_decode(word@),
                Err(e) => e == Error::InvalidRegister(spec_value_payload(field_val(word@, 1))),
            },
    {
        let src = register_field(word, 1)?;
        Ok(RO { src, offset: branch_offset(word) })
    }
}

impl Operand for RO {
    fn from_word(word: &Vec<Tryte>) -> (r: Result<RO, Error>)
        ensures
            r is Ok <==> RO::spec_ok(word@),
            r matches Ok(op) ==> op == RO::spec_decode(word@),
    {
        RO::decode(word)
    }
}

/// An unconditional relative branch: a 16-trit offset alone.
#[derive(Clone, Copy, Debug, PartialEq, Eq, Structural)]
pub struct O {
    pub offset: Word,
}

impl O {
    /// The decoded shape.
    pub open spec fn spec_decode(w: Seq<Tryte>) -> O {
        O { offset: spec_branch_offset(w) }
    }

    /// Extract the branch offset.
    pub fn decode(word: &Vec<Tryte>) -> (r: Result<O, Error>)
        requires
            word@.len() == 4,
        ensures
            r matches Ok(op) && op == O::spec_decode(word@),
    {
        Ok(O { offset: branch_offset(word) })
    }
}

impl Operand for O {
    fn from_word(word: &Vec<Tryte>) -> (r: Result<O, Error>)
        ensures
            r matches Ok(op) && op == O::spec_decode(word@),
    {
        O::decode(word)
    }
}

/// The 20-trit jump target held in trits 4..24, zero-extended to a word.
pub open spec fn spec_jump_addr(w: Seq<Tryte>) -> Word {
    Word {
        w0: Tryte {
            t0: w[0].t4,
            t1: w[0].t5,
            t2: w[1].t0,
            t3: w[1].t1,
            t4: w[1].t2,
            t5: w[1].t3,
        },
        w1: Tryte {
            t0: w[1].t4,
            t1: w[1].t5,
            t2: w[2].t0,
            t3: w[2].t1,
            t4: w[2].t2,
            t5: w[2].t3,
        },
        w2: Tryte {
            t0: w[2].t4,
            t1: w[2].t5,
            t2: w[3].t0,
            t3: w[3].t1,
            t4: w[3].t2,
            t5: w[3].t3,
        },
        w3: Tryte {
            t0: w[3].t4,
            t1: w[3].t5,
            t2: Trit::Zero,
            t3: Trit::Zero,
            t4: Trit::Zero,
            t5: Trit::Zero,
        },
    }
}

/// An absolute jump: a 20-trit address.
#[derive(Clone, Copy, Debug, PartialEq, Eq, Structural)]
pub struct A {
    pub addr: Word,
}

impl A {
    /// The decoded shape.
    pub open spec fn spec_decode(w: Seq<Tryte>) -> A {
        A { addr: spec_jump_addr(w) }
    }

    /// Extract the jump address.
    pub fn decode(word: &Vec<Tryte>) -> (r: Result<A, Error>)
        requires
            word@.len() == 4,
        ensures
            r matches Ok(op) && op == A::spec_decode(word@),
    {
        let a = word[0];
        let b = word[1];
        let c = word[2];
        let d = word[3];
        Ok(
            A {
                addr: Word {
                    w0: Tryte { t0: a.t4, t1: a.t5, t2: b.t0, t3: b.t1, t4: b.t2, t5: b.t3 },
                    w1: Tryte { t0: b.t4, t1: b.t5, t2: c.t0, t3: c.t1, t4: c.t2, t5: c.t3 },
                    w2: Tryte { t0: c.t4, t1: c.t5, t2: d.t0, t3: d.t1, t4: d.t2, t5: d.t3 },
                    w3: Tryte {
                        t0: d.t4,
                        t1: d.t5,
                        t2: Trit::Zero,
                        t3: Trit::Zero,
                        t4: Trit::Zero,
                        t5: Trit::Zero,
                    },
                },
            },
        )
    }
}

impl Operand for A {
    fn from_word(word: &Vec<Tryte>) -> (r: Result<A, Error>)
        ensures
            r matches Ok(op) && op == A::spec_decode(word@),
    {
        A::decode(word)
    }
}

} // verus!
