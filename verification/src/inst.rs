//! The instruction form: a tagged variant for every mnemonic of the ISA,
//! decoded from a 24-trit word.

use vstd::prelude::*;

verus! {

use crate::error::Error;
use crate::operands::{
    field_val,
    field_value,
    field_reg_ok,
    Empty,
    Half,
    Operand,
    A,
    O,
    R,
    RI,
    RO,
    RR,
    RRI,
    RRO,
    RRR,
    Word,
};
use crate::registers::StandardRegister;
use crate::ternary::Error as TernaryError;
use crate::trit::Trit;
use crate::text::spec_trit_string;
use crate::tryte::Tryte;

/// One decoded instruction: a mnemonic with its operand tuple.
#[derive(Clone, Copy, Debug, PartialEq, Eq, Structural)]
pub enum Inst {
    And(RRR),
    Or(RRR),
    Tmul(RRR),
    Tcmp(RRR),
    Cmp(RRR),
    Shf(RRR),
    Add(RRR),
    Mul(RR),
    Div(RR),
    Andi(RRI),
    Ori(RRI),
    Tmuli(RRI),
    Tcmpi(RRI),
    Shfi(RRI),
    Addi(RRI),
    Lui(RI),
    Lt(RRO),
    Lh(RRO),
    Lw(RRO),
    St(RRO),
    Sh(RRO),
    Sw(RRO),
    BT(RO),
    B0(RO),
    B1(RO),
    BT0(RO),
    BT1(RO),
    B01(RO),
    Bal(O),
    J(A),
    Jal(A),
    Jr(R),
    Jalr(R),
    Syscall(Empty),
    Break(Empty),
}

/// The instruction encoded in a word, when the word is well formed: the
/// opcode in trits 0..4 picks the mnemonic and the operand layout, and the
/// operand fields must all decode.
pub open spec fn spec_decode(w: Seq<Tryte>) -> Option<Inst> {
    let v = field_val(w, 0);
    if v == 0 {
        if RRR::spec_ok(w) {
            Some(Inst::And(RRR::spec_decode(w)))
        } else {
            None
        }
    } else if v == 1 {
        if RRR::spec_ok(w) {
            Some(Inst::Or(RRR::spec_decode(w)))
        } else {
            None
        }
    } else if v == 2 {
        if RRR::spec_ok(w) {
            Some(Inst::Tmul(RRR::spec_decode(w)))
        } else {
            None
        }
    } else if v == 3 {
        if RRR::spec_ok(w) {
            Some(Inst::Tcmp(RRR::spec_decode(w)))
        } else {
            None
        }
    } else if v == 4 {
        if RRR::spec_ok(w) {
            Some(Inst::Cmp(RRR::spec_decode(w)))
        } else {
            None
        }
    } else if v == 5 {
        if RRR::spec_ok(w) {
            Some(Inst::Shf(RRR::spec_decode(w)))
        } else {
            None
        }
    } else if v == 6 {
        if RRR::spec_ok(w) {
            Some(Inst::Add(RRR::spec_decode(w)))
        } else {
            None
        }
    } else if v == 7 {
        if RR::spec_ok(w) {
            Some(Inst::Mul(RR::spec_decode(w)))
        } else {
            None
        }
    } else if v == 8 {
        if RR::spec_ok(w) {
            Some(Inst::Div(RR::spec_decode(w)))
        } else {
            None
        }
    } else if v == 9 {
        if RRI::spec_ok(w) {
            Some(Inst::Andi(RRI::spec_decode(w)))
        } else {
            None
        }
    } else if v == 10 {
        if RRI::spec_ok(w) {
            Some(Inst::Ori(RRI::spec_decode(w)))
        } else {
            None
        }
    } else if v == 11 {
        if RRI::spec_ok(w) {
            Some(Inst::Tmuli(RRI::spec_decode(w)))
        } else {
            None
        }
    } else if v == 12 {
        if RRI::spec_ok(w) {
            Some(Inst::Tcmpi(RRI::spec_decode(w)))
        } else {
            None
        }
    } else if v == 13 {
        if RRI::spec_ok(w) {
            Some(Inst::Shfi(RRI::spec_decode(w)))
        } else {
            None
        }
    } else if v == 14 {
        if RRI::spec_ok(w) {
            Some(Inst::Addi(RRI::spec_decode(w)))
        } else {
            None
        }
    } else if v == 15 {
        if RI::spec_ok(w) {
            Some(Inst::Lui(RI::spec_decode(w)))
        } else {
            None
        }
    } else if v == 16 {
        if RRO::spec_ok(w) {
            Some(Inst::Lt(RRO::spec_decode(w)))
        } else {
            None
        }
    } else if v == 17 {
        if RRO::spec_ok(w) {
            Some(Inst::Lh(RRO::spec_decode(w)))
        } else {
            None
        }
    } else if v == 18 {
        if RRO::spec_ok(w) {
            Some(Inst::Lw(RRO::spec_decode(w)))
        } else {
            None
        }
    } else if v == 19 {
        if RRO::spec_ok(w) {
            Some(Inst::St(RRO::spec_decode(w)))
        } else {
            None
        }
    } else if v == 20 {
        if RRO::spec_ok(w) {
            Some(Inst::Sh(RRO::spec_decode(w)))
        } else {
            None
        }
    } else if v == 21 {
        if RRO::spec_ok(w) {
            Some(Inst::Sw(RRO::spec_decode(w)))
        } else {
            None
        }
    } else if v == 22 {
        if RO::spec_ok(w) {
            Some(Inst::BT(RO::spec_decode(w)))
        } else {
            None
        }
    } else if v == 23 {
        if RO::spec_ok(w) {
            Some(Inst::B0(RO::spec_decode(w)))
        } else {
            None
        }
    } else if v == 24 {
        if RO::spec_ok(w) {
            Some(Inst::B1(RO::spec_decode(w)))
        } else {
            None
        }
    } else if v == 25 {
        if RO::spec_ok(w) {
            Some(Inst::BT0(RO::spec_decode(w)))
        } else {
            None
        }
    } else if v == 26 {
        if RO::spec_ok(w) {
            Some(Inst::BT1(RO::spec_decode(w)))
        } else {
            None
        }
    } else if v == 27 {
        if RO::spec_ok(w) {
            Some(Inst::B01(RO::spec_decode(w)))
        } else {
            None
        }
    } else if v == 28 {
        Some(Inst::Bal(O::spec_decode(w)))
    } else if v == 29 {
        Some(Inst::J(A::spec_decode(w)))
    } else if v == 30 {
        Some(Inst::Jal(A::spec_decode(w)))
    } else if v == 31 {
        if R::spec_ok(w) {
            Some(Inst::Jr(R::spec_decode(w)))
        } else {
            None
        }
    } else if v == 32 {
        if R::spec_ok(w) {
            Some(Inst::Jalr(R::spec_decode(w)))
        } else {
            None
        }
    } else if v == 33 {
        if Empty::padding_ok(w) {
            Some(Inst::Syscall(Empty))
        } else {
            None
        }
    } else if v == 34 {
        if Empty::padding_ok(w) {
            Some(Inst::Break(Empty))
        } else {
            None
        }
    } else {
        None
    }
}

impl Inst {
    /// Decode a 24-trit word into an instruction. The result is exactly
    /// what [`spec_decode`] names, and decoding succeeds exactly when the
    /// word is well formed.
    #[verifier::rlimit(100)]
    pub fn from_word(word: &Vec<Tryte>) -> (r: Result<Inst, Error>)
        requires
            word@.len() == 4,
        ensures
            r is Ok <==> spec_decode(word@) is Some,
            match r {
                Ok(i) => spec_decode(word@) == Some(i),
                Err(e) => {
                    ||| (!(0 <= field_val(word@, 0) <= 34) && e == Error::InvalidOpcode(
                        crate::opcodes::spec_value_payload(field_val(word@, 0)),
                    ))
                    ||| e matches Error::InvalidRegister(p)
                    ||| (e matches Error::Ternary(t) && t matches TernaryError::InvalidEncoding(m)
                        && m@ == spec_trit_string(word@))
                },
            },
    {
        let v = field_value(word, 0);
        if v < 0 || v > 34 {
            return Err(Error::InvalidOpcode(crate::opcodes::value_payload(v)));
        }
        match v {
            0 => Ok(Inst::And(RRR::decode(word)?)),
            1 => Ok(Inst::Or(RRR::decode(word)?)),
            2 => Ok(Inst::Tmul(RRR::decode(word)?)),
            3 => Ok(Inst::Tcmp(RRR::decode(word)?)),
            4 => Ok(Inst::Cmp(RRR::decode(word)?)),
            5 => Ok(Inst::Shf(RRR::decode(word)?)),
            6 => Ok(Inst::Add(RRR::decode(word)?)),
            7 => Ok(Inst::Mul(RR::decode(word)?)),
            8 => Ok(Inst::Div(RR::decode(word)?)),
            9 => Ok(Inst::Andi(RRI::decode(word)?)),
            10 => Ok(Inst::Ori(RRI::decode(word)?)),
            11 => Ok(Inst::Tmuli(RRI::decode(word)?)),
            12 => Ok(Inst::Tcmpi(RRI::decode(word)?)),
            13 => Ok(Inst::Shfi(RRI::decode(word)?)),
            14 => Ok(Inst::Addi(RRI::decode(word)?)),
            15 => Ok(Inst::Lui(RI::decode(word)?)),
            16 => Ok(Inst::Lt(RRO::decode(word)?)),
            17 => Ok(Inst::Lh(RRO::decode(word)?)),
            18 => Ok(Inst::Lw(RRO::decode(word)?)),
            19 => Ok(Inst::St(RRO::decode(word)?)),
            20 => Ok(Inst::Sh(RRO::decode(word)?)),
            21 => Ok(Inst::Sw(RRO::decode(word)?)),
            22 => Ok(Inst::BT(RO::decode(word)?)),
            23 => Ok(Inst::B0(RO::decode(word)?)),
            24 => Ok(Inst::B1(RO::decode(word)?)),
            25 => Ok(Inst::BT0(RO::decode(word)?)),
            26 => Ok(Inst::BT1(RO::decode(word)?)),
            27 => Ok(Inst::B01(RO::decode(word)?)),
            28 => Ok(Inst::Bal(O::decode(word)?)),
            29 => Ok(Inst::J(A::decode(word)?)),
            30 => Ok(Inst::Jal(A::decode(word)?)),
            31 => Ok(Inst::Jr(R::decode(word)?)),
            32 => Ok(Inst::Jalr(R::decode(word)?)),
            33 => Ok(Inst::Syscall(Empty::decode(word)?)),
            _ => Ok(Inst::Break(Empty::decode(word)?)),
        }
    }
}


/// The four balanced digits of a small selector value, low digit first.
fn field_trits(v: i8) -> (r: (Trit, Trit, Trit, Trit))
    requires
        0 <= v <= 34,
    ensures
        r.0.val() + 3 * r.1.val() + 9 * r.2.val() + 27 * r.3.val() == v,
{
    match v {
        0 => (Trit::Zero, Trit::Zero, Trit::Zero, Trit::Zero),
        1 => (Trit::Pos, Trit::Zero, Trit::Zero, Trit::Zero),
        2 => (Trit::Neg, Trit::Pos, Trit::Zero, Trit::Zero),
        3 => (Trit::Zero, Trit::Pos, Trit::Zero, Trit::Zero),
        4 => (Trit::Pos, Trit::Pos, Trit::Zero, Trit::Zero),
        5 => (Trit::Neg, Trit::Neg, Trit::Pos, Trit::Zero),
        6 => (Trit::Zero, Trit::Neg, Trit::Pos, Trit::Zero),
        7 => (Trit::Pos, Trit::Neg, Trit::Pos, Trit::Zero),
        8 => (Trit::Neg, Trit::Zero, Trit::Pos, Trit::Zero),
        9 => (Trit::Zero, Trit::Zero, Trit::Pos, Trit::Zero),
        10 => (Trit::Pos, Trit::Zero, Trit::Pos, Trit::Zero),
        11 => (Trit::Neg, Trit::Pos, Trit::Pos, Trit::Zero),
        12 => (Trit::Zero, Trit::Pos, Trit::Pos, Trit::Zero),
        13 => (Trit::Pos, Trit::Pos, Trit::Pos, Trit::Zero),
        14 => (Trit::Neg, Trit::Neg, Trit::Neg, Trit::Pos),
        15 => (Trit::Zero, Trit::Neg, Trit::Neg, Trit::Pos),
        16 => (Trit::Pos, Trit::Neg, Trit::Neg, Trit::Pos),
        17 => (Trit::Neg, Trit::Zero, Trit::Neg, Trit::Pos),
        18 => (Trit::Zero, Trit::Zero, Trit::Neg, Trit::Pos),
        19 => (Trit::Pos, Trit::Zero, Trit::Neg, Trit::Pos),
        20 => (Trit::Neg, Trit::Pos, Trit::Neg, Trit::Pos),
        21 => (Trit::Zero, Trit::Pos, Trit::Neg, Trit::Pos),
        22 => (Trit::Pos, Trit::Pos, Trit::Neg, Trit::Pos),
        23 => (Trit::Neg, Trit::Neg, Trit::Zero, Trit::Pos),
        24 => (Trit::Zero, Trit::Neg, Trit::Zero, Trit::Pos),
        25 => (Trit::Pos, Trit::Neg, Trit::Zero, Trit::Pos),
        26 => (Trit::Neg, Trit::Zero, Trit::Zero, Trit::Pos),
        27 => (Trit::Zero, Trit::Zero, Trit::Zero, Trit::Pos),
        28 => (Trit::Pos, Trit::Zero, Trit::Zero, Trit::Pos),
        29 => (Trit::Neg, Trit::Pos, Trit::Zero, Trit::Pos),
        30 => (Trit::Zero, Trit::Pos, Trit::Zero, Trit::Pos),
        31 => (Trit::Pos, Trit::Pos, Trit::Zero, Trit::Pos),
        32 => (Trit::Neg, Trit::Neg, Trit::Pos, Trit::Pos),
        33 => (Trit::Zero, Trit::Neg, Trit::Pos, Trit::Pos),
        _ => (Trit::Pos, Trit::Neg, Trit::Pos, Trit::Pos),
    }
}

/// The selector value that the instruction form uses for a register.
fn isa_field_value(reg: StandardRegister) -> (v: i8)
    ensures
        0 <= v < 24,
        crate::operands::spec_isa_register(v as int) == reg,
{
    match reg {
            StandardRegister::Zero => 0,
            StandardRegister::Lo => 1,
            StandardRegister::Hi => 2,
            StandardRegister::Sp => 3,
            StandardRegister::Fp => 4,
            StandardRegister::Ra => 23,
            StandardRegister::A0 => 5,
            StandardRegister::A1 => 6,
            StandardRegister::A2 => 7,
            StandardRegister::A3 => 8,
            StandardRegister::A4 => 9,
            StandardRegister::A5 => 10,
            StandardRegister::S0 => 11,
            StandardRegister::S1 => 12,
            StandardRegister::S2 => 13,
            StandardRegister::S3 => 14,
            StandardRegister::S4 => 15,
            StandardRegister::S5 => 16,
            StandardRegister::T0 => 17,
            StandardRegister::T1 => 18,
            StandardRegister::T2 => 19,
            StandardRegister::T3 => 20,
            StandardRegister::T4 => 21,
            StandardRegister::T5 => 22,
    }
}

/// A word from twenty-four trits, given as four trytes.
fn word_of(a: Tryte, b: Tryte, c: Tryte, d: Tryte) -> (w: Vec<Tryte>)
    ensures
        w@.len() == 4,
        w@[0] == a && w@[1] == b && w@[2] == c && w@[3] == d,
{
    let mut w: Vec<Tryte> = Vec::new();
    w.push(a);
    w.push(b);
    w.push(c);
    w.push(d);
    w
}

/// Encode an opcode and three register fields.
fn build_rrr(code: i8, dest: StandardRegister, lhs: StandardRegister, rhs: StandardRegister) -> (w:
    Vec<Tryte>)
    requires
        0 <= code <= 34,
    ensures
        w@.len() == 4,
        field_val(w@, 0) == code,
        RRR::spec_ok(w@),
        RRR::spec_decode(w@) == (RRR { dest, lhs, rhs }),
        RR::spec_ok(w@),
        RR::spec_decode(w@) == (RR { lhs: dest, rhs: lhs }),
{
    let (c0, c1, c2, c3) = field_trits(code);
    let (d0, d1, d2, d3) = field_trits(isa_field_value(dest));
    let (l0, l1, l2, l3) = field_trits(isa_field_value(lhs));
    let (r0, r1, r2, r3) = field_trits(isa_field_value(rhs));
    word_of(
        Tryte { t0: c0, t1: c1, t2: c2, t3: c3, t4: d0, t5: d1 },
        Tryte { t0: d2, t1: d3, t2: l0, t3: l1, t4: l2, t5: l3 },
        Tryte { t0: r0, t1: r1, t2: r2, t3: r3, t4: Trit::Zero, t5: Trit::Zero },
        Tryte::zero(),
    )
}

/// Encode an opcode, two register fields and an immediate half.
fn build_rri(code: i8, dest: StandardRegister, src: StandardRegister, imm: Half) -> (w: Vec<
    Tryte>)
    requires
        0 <= code <= 34,
    ensures
        w@.len() == 4,
        field_val(w@, 0) == code,
        RRI::spec_ok(w@),
        RRI::spec_decode(w@) == (RRI { dest, src, immediate: imm }),
        RRO::spec_ok(w@),
        RRO::spec_decode(w@) == (RRO { dest, src, offset: imm }),
        RI::spec_ok(w@),
        RI::spec_decode(w@) == (RI { dest, immediate: imm }),
{
    let (c0, c1, c2, c3) = field_trits(code);
    let (d0, d1, d2, d3) = field_trits(isa_field_value(dest));
    let (s0, s1, s2, s3) = field_trits(isa_field_value(src));
    word_of(
        Tryte { t0: c0, t1: c1, t2: c2, t3: c3, t4: d0, t5: d1 },
        Tryte { t0: d2, t1: d3, t2: s0, t3: s1, t4: s2, t5: s3 },
        imm.lo,
        imm.hi,
    )
}

/// Encode an opcode, a selector register and a 16-trit branch offset.
fn build_ro(code: i8, src: StandardRegister, offset: Word) -> (w: Vec<Tryte>)
    requires
        0 <= code <= 34,
        offset.w2.t4 == Trit::Zero,
        offset.w2.t5 == Trit::Zero,
        offset.w3 == Tryte::spec_zero(),
    ensures
        w@.len() == 4,
        field_val(w@, 0) == code,
        RO::spec_ok(w@),
        RO::spec_decode(w@) == (RO { src, offset }),
        O::spec_decode(w@) == (O { offset }),
{
    let (c0, c1, c2, c3) = field_trits(code);
    let (s0, s1, s2, s3) = field_trits(isa_field_value(src));
    let w = word_of(
        Tryte { t0: c0, t1: c1, t2: c2, t3: c3, t4: s0, t5: s1 },
        Tryte { t0: s2, t1: s3, t2: offset.w0.t0, t3: offset.w0.t1, t4: offset.w0.t2, t5:
            offset.w0.t3 },
        Tryte { t0: offset.w0.t4, t1: offset.w0.t5, t2: offset.w1.t0, t3: offset.w1.t1, t4:
            offset.w1.t2, t5: offset.w1.t3 },
        Tryte { t0: offset.w1.t4, t1: offset.w1.t5, t2: offset.w2.t0, t3: offset.w2.t1, t4:
            offset.w2.t2, t5: offset.w2.t3 },
    );
    proof {
        assert(crate::operands::spec_branch_offset(w@) == offset);
    }
    w
}

/// Encode an opcode and a 20-trit jump target.
fn build_a(code: i8, addr: Word) -> (w: Vec<Tryte>)
    requires
        0 <= code <= 34,
        addr.w3.t2 == Trit::Zero,
        addr.w3.t3 == Trit::Zero,
        addr.w3.t4 == Trit::Zero,
        addr.w3.t5 == Trit::Zero,
    ensures
        w@.len() == 4,
        field_val(w@, 0) == code,
        A::spec_decode(w@) == (A { addr }),
{
    let (c0, c1, c2, c3) = field_trits(code);
    let w = word_of(
        Tryte { t0: c0, t1: c1, t2: c2, t3: c3, t4: addr.w0.t0, t5: addr.w0.t1 },
        Tryte { t0: addr.w0.t2, t1: addr.w0.t3, t2: addr.w0.t4, t3: addr.w0.t5, t4: addr.w1.t0,
            t5: addr.w1.t1 },
        Tryte { t0: addr.w1.t2, t1: addr.w1.t3, t2: addr.w1.t4, t3: addr.w1.t5, t4: addr.w2.t0,
            t5: addr.w2.t1 },
        Tryte { t0: addr.w2.t2, t1: addr.w2.t3, t2: addr.w2.t4, t3: addr.w2.t5, t4: addr.w3.t0,
            t5: addr.w3.t1 },
    );
    proof {
        assert(crate::operands::spec_jump_addr(w@) == addr);
    }
    w
}

/// Encode an opcode with zero padding.
fn build_empty(code: i8) -> (w: Vec<Tryte>)
    requires
        0 <= code <= 34,
    ensures
        w@.len() == 4,
        field_val(w@, 0) == code,
        Empty::padding_ok(w@),
{
    let (c0, c1, c2, c3) = field_trits(code);
    let w = word_of(
        Tryte { t0: c0, t1: c1, t2: c2, t3: c3, t4: Trit::Zero, t5: Trit::Zero },
        Tryte::zero(),
        Tryte::zero(),
        Tryte::zero(),
    );
    proof {
        assert forall|i: int| 4 <= i < 24 implies crate::ternary::trit_of(w@, i)
            == Trit::Zero by {
            vstd::arithmetic::div_mod::lemma_fundamental_div_mod(i, 6);
        }
    }
    w
}

impl Inst {
    /// Whether the instruction's payloads are canonical: the parts of a
    /// branch offset or jump target that the word cannot carry are zero.
    pub open spec fn wf(self) -> bool {
        match self {
            Inst::BT(o) => ro_wf(o.offset),
            Inst::B0(o) => ro_wf(o.offset),
            Inst::B1(o) => ro_wf(o.offset),
            Inst::BT0(o) => ro_wf(o.offset),
            Inst::BT1(o) => ro_wf(o.offset),
            Inst::B01(o) => ro_wf(o.offset),
            Inst::Bal(o) => ro_wf(o.offset),
            Inst::J(o) => a_wf(o.addr),
            Inst::Jal(o) => a_wf(o.addr),
            _ => true,
        }
    }

    /// The canonical encoder: a well-formed instruction becomes the one
    /// word that decodes back to it. Together with the decoder's own
    /// contract this is the instruction round trip: for every canonical
    /// word, decoding and re-encoding reproduce each other exactly.
    pub fn to_word(&self) -> (w: Vec<Tryte>)
        requires
            self.wf(),
        ensures
            w@.len() == 4,
            spec_decode(w@) == Some(*self),
    {
        match *self {
            Inst::And(o) => self.to_word_register_form(),
            Inst::Or(o) => self.to_word_register_form(),
            Inst::Tmul(o) => self.to_word_register_form(),
            Inst::Tcmp(o) => self.to_word_register_form(),
            Inst::Cmp(o) => self.to_word_register_form(),
            Inst::Shf(o) => self.to_word_register_form(),
            Inst::Add(o) => self.to_word_register_form(),
            Inst::Mul(o) => self.to_word_register_form(),
            Inst::Div(o) => self.to_word_register_form(),
            Inst::Jr(o) => self.to_word_register_form(),
            Inst::Jalr(o) => self.to_word_register_form(),
            Inst::Andi(o) => self.to_word_immediate_form(),
            Inst::Ori(o) => self.to_word_immediate_form(),
            Inst::Tmuli(o) => self.to_word_immediate_form(),
            Inst::Tcmpi(o) => self.to_word_immediate_form(),
            Inst::Shfi(o) => self.to_word_immediate_form(),
            Inst::Addi(o) => self.to_word_immediate_form(),
            Inst::Lui(o) => self.to_word_immediate_form(),
            Inst::Lt(o) => self.to_word_immediate_form(),
            Inst::Lh(o) => self.to_word_immediate_form(),
            Inst::Lw(o) => self.to_word_immediate_form(),
            Inst::St(o) => self.to_word_immediate_form(),
            Inst::Sh(o) => self.to_word_immediate_form(),
            Inst::Sw(o) => self.to_word_immediate_form(),
            _ => self.to_word_flow_form(),
        }
    }

    /// Encode the register-operand mnemonics.
    #[verifier::rlimit(100)]
    #[verifier::spinoff_prover]
    fn to_word_register_form(&self) -> (w: Vec<Tryte>)
        requires
            self matches Inst::And(_) || self matches Inst::Or(_) || self matches Inst::Tmul(_)
                || self matches Inst::Tcmp(_) || self matches Inst::Cmp(_) || self
                matches Inst::Shf(_) || self matches Inst::Add(_) || self matches Inst::Mul(_)
                || self matches Inst::Div(_) || self matches Inst::Jr(_) || self
                matches Inst::Jalr(_),
        ensures
            w@.len() == 4,
            spec_decode(w@) == Some(*self),
    {
        match *self {
            Inst::And(o) => build_rrr(0, o.dest, o.lhs, o.rhs),
            Inst::Or(o) => build_rrr(1, o.dest, o.lhs, o.rhs),
            Inst::Tmul(o) => build_rrr(2, o.dest, o.lhs, o.rhs),
            Inst::Tcmp(o) => build_rrr(3, o.dest, o.lhs, o.rhs),
            Inst::Cmp(o) => build_rrr(4, o.dest, o.lhs, o.rhs),
            Inst::Shf(o) => build_rrr(5, o.dest, o.lhs, o.rhs),
            Inst::Add(o) => build_rrr(6, o.dest, o.lhs, o.rhs),
            Inst::Mul(o) => build_rrr(7, o.lhs, o.rhs, StandardRegister::Zero),
            Inst::Div(o) => build_rrr(8, o.lhs, o.rhs, StandardRegister::Zero),
            Inst::Jr(o) => build_rrr(31, o.src, StandardRegister::Zero, StandardRegister::Zero),
            _ => build_rrr(32, self.jalr_src(), StandardRegister::Zero, StandardRegister::Zero),
        }
    }

    /// The selector register of a register jump with link.
    fn jalr_src(&self) -> (r: StandardRegister)
        requires
            self matches Inst::Jalr(_),
        ensures
            *self matches Inst::Jalr(o) && o.src == r,
    {
        match *self {
            Inst::Jalr(o) => o.src,
            _ => StandardRegister::Zero,
        }
    }

    /// Encode the immediate- and offset-operand mnemonics.
    #[verifier::rlimit(100)]
    #[verifier::spinoff_prover]
    fn to_word_immediate_form(&self) -> (w: Vec<Tryte>)
        requires
            self matches Inst::Andi(_) || self matches Inst::Ori(_) || self
                matches Inst::Tmuli(_) || self matches Inst::Tcmpi(_) || self
                matches Inst::Shfi(_) || self matches Inst::Addi(_) || self matches Inst::Lui(_)
                || self matches Inst::Lt(_) || self matches Inst::Lh(_) || self
                matches Inst::Lw(_) || self matches Inst::St(_) || self matches Inst::Sh(_)
                || self matches Inst::Sw(_),
        ensures
            w@.len() == 4,
            spec_decode(w@) == Some(*self),
    {
        match *self {
            Inst::Andi(o) => build_rri(9, o.dest, o.src, o.immediate),
            Inst::Ori(o) => build_rri(10, o.dest, o.src, o.immediate),
            Inst::Tmuli(o) => build_rri(11, o.dest, o.src, o.immediate),
            Inst::Tcmpi(o) => build_rri(12, o.dest, o.src, o.immediate),
            Inst::Shfi(o) => build_rri(13, o.dest, o.src, o.immediate),
            Inst::Addi(o) => build_rri(14, o.dest, o.src, o.immediate),
            Inst::Lui(o) => build_rri(15, o.dest, StandardRegister::Zero, o.immediate),
            Inst::Lt(o) => build_rri(16, o.dest, o.src, o.offset),
            Inst::Lh(o) => build_rri(17, o.dest, o.src, o.offset),
            Inst::Lw(o) => build_rri(18, o.dest, o.src, o.offset),
            Inst::St(o) => build_rri(19, o.dest, o.src, o.offset),
            Inst::Sh(o) => build_rri(20, o.dest, o.src, o.offset),
            _ => build_rri(21, self.sw_dest(), self.sw_src(), self.sw_offset()),
        }
    }

    /// The address register of a word store.
    fn sw_dest(&self) -> (r: StandardRegister)
        requires
            self matches Inst::Sw(_),
        ensures
            *self matches Inst::Sw(o) && o.dest == r,
    {
        match *self {
            Inst::Sw(o) => o.dest,
            _ => StandardRegister::Zero,
        }
    }

    /// The data register of a word store.
    fn sw_src(&self) -> (r: StandardRegister)
        requires
            self matches Inst::Sw(_),
        ensures
            *self matches Inst::Sw(o) && o.src == r,
    {
        match *self {
            Inst::Sw(o) => o.src,
            _ => StandardRegister::Zero,
        }
    }

    /// The offset of a word store.
    fn sw_offset(&self) -> (r: Half)
        requires
            self matches Inst::Sw(_),
        ensures
            *self matches Inst::Sw(o) && o.offset == r,
    {
        match *self {
            Inst::Sw(o) => o.offset,
            _ => Half { lo: Tryte::zero(), hi: Tryte::zero() },
        }
    }

    /// Encode the branch, jump, SYSCALL and BREAK mnemonics.
    #[verifier::rlimit(100)]
    #[verifier::spinoff_prover]
    fn to_word_flow_form(&self) -> (w: Vec<Tryte>)
        requires
            self.wf(),
            !(self matches Inst::And(_)) && !(self matches Inst::Or(_)) && !(self
                matches Inst::Tmul(_)) && !(self matches Inst::Tcmp(_)) && !(self
                matches Inst::Cmp(_)) && !(self matches Inst::Shf(_)) && !(self
                matches Inst::Add(_)) && !(self matches Inst::Mul(_)) && !(self
                matches Inst::Div(_)) && !(self matches Inst::Jr(_)) && !(self
                matches Inst::Jalr(_)) && !(self matches Inst::Andi(_)) && !(self
                matches Inst::Ori(_)) && !(self matches Inst::Tmuli(_)) && !(self
                matches Inst::Tcmpi(_)) && !(self matches Inst::Shfi(_)) && !(self
                matches Inst::Addi(_)) && !(self matches Inst::Lui(_)) && !(self
                matches Inst::Lt(_)) && !(self matches Inst::Lh(_)) && !(self
                matches Inst::Lw(_)) && !(self matches Inst::St(_)) && !(self
                matches Inst::Sh(_)) && !(self matches Inst::Sw(_)),
        ensures
            w@.len() == 4,
            spec_decode(w@) == Some(*self),
    {
        match *self {
            Inst::BT(o) => build_ro(22, o.src, o.offset),
            Inst::B0(o) => build_ro(23, o.src, o.offset),
            Inst::B1(o) => build_ro(24, o.src, o.offset),
            Inst::BT0(o) => build_ro(25, o.src, o.offset),
            Inst::BT1(o) => build_ro(26, o.src, o.offset),
            Inst::B01(o) => build_ro(27, o.src, o.offset),
            Inst::Bal(o) => build_ro(28, StandardRegister::Zero, o.offset),
            Inst::J(o) => build_a(29, o.addr),
            Inst::Jal(o) => build_a(30, o.addr),
            Inst::Syscall(u) => build_empty(33),
            _ => build_empty(34),
        }
    }
}

/// Canonical form for a branch offset: the eight trits the word cannot
/// carry are zero.
pub open spec fn ro_wf(offset: Word) -> bool {
    offset.w2.t4 == Trit::Zero && offset.w2.t5 == Trit::Zero && offset.w3 == Tryte::spec_zero()
}

/// Canonical form for a jump target: the four trits the word cannot carry
/// are zero.
pub open spec fn a_wf(addr: Word) -> bool {
    addr.w3.t2 == Trit::Zero && addr.w3.t3 == Trit::Zero && addr.w3.t4 == Trit::Zero
        && addr.w3.t5 == Trit::Zero
}

} // verus!
