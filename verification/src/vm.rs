//! The execution engine: fetch, decode and dispatch over a register file
//! and a trit-addressable memory with a centered, signed address window.

use vstd::prelude::*;

verus! {

use vstd::arithmetic::power::pow;
use crate::error::Error;
use crate::inst::Inst;
use crate::operands::{Half, Word, A, O, R, RI, RO, RR, RRI, RRO, RRR};
use crate::registers::{Register, RegisterFile};
use crate::ternary;
use crate::ternary::{trit_of, value_of, zero_trytes};
use crate::trit::{sgn, Trit};
use crate::tryte::Tryte;

/// What a single executed instruction asks of the machine's driver.
#[derive(Clone, Copy, Debug, PartialEq, Eq, Structural)]
pub enum StepOutcome {
    /// Go on with the next instruction.
    Continue,
    /// The instruction was SYSCALL: the host decides what it means.
    Syscall,
    /// The instruction was BREAK: the machine has stopped.
    Halted,
}

/// The word a half extends to: the half in the low two trytes, zero above.
pub open spec fn half_word_seq(h: Half) -> Seq<Tryte> {
    seq![h.lo, h.hi, Tryte::spec_zero(), Tryte::spec_zero()]
}

/// The sequence of trytes of a word-sized operand payload.
pub open spec fn word_seq(w: Word) -> Seq<Tryte> {
    seq![w.w0, w.w1, w.w2, w.w3]
}

/// The virtual machine: a run flag, the program counter, the register
/// file and the memory, a flat vector of trytes whose signed addresses
/// are centered on zero.
pub struct VM {
    pub running: bool,
    pub pc: i32,
    pub registers: RegisterFile,
    pub memory: Vec<Tryte>,
}

impl VM {
    /// Well-formedness: a full register file and a bounded memory.
    pub open spec fn wf(self) -> bool {
        &&& self.registers.wf()
        &&& self.memory@.len() <= 0x100_0000
    }

    /// The ZERO register reads as zero.
    pub open spec fn zero_reg_ok(self) -> bool {
        forall|k: int| 0 <= k < 4 ==> self.registers.reg_seq(0)[k] == Tryte::spec_zero()
    }

    /// The index of the memory cell at signed address zero.
    pub open spec fn mem_base(self) -> int {
        self.memory@.len() as int / 2
    }

    /// Whether an access of `n` trytes at the given address stays inside
    /// the centered window.
    pub open spec fn addr_in_range(self, addr: int, n: int) -> bool {
        0 <= addr + self.mem_base() && addr + self.mem_base() + n <= self.memory@.len()
    }

    /// Whether an address is aligned for an access of `n` trytes.
    pub open spec fn spec_aligned(addr: int, n: int) -> bool {
        addr % n == 0
    }

    /// The value held by the register in slot `idx`.
    pub open spec fn rv(self, idx: int) -> int {
        self.registers.reg_value(idx)
    }

    /// Everything but the registers is unchanged.
    pub open spec fn ctrl_eq(self, other: VM) -> bool {
        &&& self.pc == other.pc
        &&& self.running == other.running
        &&& self.memory@ == other.memory@
    }

    /// All registers outside the three named slots are unchanged.
    pub open spec fn regs_except(self, other: VM, x: int, y: int, z: int) -> bool {
        forall|r: int|
            0 <= r < 28 && r != x && r != y && r != z ==> self.registers.reg_seq(r)
                == other.registers.reg_seq(r)
    }

    /// Whether an access of `n` trytes at the address is aligned and
    /// inside the window.
    pub open spec fn mem_access_ok(self, addr: int, n: int) -> bool {
        VM::spec_aligned(addr, n) && self.addr_in_range(addr, n)
    }

    /// The error a failing access of `n` trytes at the address reports:
    /// misalignment is diagnosed first, then the window.
    pub open spec fn spec_mem_error(self, addr: int, n: int) -> Error {
        if !VM::spec_aligned(addr, n) {
            Error::InvalidAlignment(addr as i64)
        } else {
            Error::InvalidAddress(addr as i64)
        }
    }

    /// The effective address of a memory instruction: the base register
    /// named by `reg` plus the signed offset.
    pub open spec fn mem_target(self, reg: int, offset: Half) -> int {
        self.rv(reg) + offset.value()
    }

    /// What a successful load of `n` trytes does: the destination takes
    /// the memory trytes zero-extended (zero extension is sign extension
    /// in balanced ternary), ZERO is re-cleared, and no other register or
    /// any other state changes.
    pub open spec fn load_effect(pre: VM, post: VM, o: RRO, n: int) -> bool {
        let a = pre.mem_target(o.src.index_spec(), o.offset) + pre.mem_base();
        &&& post.zero_reg_ok()
        &&& post.regs_except(pre, o.dest.index_spec(), 0, 0)
        &&& (o.dest.index_spec() != 0 ==> {
            &&& (forall|k: int|
                0 <= k < n ==> post.registers.reg_seq(o.dest.index_spec())[k] == pre.memory@[a
                    + k])
            &&& (forall|k: int|
                n <= k < 4 ==> post.registers.reg_seq(o.dest.index_spec())[k]
                    == Tryte::spec_zero())
        })
    }

    /// What a successful store of `n` trytes does: the window takes the
    /// low trytes of the source register and every other cell keeps its
    /// tryte.
    pub open spec fn store_effect(pre: VM, post: VM, o: RRO, n: int) -> bool {
        let a = pre.mem_target(o.dest.index_spec(), o.offset) + pre.mem_base();
        &&& (forall|q: int|
            0 <= q < n ==> post.memory@[a + q] == pre.registers.reg_seq(o.src.index_spec())[q])
        &&& (forall|q: int|
            0 <= q < pre.memory@.len() && !(a <= q < a + n) ==> post.memory@[q]
                == pre.memory@[q])
    }

    /// What an arithmetic shift does: the source register sits in a
    /// triple-wide window at trit position `off + 24`; the low, middle and
    /// high thirds of that window land in LO, the destination and HI, and
    /// ZERO is re-cleared.
    pub open spec fn shift_effect(pre: VM, post: VM, d: int, src: int, off: int) -> bool {
        &&& post.zero_reg_ok()
        &&& (forall|r: int|
            0 <= r < 28 && r != d && r != 1 && r != 2 && r != 0 ==> post.registers.reg_seq(r)
                == pre.registers.reg_seq(r))
        &&& (d != 0 && d != 1 && d != 2 ==> forall|j: int|
            0 <= j < 24 ==> trit_of(post.registers.reg_seq(d), j) == (if 0 <= j - off < 24 {
                trit_of(pre.registers.reg_seq(src), j - off)
            } else {
                Trit::Zero
            }))
        &&& (d != 1 && d != 2 ==> (forall|j: int|
            0 <= j < 24 ==> trit_of(post.registers.reg_seq(1), j) == (if 0 <= j - off - 24
                < 24 {
                trit_of(pre.registers.reg_seq(src), j - off - 24)
            } else {
                Trit::Zero
            })) && (forall|j: int|
            0 <= j < 24 ==> trit_of(post.registers.reg_seq(2), j) == (if 0 <= j - off + 24
                < 24 {
                trit_of(pre.registers.reg_seq(src), j - off + 24)
            } else {
                Trit::Zero
            })))
    }

    /// Program counter, run flag and memory are untouched, and the
    /// counter holds the already-advanced value `pc1`.
    pub open spec fn ctrl_keep(pre: VM, pc1: int, post: VM) -> bool {
        &&& post.pc == pc1
        &&& post.running == pre.running
        &&& post.memory@ == pre.memory@
    }

    /// What a digitwise AND does: the destination takes the pointwise
    /// minimum of the two sources and ZERO is re-cleared.
    pub open spec fn alu_and_effect(pre: VM, post: VM, d: int, lhs: Seq<Tryte>, rhs: Seq<
        Tryte>) -> bool {
        &&& post.zero_reg_ok()
        &&& post.regs_except(pre, d, 0, 0)
        &&& (d != 0 ==> forall|j: int|
            0 <= j < 24 ==> trit_of(post.registers.reg_seq(d), j).val() == (if trit_of(
                lhs,
                j,
            ).val() <= trit_of(rhs, j).val() {
                trit_of(lhs, j).val()
            } else {
                trit_of(rhs, j).val()
            }))
    }

    /// What a digitwise OR does: the pointwise maximum.
    pub open spec fn alu_or_effect(pre: VM, post: VM, d: int, lhs: Seq<Tryte>, rhs: Seq<
        Tryte>) -> bool {
        &&& post.zero_reg_ok()
        &&& post.regs_except(pre, d, 0, 0)
        &&& (d != 0 ==> forall|j: int|
            0 <= j < 24 ==> trit_of(post.registers.reg_seq(d), j).val() == (if trit_of(
                lhs,
                j,
            ).val() >= trit_of(rhs, j).val() {
                trit_of(lhs, j).val()
            } else {
                trit_of(rhs, j).val()
            }))
    }

    /// What a digitwise comparison does: the pointwise sign of the
    /// difference.
    pub open spec fn alu_tcmp_effect(pre: VM, post: VM, d: int, lhs: Seq<Tryte>, rhs: Seq<
        Tryte>) -> bool {
        &&& post.zero_reg_ok()
        &&& post.regs_except(pre, d, 0, 0)
        &&& (d != 0 ==> forall|j: int|
            0 <= j < 24 ==> trit_of(post.registers.reg_seq(d), j).val() == sgn(
                trit_of(lhs, j).val() - trit_of(rhs, j).val(),
            ))
    }

    /// What a digitwise product does.
    pub open spec fn alu_tmul_effect(pre: VM, post: VM, d: int, lhs: Seq<Tryte>, rhs: Seq<
        Tryte>) -> bool {
        &&& post.zero_reg_ok()
        &&& post.regs_except(pre, d, 0, 0)
        &&& (d != 0 ==> forall|j: int|
            0 <= j < 24 ==> trit_of(post.registers.reg_seq(d), j).val() == trit_of(
                lhs,
                j,
            ).val() * trit_of(rhs, j).val())
    }

    /// What a ripple addition does: when the destination is a plain
    /// register, it takes the sum and HI the carry digit, exactly.
    pub open spec fn add_effect(pre: VM, post: VM, d: int, total: int) -> bool {
        &&& post.zero_reg_ok()
        &&& post.regs_except(pre, d, 2, 0)
        &&& (d != 0 && d != 2 ==> post.rv(d) + post.rv(2) * pow(3, 24) == total && -1 <= post.rv(
            2,
        ) <= 1)
    }

    /// What CMP does: the destination takes the bare sign of the scalar
    /// comparison; HI is left alone.
    pub open spec fn cmp_effect(pre: VM, post: VM, d: int, diff: int) -> bool {
        &&& post.zero_reg_ok()
        &&& post.regs_except(pre, d, 0, 0)
        &&& (d != 0 ==> post.rv(d) == sgn(diff))
    }

    /// What MUL does: the double-width product goes to LO and HI.
    pub open spec fn mul_effect(pre: VM, post: VM, product: int) -> bool {
        &&& post.zero_reg_ok()
        &&& post.regs_except(pre, 1, 2, 0)
        &&& post.rv(1) + post.rv(2) * pow(3, 24) == product
    }

    /// What DIV does: quotient to LO and remainder to HI, rounded toward
    /// zero with the remainder carrying the dividend's sign; a zero
    /// divisor leaves LO zero and the dividend in HI.
    pub open spec fn div_effect(pre: VM, post: VM, a: int, b: int) -> bool {
        &&& post.zero_reg_ok()
        &&& post.regs_except(pre, 1, 2, 0)
        &&& (b != 0 ==> post.rv(1) * b + post.rv(2) == a && (post.rv(2) == 0 || sgn(post.rv(2))
            == sgn(a)) && (if post.rv(2) >= 0 {
            post.rv(2)
        } else {
            -post.rv(2)
        }) < (if b >= 0 {
            b
        } else {
            -b
        }))
        &&& (b == 0 ==> post.rv(1) == 0 && post.rv(2) == a)
    }

    /// What LUI does: the immediate becomes the high half of the
    /// destination, over a zeroed low half.
    pub open spec fn lui_effect(pre: VM, post: VM, d: int, imm: Half) -> bool {
        &&& post.zero_reg_ok()
        &&& post.regs_except(pre, d, 0, 0)
        &&& (d != 0 ==> post.registers.reg_seq(d) =~= seq![
            Tryte::spec_zero(),
            Tryte::spec_zero(),
            imm.lo,
            imm.hi,
        ] && post.rv(d) == imm.value() * pow(3, 12))
    }

    /// What a taken or untaken branch does to the program counter.
    pub open spec fn branch_effect(pre: VM, pc1: int, post: VM, o: RO, taken: bool) -> bool {
        &&& post.registers == pre.registers
        &&& post.memory@ == pre.memory@
        &&& post.running == pre.running
        &&& post.pc == (if taken {
            ((pc1 + o.offset.value()) as i32) as int
        } else {
            pc1
        })
    }

    /// What one successfully executed instruction does to the machine.
    /// `pre` is the state at fetch and `pc1` the program counter already
    /// advanced past the instruction word.
    pub open spec fn step_effect(pre: VM, pc1: int, post: VM, i: Inst) -> bool {
        match i {
            Inst::And(o) => VM::ctrl_keep(pre, pc1, post) && VM::alu_and_effect(
                pre,
                post,
                o.dest.index_spec(),
                pre.registers.reg_seq(o.lhs.index_spec()),
                pre.registers.reg_seq(o.rhs.index_spec()),
            ),
            Inst::Or(o) => VM::ctrl_keep(pre, pc1, post) && VM::alu_or_effect(
                pre,
                post,
                o.dest.index_spec(),
                pre.registers.reg_seq(o.lhs.index_spec()),
                pre.registers.reg_seq(o.rhs.index_spec()),
            ),
            Inst::Tmul(o) => VM::ctrl_keep(pre, pc1, post) && VM::alu_tmul_effect(
                pre,
                post,
                o.dest.index_spec(),
                pre.registers.reg_seq(o.lhs.index_spec()),
                pre.registers.reg_seq(o.rhs.index_spec()),
            ),
            Inst::Tcmp(o) => VM::ctrl_keep(pre, pc1, post) && VM::alu_tcmp_effect(
                pre,
                post,
                o.dest.index_spec(),
                pre.registers.reg_seq(o.lhs.index_spec()),
                pre.registers.reg_seq(o.rhs.index_spec()),
            ),
            Inst::Cmp(o) => VM::ctrl_keep(pre, pc1, post) && VM::cmp_effect(
                pre,
                post,
                o.dest.index_spec(),
                pre.rv(o.lhs.index_spec()) - pre.rv(o.rhs.index_spec()),
            ),
            Inst::Shf(o) => VM::ctrl_keep(pre, pc1, post) && VM::shift_effect(
                pre,
                post,
                o.dest.index_spec(),
                o.lhs.index_spec(),
                pre.rv(o.rhs.index_spec()),
            ),
            Inst::Add(o) => VM::ctrl_keep(pre, pc1, post) && VM::add_effect(
                pre,
                post,
                o.dest.index_spec(),
                pre.rv(o.lhs.index_spec()) + pre.rv(o.rhs.index_spec()),
            ),
            Inst::Mul(o) => VM::ctrl_keep(pre, pc1, post) && VM::mul_effect(
                pre,
                post,
                pre.rv(o.lhs.index_spec()) * pre.rv(o.rhs.index_spec()),
            ),
            Inst::Div(o) => VM::ctrl_keep(pre, pc1, post) && VM::div_effect(
                pre,
                post,
                pre.rv(o.lhs.index_spec()),
                pre.rv(o.rhs.index_spec()),
            ),
            Inst::Andi(o) => VM::ctrl_keep(pre, pc1, post) && VM::alu_and_effect(
                pre,
                post,
                o.dest.index_spec(),
                pre.registers.reg_seq(o.src.index_spec()),
                half_word_seq(o.immediate),
            ),
            Inst::Ori(o) => VM::ctrl_keep(pre, pc1, post) && VM::alu_or_effect(
                pre,
                post,
                o.dest.index_spec(),
                pre.registers.reg_seq(o.src.index_spec()),
                half_word_seq(o.immediate),
            ),
            Inst::Tmuli(o) => VM::ctrl_keep(pre, pc1, post) && VM::alu_tmul_effect(
                pre,
                post,
                o.dest.index_spec(),
                pre.registers.reg_seq(o.src.index_spec()),
                half_word_seq(o.immediate),
            ),
            Inst::Tcmpi(o) => VM::ctrl_keep(pre, pc1, post) && VM::alu_tcmp_effect(
                pre,
                post,
                o.dest.index_spec(),
                pre.registers.reg_seq(o.src.index_spec()),
                half_word_seq(o.immediate),
            ),
            Inst::Shfi(o) => VM::ctrl_keep(pre, pc1, post) && VM::shift_effect(
                pre,
                post,
                o.dest.index_spec(),
                o.src.index_spec(),
                o.immediate.value(),
            ),
            Inst::Addi(o) => VM::ctrl_keep(pre, pc1, post) && VM::add_effect(
                pre,
                post,
                o.dest.index_spec(),
                pre.rv(o.src.index_spec()) + o.immediate.value(),
            ),
            Inst::Lui(o) => VM::ctrl_keep(pre, pc1, post) && VM::lui_effect(
                pre,
                post,
                o.dest.index_spec(),
                o.immediate,
            ),
            Inst::Lt(o) => VM::ctrl_keep(pre, pc1, post) && pre.mem_access_ok(
                pre.mem_target(o.src.index_spec(), o.offset),
                1,
            ) && VM::load_effect(pre, post, o, 1),
            Inst::Lh(o) => VM::ctrl_keep(pre, pc1, post) && pre.mem_access_ok(
                pre.mem_target(o.src.index_spec(), o.offset),
                2,
            ) && VM::load_effect(pre, post, o, 2),
            Inst::Lw(o) => VM::ctrl_keep(pre, pc1, post) && pre.mem_access_ok(
                pre.mem_target(o.src.index_spec(), o.offset),
                4,
            ) && VM::load_effect(pre, post, o, 4),
            Inst::St(o) => post.registers == pre.registers && post.pc == pc1 && post.running
                == pre.running && post.memory@.len() == pre.memory@.len() && pre.mem_access_ok(
                pre.mem_target(o.dest.index_spec(), o.offset),
                1,
            ) && VM::store_effect(pre, post, o, 1),
            Inst::Sh(o) => post.registers == pre.registers && post.pc == pc1 && post.running
                == pre.running && post.memory@.len() == pre.memory@.len() && pre.mem_access_ok(
                pre.mem_target(o.dest.index_spec(), o.offset),
                2,
            ) && VM::store_effect(pre, post, o, 2),
            Inst::Sw(o) => post.registers == pre.registers && post.pc == pc1 && post.running
                == pre.running && post.memory@.len() == pre.memory@.len() && pre.mem_access_ok(
                pre.mem_target(o.dest.index_spec(), o.offset),
                4,
            ) && VM::store_effect(pre, post, o, 4),
            Inst::BT(o) => VM::branch_effect(
                pre,
                pc1,
                post,
                o,
                pre.registers.reg_seq(o.src.index_spec())[0].t0 == Trit::Neg,
            ),
            Inst::B0(o) => VM::branch_effect(
                pre,
                pc1,
                post,
                o,
                pre.registers.reg_seq(o.src.index_spec())[0].t0 == Trit::Zero,
            ),
            Inst::B1(o) => VM::branch_effect(
                pre,
                pc1,
                post,
                o,
                pre.registers.reg_seq(o.src.index_spec())[0].t0 == Trit::Pos,
            ),
            Inst::BT0(o) => VM::branch_effect(
                pre,
                pc1,
                post,
                o,
                pre.registers.reg_seq(o.src.index_spec())[0].t0 != Trit::Pos,
            ),
            Inst::BT1(o) => VM::branch_effect(
                pre,
                pc1,
                post,
                o,
                pre.registers.reg_seq(o.src.index_spec())[0].t0 != Trit::Zero,
            ),
            Inst::B01(o) => VM::branch_effect(
                pre,
                pc1,
                post,
                o,
                pre.registers.reg_seq(o.src.index_spec())[0].t0 != Trit::Neg,
            ),
            Inst::Bal(o) => {
                &&& post.memory@ == pre.memory@
                &&& post.running == pre.running
                &&& post.regs_except(pre, 5, 5, 5)
                &&& post.rv(5) == pc1
                &&& post.pc == ((pc1 + o.offset.value()) as i32) as int
            },
            Inst::J(o) => {
                &&& post.registers == pre.registers
                &&& post.memory@ == pre.memory@
                &&& post.running == pre.running
                &&& post.pc == (o.addr.value() as i32) as int
            },
            Inst::Jal(o) => {
                &&& post.memory@ == pre.memory@
                &&& post.running == pre.running
                &&& post.regs_except(pre, 5, 5, 5)
                &&& post.rv(5) == pc1
                &&& post.pc == (o.addr.value() as i32) as int
            },
            Inst::Jr(o) => {
                &&& post.registers == pre.registers
                &&& post.memory@ == pre.memory@
                &&& post.running == pre.running
                &&& post.pc == (pre.rv(o.src.index_spec()) as i32) as int
            },
            Inst::Jalr(o) => {
                &&& post.memory@ == pre.memory@
                &&& post.running == pre.running
                &&& post.regs_except(pre, 5, 5, 5)
                &&& post.rv(5) == pc1
                &&& post.pc == (pre.rv(o.src.index_spec()) as i32) as int
            },
            Inst::Syscall(u) => VM::ctrl_keep(pre, pc1, post) && post.registers
                == pre.registers,
            Inst::Break(u) => {
                &&& post.pc == pc1
                &&& post.memory@ == pre.memory@
                &&& post.registers == pre.registers
                &&& !post.running
            },
        }
    }

    /// The transition relation reads only the registers, the memory and
    /// the run flag of the pre-state; the pre-state's own counter does
    /// not matter (the advanced counter is passed separately).
    #[verifier::rlimit(100)]
    #[verifier::spinoff_prover]
    pub proof fn lemma_step_effect_pre(pre1: VM, pre2: VM, pc1: int, post: VM, i: Inst)
        requires
            pre1.registers == pre2.registers,
            pre1.memory@ == pre2.memory@,
            pre1.running == pre2.running,
            VM::step_effect(pre1, pc1, post, i),
        ensures
            VM::step_effect(pre2, pc1, post, i),
    {
    }

    /// A machine with a zeroed memory of the given size.
    pub fn new(memory_trytes: usize) -> (vm: VM)
        requires
            memory_trytes <= 0x100_0000,
        ensures
            vm.wf(),
            vm.zero_reg_ok(),
            !vm.running,
            vm.pc == 0,
            vm.memory@.len() == memory_trytes,
            forall|k: int| 0 <= k < memory_trytes ==> vm.memory@[k] == Tryte::spec_zero(),
            forall|idx: int| 0 <= idx < 28 ==> vm.rv(idx) == 0,
    {
        VM { running: false, pc: 0, registers: RegisterFile::new(), memory: zero_trytes(
            memory_trytes,
        ) }
    }

    /// A machine over the given memory image.
    pub fn from_memory(memory: Vec<Tryte>) -> (vm: VM)
        requires
            memory@.len() <= 0x100_0000,
        ensures
            vm.wf(),
            vm.zero_reg_ok(),
            !vm.running,
            vm.pc == 0,
            vm.memory@ == memory@,
            forall|idx: int| 0 <= idx < 28 ==> vm.rv(idx) == 0,
    {
        VM { running: false, pc: 0, registers: RegisterFile::new(), memory }
    }

    /// Translate a signed address into a memory index, checking alignment
    /// first and then the window. This is where every misaligned or
    /// out-of-window access fails, with the matching error.
    pub fn mem_index(&self, addr: i64, n: usize) -> (r: Result<usize, Error>)
        requires
            self.wf(),
            n == 1 || n == 2 || n == 4,
        ensures
            r is Ok <==> VM::spec_aligned(addr as int, n as int) && self.addr_in_range(
                addr as int,
                n as int,
            ),
            match r {
                Ok(i) => i + n <= self.memory@.len() && i == addr + self.mem_base(),
                Err(e) => e == if !VM::spec_aligned(addr as int, n as int) {
                    Error::InvalidAlignment(addr)
                } else {
                    Error::InvalidAddress(addr)
                },
            },
    {
        let mag: i64 = if addr >= 0 {
            addr
        } else {
            if addr == i64::MIN {
                return Err(Error::InvalidAddress(addr));
            }
            -addr
        };
        let rem = mag % (n as i64);
        if rem != 0 {
            return Err(Error::InvalidAlignment(addr));
        }
        proof {
            assert(addr as int % (n as int) == 0);
        }
        let base: i64 = (self.memory.len() / 2) as i64;
        let idx: i128 = addr as i128 + base as i128;
        if idx < 0 || idx + (n as i128) > self.memory.len() as i128 {
            return Err(Error::InvalidAddress(addr));
        }
        Ok(idx as usize)
    }

    /// Read `n` trytes from memory at a signed address.
    pub fn read_mem(&self, addr: i64, n: usize) -> (r: Result<Vec<Tryte>, Error>)
        requires
            self.wf(),
            n == 1 || n == 2 || n == 4,
        ensures
            r is Ok <==> VM::spec_aligned(addr as int, n as int) && self.addr_in_range(
                addr as int,
                n as int,
            ),
            match r {
                Ok(w) => w@ == self.memory@.subrange(
                    addr + self.mem_base(),
                    addr + self.mem_base() + n,
                ),
                Err(e) => e == if !VM::spec_aligned(addr as int, n as int) {
                    Error::InvalidAlignment(addr)
                } else {
                    Error::InvalidAddress(addr)
                },
            },
    {
        let i = self.mem_index(addr, n)?;
        let mut w: Vec<Tryte> = Vec::new();
        let mut k: usize = 0;
        while k < n
            invariant
                k <= n,
                i + n <= self.memory@.len(),
                self.memory@.len() <= 0x100_0000,
                w@.len() == k,
                forall|q: int| 0 <= q < k ==> w@[q] == self.memory@[i + q],
            decreases n - k,
        {
            w.push(self.memory[i + k]);
            k = k + 1;
        }
        proof {
            assert(w@ =~= self.memory@.subrange(addr + self.mem_base(), addr + self.mem_base()
                + n));
        }
        Ok(w)
    }

    /// Write the trytes of `w` to memory at a signed address. On any
    /// failure the memory is untouched.
    pub fn write_mem(&mut self, addr: i64, w: &Vec<Tryte>) -> (r: Result<(), Error>)
        requires
            old(self).wf(),
            w@.len() == 1 || w@.len() == 2 || w@.len() == 4,
        ensures
            final(self).wf(),
            final(self).registers == old(self).registers,
            final(self).pc == old(self).pc,
            final(self).running == old(self).running,
            final(self).memory@.len() == old(self).memory@.len(),
            r is Ok <==> VM::spec_aligned(addr as int, w@.len() as int) && old(
                self,
            ).addr_in_range(addr as int, w@.len() as int),
            match r {
                Ok(u) => {
                    &&& forall|q: int|
                        0 <= q < w@.len() ==> final(self).memory@[addr + old(self).mem_base() + q]
                            == w@[q]
                    &&& forall|q: int|
                        0 <= q < old(self).memory@.len() && !(addr + old(self).mem_base() <= q
                            < addr + old(self).mem_base() + w@.len()) ==> final(self).memory@[q]
                            == old(self).memory@[q]
                },
                Err(e) => final(self).memory@ == old(self).memory@ && e == if !VM::spec_aligned(
                    addr as int,
                    w@.len() as int,
                ) {
                    Error::InvalidAlignment(addr)
                } else {
                    Error::InvalidAddress(addr)
                },
            },
    {
        let n = w.len();
        let i = self.mem_index(addr, n)?;
        let mut k: usize = 0;
        while k < n
            invariant
                k <= n,
                n == w@.len(),
                i + n <= self.memory@.len(),
                self.memory@.len() <= 0x100_0000,
                self.memory@.len() == old(self).memory@.len(),
                self.registers == old(self).registers,
                self.pc == old(self).pc,
                self.running == old(self).running,
                i == addr + old(self).mem_base(),
                forall|q: int| 0 <= q < k ==> self.memory@[i + q] == w@[q],
                forall|q: int|
                    0 <= q < old(self).memory@.len() && !(i <= q < i + k) ==> self.memory@[q]
                        == old(self).memory@[q],
            decreases n - k,
        {
            self.memory.set(i + k, w[k]);
            k = k + 1;
        }
        Ok(())
    }

    /// The word a half-sized operand extends to.
    fn half_word(h: Half) -> (w: Vec<Tryte>)
        ensures
            w@ == half_word_seq(h),
            w@.len() == 4,
    {
        let mut w: Vec<Tryte> = Vec::new();
        w.push(h.lo);
        w.push(h.hi);
        w.push(Tryte::zero());
        w.push(Tryte::zero());
        proof {
            assert(w@ =~= half_word_seq(h));
        }
        w
    }

    /// The trytes of a word-sized operand payload.
    fn word_vec(w: Word) -> (v: Vec<Tryte>)
        ensures
            v@ == word_seq(w),
            v@.len() == 4,
    {
        let mut v: Vec<Tryte> = Vec::new();
        v.push(w.w0);
        v.push(w.w1);
        v.push(w.w2);
        v.push(w.w3);
        proof {
            assert(v@ =~= word_seq(w));
        }
        v
    }

    /// Store a word into a destination register and re-clear ZERO.
    fn store_result(&mut self, d: usize, buf: &Vec<Tryte>)
        requires
            old(self).wf(),
            d < 28,
            buf@.len() == 4,
        ensures
            final(self).wf(),
            final(self).ctrl_eq(*old(self)),
            final(self).zero_reg_ok(),
            final(self).regs_except(*old(self), d as int, 0, 0),
            d != 0 ==> final(self).registers.reg_seq(d as int) == buf@,
    {
        self.registers.set(d, buf);
        self.registers.clear_reg(0);
    }

    /// AND: digitwise minimum of two registers into the destination.
    pub fn op_and(&mut self, o: RRR)
        requires
            old(self).wf(),
        ensures
            final(self).wf(),
            final(self).ctrl_eq(*old(self)),
            final(self).zero_reg_ok(),
            final(self).regs_except(*old(self), o.dest.index_spec(), 0, 0),
            o.dest.index_spec() != 0 ==> forall|j: int|
                0 <= j < 24 ==> trit_of(
                    final(self).registers.reg_seq(o.dest.index_spec()),
                    j,
                ).val() == (if trit_of(old(self).registers.reg_seq(o.lhs.index_spec()), j).val()
                    <= trit_of(old(self).registers.reg_seq(o.rhs.index_spec()), j).val() {
                    trit_of(old(self).registers.reg_seq(o.lhs.index_spec()), j).val()
                } else {
                    trit_of(old(self).registers.reg_seq(o.rhs.index_spec()), j).val()
                }),
    {
        let lhs = self.registers.get(o.lhs.into_index());
        let rhs = self.registers.get(o.rhs.into_index());
        let mut buf = zero_trytes(4);
        ternary::and(&mut buf, &lhs, &rhs);
        self.store_result(o.dest.into_index(), &buf);
    }

    /// OR: digitwise maximum of two registers into the destination.
    pub fn op_or(&mut self, o: RRR)
        requires
            old(self).wf(),
        ensures
            final(self).wf(),
            final(self).ctrl_eq(*old(self)),
            final(self).zero_reg_ok(),
            final(self).regs_except(*old(self), o.dest.index_spec(), 0, 0),
            o.dest.index_spec() != 0 ==> forall|j: int|
                0 <= j < 24 ==> trit_of(
                    final(self).registers.reg_seq(o.dest.index_spec()),
                    j,
                ).val() == (if trit_of(old(self).registers.reg_seq(o.lhs.index_spec()), j).val()
                    >= trit_of(old(self).registers.reg_seq(o.rhs.index_spec()), j).val() {
                    trit_of(old(self).registers.reg_seq(o.lhs.index_spec()), j).val()
                } else {
                    trit_of(old(self).registers.reg_seq(o.rhs.index_spec()), j).val()
                }),
    {
        let lhs = self.registers.get(o.lhs.into_index());
        let rhs = self.registers.get(o.rhs.into_index());
        let mut buf = zero_trytes(4);
        ternary::or(&mut buf, &lhs, &rhs);
        self.store_result(o.dest.into_index(), &buf);
    }

    /// TCMP: digitwise comparison of two registers into the destination.
    pub fn op_tcmp(&mut self, o: RRR)
        requires
            old(self).wf(),
        ensures
            final(self).wf(),
            final(self).ctrl_eq(*old(self)),
            final(self).zero_reg_ok(),
            final(self).regs_except(*old(self), o.dest.index_spec(), 0, 0),
            o.dest.index_spec() != 0 ==> forall|j: int|
                0 <= j < 24 ==> trit_of(
                    final(self).registers.reg_seq(o.dest.index_spec()),
                    j,
                ).val() == sgn(
                    trit_of(old(self).registers.reg_seq(o.lhs.index_spec()), j).val() - trit_of(
                        old(self).registers.reg_seq(o.rhs.index_spec()),
                        j,
                    ).val(),
                ),
    {
        let lhs = self.registers.get(o.lhs.into_index());
        let rhs = self.registers.get(o.rhs.into_index());
        let mut buf = zero_trytes(4);
        ternary::tcmp(&mut buf, &lhs, &rhs);
        self.store_result(o.dest.into_index(), &buf);
    }

    /// TMUL: digitwise product of two registers into the destination.
    pub fn op_tmul(&mut self, o: RRR)
        requires
            old(self).wf(),
        ensures
            final(self).wf(),
            final(self).ctrl_eq(*old(self)),
            final(self).zero_reg_ok(),
            final(self).regs_except(*old(self), o.dest.index_spec(), 0, 0),
            o.dest.index_spec() != 0 ==> forall|j: int|
                0 <= j < 24 ==> trit_of(
                    final(self).registers.reg_seq(o.dest.index_spec()),
                    j,
                ).val() == trit_of(old(self).registers.reg_seq(o.lhs.index_spec()), j).val()
                    * trit_of(old(self).registers.reg_seq(o.rhs.index_spec()), j).val(),
    {
        let lhs = self.registers.get(o.lhs.into_index());
        let rhs = self.registers.get(o.rhs.into_index());
        let mut buf = zero_trytes(4);
        ternary::tmul(&mut buf, &lhs, &rhs);
        self.store_result(o.dest.into_index(), &buf);
    }

    /// ANDI: digitwise minimum of a register and an immediate.
    pub fn op_andi(&mut self, o: RRI)
        requires
            old(self).wf(),
        ensures
            final(self).wf(),
            final(self).ctrl_eq(*old(self)),
            final(self).zero_reg_ok(),
            final(self).regs_except(*old(self), o.dest.index_spec(), 0, 0),
            o.dest.index_spec() != 0 ==> forall|j: int|
                0 <= j < 24 ==> trit_of(
                    final(self).registers.reg_seq(o.dest.index_spec()),
                    j,
                ).val() == (if trit_of(old(self).registers.reg_seq(o.src.index_spec()), j).val()
                    <= trit_of(half_word_seq(o.immediate), j).val() {
                    trit_of(old(self).registers.reg_seq(o.src.index_spec()), j).val()
                } else {
                    trit_of(half_word_seq(o.immediate), j).val()
                }),
    {
        let lhs = self.registers.get(o.src.into_index());
        let rhs = VM::half_word(o.immediate);
        let mut buf = zero_trytes(4);
        ternary::and(&mut buf, &lhs, &rhs);
        self.store_result(o.dest.into_index(), &buf);
    }

    /// ORI: digitwise maximum of a register and an immediate.
    pub fn op_ori(&mut self, o: RRI)
        requires
            old(self).wf(),
        ensures
            final(self).wf(),
            final(self).ctrl_eq(*old(self)),
            final(self).zero_reg_ok(),
            final(self).regs_except(*old(self), o.dest.index_spec(), 0, 0),
            o.dest.index_spec() != 0 ==> forall|j: int|
                0 <= j < 24 ==> trit_of(
                    final(self).registers.reg_seq(o.dest.index_spec()),
                    j,
                ).val() == (if trit_of(old(self).registers.reg_seq(o.src.index_spec()), j).val()
                    >= trit_of(half_word_seq(o.immediate), j).val() {
                    trit_of(old(self).registers.reg_seq(o.src.index_spec()), j).val()
                } else {
                    trit_of(half_word_seq(o.immediate), j).val()
                }),
    {
        let lhs = self.registers.get(o.src.into_index());
        let rhs = VM::half_word(o.immediate);
        let mut buf = zero_trytes(4);
        ternary::or(&mut buf, &lhs, &rhs);
        self.store_result(o.dest.into_index(), &buf);
    }

    /// TMULI: digitwise product of a register and an immediate.
    pub fn op_tmuli(&mut self, o: RRI)
        requires
            old(self).wf(),
        ensures
            final(self).wf(),
            final(self).ctrl_eq(*old(self)),
            final(self).zero_reg_ok(),
            final(self).regs_except(*old(self), o.dest.index_spec(), 0, 0),
            o.dest.index_spec() != 0 ==> forall|j: int|
                0 <= j < 24 ==> trit_of(
                    final(self).registers.reg_seq(o.dest.index_spec()),
                    j,
                ).val() == trit_of(old(self).registers.reg_seq(o.src.index_spec()), j).val()
                    * trit_of(half_word_seq(o.immediate), j).val(),
    {
        let lhs = self.registers.get(o.src.into_index());
        let rhs = VM::half_word(o.immediate);
        let mut buf = zero_trytes(4);
        ternary::tmul(&mut buf, &lhs, &rhs);
        self.store_result(o.dest.into_index(), &buf);
    }

    /// TCMPI: digitwise comparison of a register and an immediate.
    pub fn op_tcmpi(&mut self, o: RRI)
        requires
            old(self).wf(),
        ensures
            final(self).wf(),
            final(self).ctrl_eq(*old(self)),
            final(self).zero_reg_ok(),
            final(self).regs_except(*old(self), o.dest.index_spec(), 0, 0),
            o.dest.index_spec() != 0 ==> forall|j: int|
                0 <= j < 24 ==> trit_of(
                    final(self).registers.reg_seq(o.dest.index_spec()),
                    j,
                ).val() == sgn(
                    trit_of(old(self).registers.reg_seq(o.src.index_spec()), j).val() - trit_of(
                        half_word_seq(o.immediate),
                        j,
                    ).val(),
                ),
    {
        let lhs = self.registers.get(o.src.into_index());
        let rhs = VM::half_word(o.immediate);
        let mut buf = zero_trytes(4);
        ternary::tcmp(&mut buf, &lhs, &rhs);
        self.store_result(o.dest.into_index(), &buf);
    }

    /// CMP: the sign of the difference of two registers, written to trit 0
    /// of the destination; HI is left alone.
    pub fn op_cmp(&mut self, o: RRR)
        requires
            old(self).wf(),
        ensures
            final(self).wf(),
            final(self).ctrl_eq(*old(self)),
            final(self).zero_reg_ok(),
            final(self).regs_except(*old(self), o.dest.index_spec(), 0, 0),
            o.dest.index_spec() != 0 ==> final(self).rv(o.dest.index_spec()) == sgn(
                old(self).rv(o.lhs.index_spec()) - old(self).rv(o.rhs.index_spec()),
            ),
    {
        let lhs = self.registers.get(o.lhs.into_index());
        let rhs = self.registers.get(o.rhs.into_index());
        let c = ternary::compare(&lhs, &rhs);
        let mut buf = zero_trytes(4);
        let ghost prev = buf@;
        ternary::set_trit(&mut buf, 0, c);
        proof {
            crate::ternary::lemma_zero_value(prev, 24);
            assert forall|j: int| 1 <= j < 24 implies trit_of(buf@, j) == Trit::Zero by {}
            crate::ternary::lemma_value_zero_above(buf@, 1, 24);
            reveal_with_fuel(crate::ternary::value_upto, 2);
            reveal_with_fuel(pow, 2);
            assert(value_of(buf@) == c.val());
        }
        self.store_result(o.dest.into_index(), &buf);
    }

    /// ADD: ripple addition of two registers; the destination takes the
    /// sum and HI takes the carry-out digit. When the destination is a
    /// plain register the sum and the carry are pinned exactly.
    pub fn op_add(&mut self, o: RRR)
        requires
            old(self).wf(),
        ensures
            final(self).wf(),
            final(self).ctrl_eq(*old(self)),
            final(self).zero_reg_ok(),
            final(self).regs_except(*old(self), o.dest.index_spec(), 2, 0),
            o.dest.index_spec() != 0 && o.dest.index_spec() != 2 ==> final(self).rv(
                o.dest.index_spec(),
            ) + final(self).rv(2) * pow(3, 24) == old(self).rv(o.lhs.index_spec()) + old(self).rv(
                o.rhs.index_spec(),
            ) && -1 <= final(self).rv(2) <= 1,
    {
        let lhs = self.registers.get(o.lhs.into_index());
        let rhs = self.registers.get(o.rhs.into_index());
        self.add_and_store(o.dest.into_index(), &lhs, &rhs);
    }

    /// ADDI: ripple addition of a register and an immediate; the
    /// destination takes the sum and HI the carry-out digit.
    pub fn op_addi(&mut self, o: RRI)
        requires
            old(self).wf(),
        ensures
            final(self).wf(),
            final(self).ctrl_eq(*old(self)),
            final(self).zero_reg_ok(),
            final(self).regs_except(*old(self), o.dest.index_spec(), 2, 0),
            o.dest.index_spec() != 0 && o.dest.index_spec() != 2 ==> final(self).rv(
                o.dest.index_spec(),
            ) + final(self).rv(2) * pow(3, 24) == old(self).rv(o.src.index_spec())
                + o.immediate.value() && -1 <= final(self).rv(2) <= 1,
    {
        let lhs = self.registers.get(o.src.into_index());
        let rhs = VM::half_word(o.immediate);
        proof {
            crate::ternary::lemma_word_tryte_values(rhs@);
        }
        self.add_and_store(o.dest.into_index(), &lhs, &rhs);
    }

    /// The shared tail of ADD and ADDI: write the sum, put the carry digit
    /// into HI and re-clear ZERO.
    fn add_and_store(&mut self, d: usize, lhs: &Vec<Tryte>, rhs: &Vec<Tryte>)
        requires
            old(self).wf(),
            d < 28,
            lhs@.len() == 4,
            rhs@.len() == 4,
        ensures
            final(self).wf(),
            final(self).ctrl_eq(*old(self)),
            final(self).zero_reg_ok(),
            final(self).regs_except(*old(self), d as int, 2, 0),
            d != 0 && d != 2 ==> final(self).rv(d as int) + final(self).rv(2) * pow(3, 24)
                == value_of(lhs@) + value_of(rhs@) && -1 <= final(self).rv(2) <= 1,
    {
        let mut buf = zero_trytes(4);
        let carry = ternary::add(&mut buf, lhs, rhs, Trit::Zero);
        let mut hi = zero_trytes(4);
        let ghost prev = hi@;
        ternary::set_trit(&mut hi, 0, carry);
        proof {
            crate::ternary::lemma_zero_value(prev, 24);
            assert forall|j: int| 1 <= j < 24 implies trit_of(hi@, j) == Trit::Zero by {}
            crate::ternary::lemma_value_zero_above(hi@, 1, 24);
            reveal_with_fuel(crate::ternary::value_upto, 2);
            reveal_with_fuel(pow, 2);
            assert(value_of(hi@) == carry.val());
        }
        self.registers.set(d, &buf);
        self.registers.set(2, &hi);
        self.registers.clear_reg(0);
    }

    /// MUL: the full double-width product of two registers goes to LO and
    /// HI.
    pub fn op_mul(&mut self, o: RR)
        requires
            old(self).wf(),
        ensures
            final(self).wf(),
            final(self).ctrl_eq(*old(self)),
            final(self).zero_reg_ok(),
            final(self).regs_except(*old(self), 1, 2, 0),
            final(self).rv(1) + final(self).rv(2) * pow(3, 24) == old(self).rv(
                o.lhs.index_spec(),
            ) * old(self).rv(o.rhs.index_spec()),
    {
        let lhs = self.registers.get(o.lhs.into_index());
        let rhs = self.registers.get(o.rhs.into_index());
        let mut prod = zero_trytes(8);
        ternary::multiply(&mut prod, &lhs, &rhs);
        let lo = VM::slice4(&prod, 0);
        let hi = VM::slice4(&prod, 4);
        proof {
            crate::ternary::lemma_split_word8(prod@);
            let p: int = pow(3, 24);
            let vh: int = value_of(prod@.subrange(4, 8));
            assert(p * vh == vh * p) by (nonlinear_arith);
        }
        self.registers.set(1, &lo);
        self.registers.set(2, &hi);
        self.registers.clear_reg(0);
    }

    /// DIV: quotient to LO and remainder to HI, rounding toward zero with
    /// the remainder carrying the dividend's sign; division by zero
    /// leaves LO zero and HI holding the dividend.
    #[verifier::rlimit(100)]
    #[verifier::spinoff_prover]
    pub fn op_div(&mut self, o: RR)
        requires
            old(self).wf(),
        ensures
            final(self).wf(),
            final(self).ctrl_eq(*old(self)),
            final(self).zero_reg_ok(),
            final(self).regs_except(*old(self), 1, 2, 0),
            old(self).rv(o.rhs.index_spec()) != 0 ==> {
                &&& final(self).rv(1) * old(self).rv(o.rhs.index_spec()) + final(self).rv(2)
                    == old(self).rv(o.lhs.index_spec())
                &&& (final(self).rv(2) == 0 || sgn(final(self).rv(2)) == sgn(
                    old(self).rv(o.lhs.index_spec()),
                ))
                &&& (if final(self).rv(2) >= 0 {
                    final(self).rv(2)
                } else {
                    -final(self).rv(2)
                }) < (if old(self).rv(o.rhs.index_spec()) >= 0 {
                    old(self).rv(o.rhs.index_spec())
                } else {
                    -old(self).rv(o.rhs.index_spec())
                })
            },
            old(self).rv(o.rhs.index_spec()) == 0 ==> final(self).rv(1) == 0 && final(self).rv(2)
                == old(self).rv(o.lhs.index_spec()),
    {
        let lhs = self.registers.get(o.lhs.into_index());
        let rhs = self.registers.get(o.rhs.into_index());
        let a = ternary::to_i64(&lhs);
        let b = ternary::to_i64(&rhs);
        let mut lo = zero_trytes(4);
        let mut hi = zero_trytes(4);
        proof {
            crate::ternary::lemma_pow3_words();
            crate::ternary::lemma_pow3_odd(24);
            crate::ternary::lemma_value_upto_bound(lhs@, 24);
            crate::ternary::lemma_value_upto_bound(rhs@, 24);
            assert(2 * crate::ternary::spec_max_value(4) + 1 == pow(3, 24));
        }
        if b == 0 {
            proof {
                assert(-crate::ternary::spec_max_value(4) <= a as int
                    <= crate::ternary::spec_max_value(4));
                crate::ternary::lemma_zero_value(lo@, 24);
            }
            match ternary::read_i64(&mut hi, a) {
                Ok(u) => {},
                Err(u) => {
                    proof {
                        assert(false);
                    }
                },
            }
        } else {
            let (q, rem) = ternary::div_rem(a, b);
            proof {
                assert(-crate::ternary::spec_max_value(4) <= a as int
                    <= crate::ternary::spec_max_value(4));
                assert(-crate::ternary::spec_max_value(4) <= q as int
                    <= crate::ternary::spec_max_value(4));
                assert(-crate::ternary::spec_max_value(4) <= rem as int
                    <= crate::ternary::spec_max_value(4));
            }
            match ternary::read_i64(&mut lo, q) {
                Ok(u) => {},
                Err(u) => {
                    proof {
                        assert(false);
                    }
                },
            }
            match ternary::read_i64(&mut hi, rem) {
                Ok(u) => {},
                Err(u) => {
                    proof {
                        assert(false);
                    }
                },
            }
        }
        self.registers.set(1, &lo);
        self.registers.set(2, &hi);
        self.registers.clear_reg(0);
    }

    /// LUI: the immediate becomes the high half of the destination; the
    /// low half is zeroed.
    pub fn op_lui(&mut self, o: RI)
        requires
            old(self).wf(),
        ensures
            final(self).wf(),
            final(self).ctrl_eq(*old(self)),
            final(self).zero_reg_ok(),
            final(self).regs_except(*old(self), o.dest.index_spec(), 0, 0),
            o.dest.index_spec() != 0 ==> final(self).registers.reg_seq(o.dest.index_spec())
                =~= seq![Tryte::spec_zero(), Tryte::spec_zero(), o.immediate.lo, o.immediate.hi],
            o.dest.index_spec() != 0 ==> final(self).rv(o.dest.index_spec()) == o.immediate.value()
                * pow(3, 12),
    {
        let mut buf: Vec<Tryte> = Vec::new();
        buf.push(Tryte::zero());
        buf.push(Tryte::zero());
        buf.push(o.immediate.lo);
        buf.push(o.immediate.hi);
        proof {
            crate::ternary::lemma_word_tryte_values(buf@);
            crate::ternary::lemma_pow3_words();
            let vl: int = o.immediate.lo.value();
            let vh: int = o.immediate.hi.value();
            assert(531441 * vl + 387420489 * vh == (vl + 729 * vh) * 531441) by (nonlinear_arith);
        }
        self.store_result(o.dest.into_index(), &buf);
    }

    /// A fresh word holding the given trytes of a wider buffer.
    fn slice4(v: &Vec<Tryte>, at: usize) -> (w: Vec<Tryte>)
        requires
            at + 4 <= v@.len(),
            v@.len() <= 0x100_0000,
        ensures
            w@ == v@.subrange(at as int, at + 4),
            w@.len() == 4,
    {
        let mut w: Vec<Tryte> = Vec::new();
        w.push(v[at]);
        w.push(v[at + 1]);
        w.push(v[at + 2]);
        w.push(v[at + 3]);
        proof {
            assert(w@ =~= v@.subrange(at as int, at + 4));
        }
        w
    }

    /// The shared tail of SHF and SHFI: place the source register inside a
    /// triple-wide window at the given offset; the low, middle and high
    /// thirds go to LO, the destination and HI.
    #[verifier::rlimit(100)]
    #[verifier::spinoff_prover]
    fn shift_and_store(&mut self, d: usize, src_idx: usize, offset: i64)
        requires
            old(self).wf(),
            d < 28,
            src_idx < 28,
            -0x2000_0000_0000_0000 <= offset <= 0x2000_0000_0000_0000,
        ensures
            final(self).wf(),
            final(self).ctrl_eq(*old(self)),
            final(self).zero_reg_ok(),
            VM::shift_effect(*old(self), *final(self), d as int, src_idx as int, offset as int),
    {
        let src = self.registers.get(src_idx);
        let mut wide = zero_trytes(12);
        let ghost prev = wide@;
        ternary::shift(&mut wide, &src, offset);
        let lo = VM::slice4(&wide, 0);
        let mid = VM::slice4(&wide, 4);
        let hi = VM::slice4(&wide, 8);
        proof {
            crate::ternary::lemma_zero_value(prev, 72);
            crate::ternary::lemma_subrange_trits(wide@, 0, 4);
            crate::ternary::lemma_subrange_trits(wide@, 4, 8);
            crate::ternary::lemma_subrange_trits(wide@, 8, 12);
        }
        self.registers.set(1, &lo);
        self.registers.set(d, &mid);
        self.registers.set(2, &hi);
        self.registers.clear_reg(0);
    }

    /// SHF: arithmetic shift of a register by the amount in another
    /// register.
    #[verifier::rlimit(100)]
    #[verifier::spinoff_prover]
    pub fn op_shf(&mut self, o: RRR)
        requires
            old(self).wf(),
        ensures
            final(self).wf(),
            final(self).ctrl_eq(*old(self)),
            final(self).zero_reg_ok(),
            VM::shift_effect(
                *old(self),
                *final(self),
                o.dest.index_spec(),
                o.lhs.index_spec(),
                old(self).rv(o.rhs.index_spec()),
            ),
    {
        let rhs = self.registers.get(o.rhs.into_index());
        let off = ternary::to_i64(&rhs);
        proof {
            crate::ternary::lemma_pow3_words();
            crate::ternary::lemma_value_bound_words(rhs@, 24);
        }
        self.shift_and_store(o.dest.into_index(), o.lhs.into_index(), off);
    }

    /// SHFI: arithmetic shift of a register by an immediate amount.
    #[verifier::rlimit(100)]
    #[verifier::spinoff_prover]
    pub fn op_shfi(&mut self, o: RRI)
        requires
            old(self).wf(),
        ensures
            final(self).wf(),
            final(self).ctrl_eq(*old(self)),
            final(self).zero_reg_ok(),
            VM::shift_effect(
                *old(self),
                *final(self),
                o.dest.index_spec(),
                o.src.index_spec(),
                o.immediate.value(),
            ),
    {
        let imm = VM::half_word(o.immediate);
        let off = ternary::to_i64(&imm);
        proof {
            crate::ternary::lemma_word_tryte_values(imm@);
            crate::ternary::lemma_pow3_words();
            crate::ternary::lemma_value_bound_words(imm@, 24);
        }
        self.shift_and_store(o.dest.into_index(), o.src.into_index(), off);
    }

    /// The effective address of a memory instruction: the address register
    /// plus the signed offset.
    fn effective_addr(&self, addr_reg: usize, offset: Half) -> (a: i64)
        requires
            self.wf(),
            addr_reg < 28,
        ensures
            a == self.rv(addr_reg as int) + offset.value(),
    {
        let base = self.registers.get(addr_reg);
        let bv = ternary::to_i64(&base);
        let off = VM::half_word(offset);
        let ov = ternary::to_i64(&off);
        proof {
            crate::ternary::lemma_word_tryte_values(off@);
            crate::ternary::lemma_pow3_words();
            crate::ternary::lemma_value_bound_words(base@, 24);
            crate::ternary::lemma_value_bound_words(off@, 24);
        }
        bv + ov
    }

    /// The shared body of LT, LH and LW: read `n` trytes at the effective
    /// address into the low trytes of the destination, zero-extending; in
    /// balanced ternary zero extension is sign extension.
    fn load(&mut self, o: RRO, n: usize) -> (r: Result<(), Error>)
        requires
            old(self).wf(),
            n == 1 || n == 2 || n == 4,
        ensures
            final(self).wf(),
            final(self).ctrl_eq(*old(self)),
            r is Ok <==> old(self).mem_access_ok(
                old(self).mem_target(o.src.index_spec(), o.offset),
                n as int,
            ),
            match r {
                Ok(u) => VM::load_effect(*old(self), *final(self), o, n as int),
                Err(e) => final(self).registers == old(self).registers && e == old(
                    self,
                ).spec_mem_error(old(self).mem_target(o.src.index_spec(), o.offset), n as int),
            },
    {
        let addr = self.effective_addr(o.src.into_index(), o.offset);
        let data = match self.read_mem(addr, n) {
            Ok(d) => d,
            Err(e) => {
                return Err(e);
            },
        };
        let mut buf = zero_trytes(4);
        let mut k: usize = 0;
        while k < n
            invariant
                k <= n,
                n <= 4,
                data@.len() == n,
                buf@.len() == 4,
                forall|q: int| 0 <= q < k ==> buf@[q] == data@[q],
                forall|q: int| k <= q < 4 ==> buf@[q] == Tryte::spec_zero(),
            decreases n - k,
        {
            buf.set(k, data[k]);
            k = k + 1;
        }
        self.store_result(o.dest.into_index(), &buf);
        Ok(())
    }

    /// LT: load one tryte.
    pub fn op_lt(&mut self, o: RRO) -> (r: Result<(), Error>)
        requires
            old(self).wf(),
        ensures
            final(self).wf(),
            final(self).ctrl_eq(*old(self)),
            r is Ok <==> old(self).mem_access_ok(
                old(self).mem_target(o.src.index_spec(), o.offset),
                1,
            ),
            match r {
                Ok(u) => VM::load_effect(*old(self), *final(self), o, 1),
                Err(e) => final(self).registers == old(self).registers && e == old(
                    self,
                ).spec_mem_error(old(self).mem_target(o.src.index_spec(), o.offset), 1),
            },
    {
        self.load(o, 1)
    }

    /// LH: load one half.
    pub fn op_lh(&mut self, o: RRO) -> (r: Result<(), Error>)
        requires
            old(self).wf(),
        ensures
            final(self).wf(),
            final(self).ctrl_eq(*old(self)),
            r is Ok <==> old(self).mem_access_ok(
                old(self).mem_target(o.src.index_spec(), o.offset),
                2,
            ),
            match r {
                Ok(u) => VM::load_effect(*old(self), *final(self), o, 2),
                Err(e) => final(self).registers == old(self).registers && e == old(
                    self,
                ).spec_mem_error(old(self).mem_target(o.src.index_spec(), o.offset), 2),
            },
    {
        self.load(o, 2)
    }

    /// LW: load one word.
    pub fn op_lw(&mut self, o: RRO) -> (r: Result<(), Error>)
        requires
            old(self).wf(),
        ensures
            final(self).wf(),
            final(self).ctrl_eq(*old(self)),
            r is Ok <==> old(self).mem_access_ok(
                old(self).mem_target(o.src.index_spec(), o.offset),
                4,
            ),
            match r {
                Ok(u) => VM::load_effect(*old(self), *final(self), o, 4),
                Err(e) => final(self).registers == old(self).registers && e == old(
                    self,
                ).spec_mem_error(old(self).mem_target(o.src.index_spec(), o.offset), 4),
            },
    {
        self.load(o, 4)
    }

    /// The shared body of ST, SH and SW: write the low `n` trytes of the
    /// source register at the effective address, whose base register is
    /// the shape's first field.
    fn store(&mut self, o: RRO, n: usize) -> (r: Result<(), Error>)
        requires
            old(self).wf(),
            n == 1 || n == 2 || n == 4,
        ensures
            final(self).wf(),
            final(self).registers == old(self).registers,
            final(self).pc == old(self).pc,
            final(self).running == old(self).running,
            final(self).memory@.len() == old(self).memory@.len(),
            r is Ok <==> old(self).mem_access_ok(
                old(self).mem_target(o.dest.index_spec(), o.offset),
                n as int,
            ),
            match r {
                Ok(u) => VM::store_effect(*old(self), *final(self), o, n as int),
                Err(e) => final(self).memory@ == old(self).memory@ && e == old(
                    self,
                ).spec_mem_error(old(self).mem_target(o.dest.index_spec(), o.offset), n as int),
            },
    {
        let addr = self.effective_addr(o.dest.into_index(), o.offset);
        let src = self.registers.get(o.src.into_index());
        let mut data: Vec<Tryte> = Vec::new();
        let mut k: usize = 0;
        while k < n
            invariant
                k <= n,
                n <= 4,
                src@.len() == 4,
                data@.len() == k,
                forall|q: int| 0 <= q < k ==> data@[q] == src@[q],
            decreases n - k,
        {
            data.push(src[k]);
            k = k + 1;
        }
        self.write_mem(addr, &data)
    }

    /// ST: store one tryte.
    pub fn op_st(&mut self, o: RRO) -> (r: Result<(), Error>)
        requires
            old(self).wf(),
        ensures
            final(self).wf(),
            final(self).registers == old(self).registers,
            final(self).pc == old(self).pc,
            final(self).running == old(self).running,
            final(self).memory@.len() == old(self).memory@.len(),
            r is Ok <==> old(self).mem_access_ok(
                old(self).mem_target(o.dest.index_spec(), o.offset),
                1,
            ),
            match r {
                Ok(u) => VM::store_effect(*old(self), *final(self), o, 1),
                Err(e) => final(self).memory@ == old(self).memory@ && e == old(
                    self,
                ).spec_mem_error(old(self).mem_target(o.dest.index_spec(), o.offset), 1),
            },
    {
        self.store(o, 1)
    }

    /// SH: store one half.
    pub fn op_sh(&mut self, o: RRO) -> (r: Result<(), Error>)
        requires
            old(self).wf(),
        ensures
            final(self).wf(),
            final(self).registers == old(self).registers,
            final(self).pc == old(self).pc,
            final(self).running == old(self).running,
            final(self).memory@.len() == old(self).memory@.len(),
            r is Ok <==> old(self).mem_access_ok(
                old(self).mem_target(o.dest.index_spec(), o.offset),
                2,
            ),
            match r {
                Ok(u) => VM::store_effect(*old(self), *final(self), o, 2),
                Err(e) => final(self).memory@ == old(self).memory@ && e == old(
                    self,
                ).spec_mem_error(old(self).mem_target(o.dest.index_spec(), o.offset), 2),
            },
    {
        self.store(o, 2)
    }

    /// SW: store one word.
    pub fn op_sw(&mut self, o: RRO) -> (r: Result<(), Error>)
        requires
            old(self).wf(),
        ensures
            final(self).wf(),
            final(self).registers == old(self).registers,
            final(self).pc == old(self).pc,
            final(self).running == old(self).running,
            final(self).memory@.len() == old(self).memory@.len(),
            r is Ok <==> old(self).mem_access_ok(
                old(self).mem_target(o.dest.index_spec(), o.offset),
                4,
            ),
            match r {
                Ok(u) => VM::store_effect(*old(self), *final(self), o, 4),
                Err(e) => final(self).memory@ == old(self).memory@ && e == old(
                    self,
                ).spec_mem_error(old(self).mem_target(o.dest.index_spec(), o.offset), 4),
            },
    {
        self.store(o, 4)
    }

    /// The branch selector: trit 0 of the selector register.
    fn branch_selector(&self, o: RO) -> (t: Trit)
        requires
            self.wf(),
        ensures
            t == self.registers.reg_seq(o.src.index_spec())[0].t0,
    {
        let w = self.registers.get(o.src.into_index());
        let t = w[0];
        t.get_trit(0)
    }

    /// Add a relative offset to the program counter, wrapping in 32 bits.
    fn jump_relative(&mut self, offset: i64)
        requires
            old(self).wf(),
            -0x2_0000_0000_0000 <= offset <= 0x2_0000_0000_0000,
        ensures
            final(self).wf(),
            final(self).pc == (old(self).pc + offset) as i32,
            final(self).registers == old(self).registers,
            final(self).memory@ == old(self).memory@,
            final(self).running == old(self).running,
    {
        let t: i64 = self.pc as i64 + offset;
        #[verifier::truncate]
        let p: i32 = t as i32;
        self.pc = p;
    }

    /// The shared body of the branch family: the selector trit picks one
    /// of three relative offsets (one per digit value), which is added to
    /// the already-advanced program counter.
    fn branch(&mut self, o: RO, on_neg: bool, on_zero: bool, on_pos: bool)
        requires
            old(self).wf(),
        ensures
            final(self).wf(),
            final(self).registers == old(self).registers,
            final(self).memory@ == old(self).memory@,
            final(self).running == old(self).running,
            final(self).pc == ({
                let sel = old(self).registers.reg_seq(o.src.index_spec())[0].t0;
                let taken = (sel == Trit::Neg && on_neg) || (sel == Trit::Zero && on_zero) || (sel
                    == Trit::Pos && on_pos);
                if taken {
                    (old(self).pc + o.offset.value()) as i32
                } else {
                    old(self).pc
                }
            }),
    {
        let sel = self.branch_selector(o);
        let taken = match sel {
            Trit::Neg => on_neg,
            Trit::Zero => on_zero,
            Trit::Pos => on_pos,
        };
        if taken {
            let off = VM::word_value(o.offset);
            self.jump_relative(off);
        }
    }

    /// The value of a word-sized operand payload, as a host integer.
    #[verifier::rlimit(100)]
    #[verifier::spinoff_prover]
    fn word_value(w: Word) -> (v: i64)
        ensures
            v == w.value(),
            -0x1_0000_0000_0000 <= v <= 0x1_0000_0000_0000,
    {
        let vec = VM::word_vec(w);
        proof {
            crate::ternary::lemma_word_tryte_values(vec@);
            crate::ternary::lemma_pow3_words();
            crate::ternary::lemma_value_upto_bound(vec@, 24);
        }
        ternary::to_i64(&vec)
    }

    /// BT: branch when the selector digit is -1.
    pub fn op_bt(&mut self, o: RO)
        requires
            old(self).wf(),
        ensures
            final(self).wf(),
            final(self).registers == old(self).registers,
            final(self).memory@ == old(self).memory@,
            final(self).running == old(self).running,
            final(self).pc == (if old(self).registers.reg_seq(o.src.index_spec())[0].t0
                == Trit::Neg {
                (old(self).pc + o.offset.value()) as i32
            } else {
                old(self).pc
            }),
    {
        self.branch(o, true, false, false);
    }

    /// B0: branch when the selector digit is 0.
    pub fn op_b0(&mut self, o: RO)
        requires
            old(self).wf(),
        ensures
            final(self).wf(),
            final(self).registers == old(self).registers,
            final(self).memory@ == old(self).memory@,
            final(self).running == old(self).running,
            final(self).pc == (if old(self).registers.reg_seq(o.src.index_spec())[0].t0
                == Trit::Zero {
                (old(self).pc + o.offset.value()) as i32
            } else {
                old(self).pc
            }),
    {
        self.branch(o, false, true, false);
    }

    /// B1: branch when the selector digit is +1.
    pub fn op_b1(&mut self, o: RO)
        requires
            old(self).wf(),
        ensures
            final(self).wf(),
            final(self).registers == old(self).registers,
            final(self).memory@ == old(self).memory@,
            final(self).running == old(self).running,
            final(self).pc == (if old(self).registers.reg_seq(o.src.index_spec())[0].t0
                == Trit::Pos {
                (old(self).pc + o.offset.value()) as i32
            } else {
                old(self).pc
            }),
    {
        self.branch(o, false, false, true);
    }

    /// BT0: branch when the selector digit is -1 or 0.
    pub fn op_bt0(&mut self, o: RO)
        requires
            old(self).wf(),
        ensures
            final(self).wf(),
            final(self).registers == old(self).registers,
            final(self).memory@ == old(self).memory@,
            final(self).running == old(self).running,
            final(self).pc == (if old(self).registers.reg_seq(o.src.index_spec())[0].t0
                != Trit::Pos {
                (old(self).pc + o.offset.value()) as i32
            } else {
                old(self).pc
            }),
    {
        self.branch(o, true, true, false);
    }

    /// BT1: branch when the selector digit is -1 or +1.
    pub fn op_bt1(&mut self, o: RO)
        requires
            old(self).wf(),
        ensures
            final(self).wf(),
            final(self).registers == old(self).registers,
            final(self).memory@ == old(self).memory@,
            final(self).running == old(self).running,
            final(self).pc == (if old(self).registers.reg_seq(o.src.index_spec())[0].t0
                != Trit::Zero {
                (old(self).pc + o.offset.value()) as i32
            } else {
                old(self).pc
            }),
    {
        self.branch(o, true, false, true);
    }

    /// B01: branch when the selector digit is 0 or +1.
    pub fn op_b01(&mut self, o: RO)
        requires
            old(self).wf(),
        ensures
            final(self).wf(),
            final(self).registers == old(self).registers,
            final(self).memory@ == old(self).memory@,
            final(self).running == old(self).running,
            final(self).pc == (if old(self).registers.reg_seq(o.src.index_spec())[0].t0
                != Trit::Neg {
                (old(self).pc + o.offset.value()) as i32
            } else {
                old(self).pc
            }),
    {
        self.branch(o, false, true, true);
    }

    /// Save the already-advanced program counter into RA.
    fn save_pc(&mut self)
        requires
            old(self).wf(),
        ensures
            final(self).wf(),
            final(self).pc == old(self).pc,
            final(self).memory@ == old(self).memory@,
            final(self).running == old(self).running,
            final(self).regs_except(*old(self), 5, 5, 5),
            final(self).rv(5) == old(self).pc,
    {
        let mut w = zero_trytes(4);
        proof {
            crate::ternary::lemma_pow3_words();
            crate::ternary::lemma_pow3_odd(24);
            assert(2 * crate::ternary::spec_max_value(4) + 1 == pow(3, 24));
        }
        match ternary::read_i64(&mut w, self.pc as i64) {
            Ok(u) => {},
            Err(u) => {
                proof {
                    assert(false);
                }
            },
        }
        self.registers.set(5, &w);
    }

    /// BAL: unconditional relative branch that saves the return address.
    pub fn op_bal(&mut self, o: O)
        requires
            old(self).wf(),
        ensures
            final(self).wf(),
            final(self).memory@ == old(self).memory@,
            final(self).running == old(self).running,
            final(self).regs_except(*old(self), 5, 5, 5),
            final(self).rv(5) == old(self).pc,
            final(self).pc == (old(self).pc + o.offset.value()) as i32,
    {
        self.save_pc();
        let off = VM::word_value(o.offset);
        self.jump_relative(off);
    }

    /// J: absolute jump to a 20-trit address.
    pub fn op_jmp(&mut self, o: A)
        requires
            old(self).wf(),
        ensures
            final(self).wf(),
            final(self).registers == old(self).registers,
            final(self).memory@ == old(self).memory@,
            final(self).running == old(self).running,
            final(self).pc == (o.addr.value() as i32),
    {
        let a = VM::word_value(o.addr);
        #[verifier::truncate]
        let p: i32 = a as i32;
        self.pc = p;
    }

    /// JAL: absolute jump that saves the return address.
    pub fn op_jal(&mut self, o: A)
        requires
            old(self).wf(),
        ensures
            final(self).wf(),
            final(self).memory@ == old(self).memory@,
            final(self).running == old(self).running,
            final(self).regs_except(*old(self), 5, 5, 5),
            final(self).rv(5) == old(self).pc,
            final(self).pc == (o.addr.value() as i32),
    {
        self.save_pc();
        let a = VM::word_value(o.addr);
        #[verifier::truncate]
        let p: i32 = a as i32;
        self.pc = p;
    }

    /// JR: jump to the address in a register.
    pub fn op_jmpr(&mut self, o: R)
        requires
            old(self).wf(),
        ensures
            final(self).wf(),
            final(self).registers == old(self).registers,
            final(self).memory@ == old(self).memory@,
            final(self).running == old(self).running,
            final(self).pc == (old(self).rv(o.src.index_spec()) as i32),
    {
        let w = self.registers.get(o.src.into_index());
        let v = ternary::to_i64(&w);
        #[verifier::truncate]
        let p: i32 = v as i32;
        self.pc = p;
    }

    /// JALR: jump to the address in a register, saving the return address.
    pub fn op_jalr(&mut self, o: R)
        requires
            old(self).wf(),
        ensures
            final(self).wf(),
            final(self).memory@ == old(self).memory@,
            final(self).running == old(self).running,
            final(self).regs_except(*old(self), 5, 5, 5),
            final(self).rv(5) == old(self).pc,
            final(self).pc == (old(self).rv(o.src.index_spec()) as i32),
    {
        let w = self.registers.get(o.src.into_index());
        self.save_pc();
        let v = ternary::to_i64(&w);
        #[verifier::truncate]
        let p: i32 = v as i32;
        self.pc = p;
    }

    /// Execute one instruction: fetch the word at the program counter,
    /// advance the counter by one word, decode and dispatch. After every
    /// successful step the ZERO register reads as zero.
    #[verifier::rlimit(100)]
    #[verifier::spinoff_prover]
    pub fn step(&mut self) -> (r: Result<StepOutcome, Error>)
        requires
            old(self).wf(),
            old(self).zero_reg_ok(),
        ensures
            final(self).wf(),
            final(self).zero_reg_ok(),
            final(self).memory@.len() == old(self).memory@.len(),
            r matches Ok(StepOutcome::Halted) ==> !final(self).running,
            r is Err ==> final(self).registers == old(self).registers && final(self).memory@
                == old(self).memory@ && final(self).running == old(self).running && (final(self).pc == old(self).pc || final(self).pc == old(self).pc + 4),
            !old(self).mem_access_ok(old(self).pc as int, 4) ==> r == Err::<StepOutcome, Error>(
                old(self).spec_mem_error(old(self).pc as int, 4),
            ) && final(self).pc == old(self).pc,
            old(self).mem_access_ok(old(self).pc as int, 4) ==> {
                let w = old(self).memory@.subrange(
                    old(self).pc + old(self).mem_base(),
                    old(self).pc + old(self).mem_base() + 4,
                );
                &&& (crate::inst::spec_decode(w) is None ==> final(self).pc == old(self).pc
                    + 4 && (r matches Err(e) && (e matches Error::InvalidOpcode(p) || e
                    matches Error::InvalidRegister(q) || e matches Error::Ternary(t))))
                &&& (r matches Ok(out) ==> crate::inst::spec_decode(w) matches Some(i)
                    && VM::step_effect(*old(self), old(self).pc + 4, *final(self), i) && (out
                    == StepOutcome::Halted <==> i matches Inst::Break(_)) && (out
                    == StepOutcome::Syscall <==> i matches Inst::Syscall(_)))
            },
    {
        let ghost pre = *self;
        let word = match self.read_mem(self.pc as i64, 4) {
            Ok(w) => w,
            Err(e) => {
                return Err(e);
            },
        };
        self.pc = self.pc + 4;
        let ghost mid = *self;
        let inst = match Inst::from_word(&word) {
            Ok(i) => i,
            Err(e) => {
                return Err(e);
            },
        };
        let r = self.dispatch(inst);
        proof {
            if r is Ok {
                VM::lemma_step_effect_pre(mid, pre, mid.pc as int, *self, inst);
            }
        }
        r
    }

    /// Execute one decoded instruction.
    fn dispatch(&mut self, inst: Inst) -> (r: Result<StepOutcome, Error>)
        requires
            old(self).wf(),
            old(self).zero_reg_ok(),
        ensures
            final(self).wf(),
            final(self).zero_reg_ok(),
            final(self).memory@.len() == old(self).memory@.len(),
            r matches Ok(StepOutcome::Halted) ==> !final(self).running,
            r matches Ok(u) ==> VM::step_effect(
                *old(self),
                old(self).pc as int,
                *final(self),
                inst,
            ) && (u == StepOutcome::Halted <==> inst matches Inst::Break(_)) && (u
                == StepOutcome::Syscall <==> inst matches Inst::Syscall(_)),
            r matches Err(e) ==> final(self).registers == old(self).registers && final(self).memory@ == old(self).memory@ && final(self).pc == old(self).pc && final(self).running == old(self).running && (e matches Error::InvalidAlignment(x) || e
                matches Error::InvalidAddress(x)),
    {
        match inst {
            Inst::And(o) => self.dispatch_alu(inst),
            Inst::Or(o) => self.dispatch_alu(inst),
            Inst::Tmul(o) => self.dispatch_alu(inst),
            Inst::Tcmp(o) => self.dispatch_alu(inst),
            Inst::Cmp(o) => self.dispatch_alu(inst),
            Inst::Shf(o) => self.dispatch_alu(inst),
            Inst::Add(o) => self.dispatch_alu(inst),
            Inst::Mul(o) => self.dispatch_alu(inst),
            Inst::Div(o) => self.dispatch_alu(inst),
            Inst::Andi(o) => self.dispatch_alu_imm(inst),
            Inst::Ori(o) => self.dispatch_alu_imm(inst),
            Inst::Tmuli(o) => self.dispatch_alu_imm(inst),
            Inst::Tcmpi(o) => self.dispatch_alu_imm(inst),
            Inst::Shfi(o) => self.dispatch_alu_imm(inst),
            Inst::Addi(o) => self.dispatch_alu_imm(inst),
            Inst::Lui(o) => self.dispatch_alu_imm(inst),
            Inst::Lt(o) => self.dispatch_mem(inst),
            Inst::Lh(o) => self.dispatch_mem(inst),
            Inst::Lw(o) => self.dispatch_mem(inst),
            Inst::St(o) => self.dispatch_mem(inst),
            Inst::Sh(o) => self.dispatch_mem(inst),
            Inst::Sw(o) => self.dispatch_mem(inst),
            _ => self.dispatch_flow(inst),
        }
    }

    /// Execute one arithmetic or logical instruction.
    #[verifier::rlimit(100)]
    #[verifier::spinoff_prover]
    fn dispatch_alu(&mut self, inst: Inst) -> (r: Result<StepOutcome, Error>)
        requires
            old(self).wf(),
            old(self).zero_reg_ok(),
            inst matches Inst::And(_) || inst matches Inst::Or(_) || inst matches Inst::Tmul(_)
                || inst matches Inst::Tcmp(_) || inst matches Inst::Cmp(_) || inst
                matches Inst::Shf(_) || inst matches Inst::Add(_) || inst matches Inst::Mul(_)
                || inst matches Inst::Div(_),
        ensures
            final(self).wf(),
            final(self).zero_reg_ok(),
            final(self).memory@.len() == old(self).memory@.len(),
            r matches Ok(u) && u == StepOutcome::Continue,
            VM::step_effect(*old(self), old(self).pc as int, *final(self), inst),
    {
        match inst {
            Inst::And(o) => self.op_and(o),
            Inst::Or(o) => self.op_or(o),
            Inst::Tmul(o) => self.op_tmul(o),
            Inst::Tcmp(o) => self.op_tcmp(o),
            Inst::Cmp(o) => self.op_cmp(o),
            Inst::Shf(o) => self.op_shf(o),
            Inst::Add(o) => self.op_add(o),
            Inst::Mul(o) => self.op_mul(o),
            Inst::Div(o) => self.op_div(o),
            _ => {
                proof {
                    assert(false);
                }
            },
        }
        Ok(StepOutcome::Continue)
    }

    /// Execute one immediate-operand arithmetic instruction.
    #[verifier::rlimit(100)]
    #[verifier::spinoff_prover]
    fn dispatch_alu_imm(&mut self, inst: Inst) -> (r: Result<StepOutcome, Error>)
        requires
            old(self).wf(),
            old(self).zero_reg_ok(),
            inst matches Inst::Andi(_) || inst matches Inst::Ori(_) || inst
                matches Inst::Tmuli(_) || inst matches Inst::Tcmpi(_) || inst
                matches Inst::Shfi(_) || inst matches Inst::Addi(_) || inst matches Inst::Lui(_),
        ensures
            final(self).wf(),
            final(self).zero_reg_ok(),
            final(self).memory@.len() == old(self).memory@.len(),
            r matches Ok(u) && u == StepOutcome::Continue,
            VM::step_effect(*old(self), old(self).pc as int, *final(self), inst),
    {
        match inst {
            Inst::Andi(o) => self.op_andi(o),
            Inst::Ori(o) => self.op_ori(o),
            Inst::Tmuli(o) => self.op_tmuli(o),
            Inst::Tcmpi(o) => self.op_tcmpi(o),
            Inst::Shfi(o) => self.op_shfi(o),
            Inst::Addi(o) => self.op_addi(o),
            Inst::Lui(o) => self.op_lui(o),
            _ => {
                proof {
                    assert(false);
                }
            },
        }
        Ok(StepOutcome::Continue)
    }

    /// Execute one memory instruction.
    #[verifier::rlimit(100)]
    #[verifier::spinoff_prover]
    fn dispatch_mem(&mut self, inst: Inst) -> (r: Result<StepOutcome, Error>)
        requires
            old(self).wf(),
            old(self).zero_reg_ok(),
            inst matches Inst::Lt(_) || inst matches Inst::Lh(_) || inst matches Inst::Lw(_)
                || inst matches Inst::St(_) || inst matches Inst::Sh(_) || inst
                matches Inst::Sw(_),
        ensures
            final(self).wf(),
            final(self).zero_reg_ok(),
            final(self).memory@.len() == old(self).memory@.len(),
            r matches Ok(u) ==> u == StepOutcome::Continue,
            r matches Ok(u) ==> VM::step_effect(
                *old(self),
                old(self).pc as int,
                *final(self),
                inst,
            ),
            r matches Err(e) ==> final(self).registers == old(self).registers && final(self).memory@ == old(self).memory@ && final(self).pc == old(self).pc && final(self).running == old(self).running && (e matches Error::InvalidAlignment(x) || e
                matches Error::InvalidAddress(x)),
    {
        match inst {
            Inst::Lt(o) => {
                self.op_lt(o)?;
            },
            Inst::Lh(o) => {
                self.op_lh(o)?;
            },
            Inst::Lw(o) => {
                self.op_lw(o)?;
            },
            Inst::St(o) => {
                self.op_st(o)?;
            },
            Inst::Sh(o) => {
                self.op_sh(o)?;
            },
            Inst::Sw(o) => {
                self.op_sw(o)?;
            },
            _ => {
                proof {
                    assert(false);
                }
            },
        }
        Ok(StepOutcome::Continue)
    }

    /// Execute one branch, jump, SYSCALL or BREAK instruction.
    #[verifier::rlimit(100)]
    #[verifier::spinoff_prover]
    fn dispatch_flow(&mut self, inst: Inst) -> (r: Result<StepOutcome, Error>)
        requires
            old(self).wf(),
            old(self).zero_reg_ok(),
            inst matches Inst::BT(_) || inst matches Inst::B0(_) || inst matches Inst::B1(_)
                || inst matches Inst::BT0(_) || inst matches Inst::BT1(_) || inst
                matches Inst::B01(_) || inst matches Inst::Bal(_) || inst matches Inst::J(_)
                || inst matches Inst::Jal(_) || inst matches Inst::Jr(_) || inst
                matches Inst::Jalr(_) || inst matches Inst::Syscall(_) || inst
                matches Inst::Break(_),
        ensures
            final(self).wf(),
            final(self).zero_reg_ok(),
            final(self).memory@.len() == old(self).memory@.len(),
            r matches Ok(StepOutcome::Halted) ==> !final(self).running,
            r is Ok,
            r matches Ok(u) ==> VM::step_effect(
                *old(self),
                old(self).pc as int,
                *final(self),
                inst,
            ) && (u == StepOutcome::Halted <==> inst matches Inst::Break(_)) && (u
                == StepOutcome::Syscall <==> inst matches Inst::Syscall(_)),
    {
        match inst {
            Inst::BT(o) => self.op_bt(o),
            Inst::B0(o) => self.op_b0(o),
            Inst::B1(o) => self.op_b1(o),
            Inst::BT0(o) => self.op_bt0(o),
            Inst::BT1(o) => self.op_bt1(o),
            Inst::B01(o) => self.op_b01(o),
            Inst::Bal(o) => self.op_bal(o),
            Inst::J(o) => self.op_jmp(o),
            Inst::Jal(o) => self.op_jal(o),
            Inst::Jr(o) => self.op_jmpr(o),
            Inst::Jalr(o) => self.op_jalr(o),
            Inst::Syscall(u) => {
                return Ok(StepOutcome::Syscall);
            },
            Inst::Break(u) => {
                self.running = false;
                return Ok(StepOutcome::Halted);
            },
            _ => {
                proof {
                    assert(false);
                }
            },
        }
        Ok(StepOutcome::Continue)
    }

    /// Run from the given start address until BREAK, an error, or the step
    /// budget runs out. Returns whether the machine halted by BREAK. A
    /// SYSCALL is a hook for the host: a driver that implements one calls
    /// `step` itself; here it falls through to the next instruction.
    pub fn run(&mut self, pc: i32, max_steps: u64) -> (r: Result<bool, Error>)
        requires
            old(self).wf(),
            old(self).zero_reg_ok(),
        ensures
            final(self).wf(),
            final(self).zero_reg_ok(),
            final(self).memory@.len() == old(self).memory@.len(),
            r matches Ok(halted) ==> (halted <==> !final(self).running),
            r is Err ==> final(self).running,
    {
        self.pc = pc;
        self.running = true;
        let mut left = max_steps;
        while left > 0
            invariant
                self.wf(),
                self.zero_reg_ok(),
                self.running,
                self.memory@.len() == old(self).memory@.len(),
            decreases left,
        {
            match self.step()? {
                StepOutcome::Halted => {
                    return Ok(true);
                },
                StepOutcome::Syscall => {},
                StepOutcome::Continue => {},
            }
            left = left - 1;
        }
        Ok(false)
    }

    /// Write a tryte at a signed address; the loader's poke.
    pub fn write_tryte(&mut self, addr: i64, t: Tryte) -> (r: Result<(), Error>)
        requires
            old(self).wf(),
        ensures
            final(self).wf(),
            final(self).registers == old(self).registers,
            final(self).memory@.len() == old(self).memory@.len(),
            r is Ok <==> old(self).addr_in_range(addr as int, 1),
            r is Ok ==> final(self).memory@[addr + old(self).mem_base()] == t,
    {
        let mut w: Vec<Tryte> = Vec::new();
        w.push(t);
        match self.write_mem(addr, &w) {
            Ok(u) => {
                proof {
                    assert(self.memory@[addr + old(self).mem_base()] == w@[0]);
                }
                Ok(())
            },
            Err(e) => Err(e),
        }
    }

    /// Read a tryte at a signed address; the loader's peek.
    pub fn read_tryte(&self, addr: i64) -> (r: Result<Tryte, Error>)
        requires
            self.wf(),
        ensures
            r is Ok <==> self.addr_in_range(addr as int, 1),
            r matches Ok(t) ==> t == self.memory@[addr + self.mem_base()],
    {
        let w = self.read_mem(addr, 1)?;
        Ok(w[0])
    }

    /// Write a whole word at a signed, word-aligned address.
    pub fn write_word(&mut self, addr: i64, w: &Vec<Tryte>) -> (r: Result<(), Error>)
        requires
            old(self).wf(),
            w@.len() == 4,
        ensures
            final(self).wf(),
            final(self).registers == old(self).registers,
            final(self).memory@.len() == old(self).memory@.len(),
            r is Ok <==> VM::spec_aligned(addr as int, 4) && old(self).addr_in_range(
                addr as int,
                4,
            ),
            r is Ok ==> forall|q: int|
                0 <= q < 4 ==> final(self).memory@[addr + old(self).mem_base() + q] == w@[q],
    {
        self.write_mem(addr, w)
    }

    /// Read the word held by a register; the host's view of the file.
    pub fn get_register(&self, idx: usize) -> (w: Vec<Tryte>)
        requires
            self.wf(),
            idx < 28,
        ensures
            w@ == self.registers.reg_seq(idx as int),
            w@.len() == 4,
    {
        self.registers.get(idx)
    }

    /// Set the word held by a register; the host's way to prepare state.
    pub fn set_register(&mut self, idx: usize, w: &Vec<Tryte>)
        requires
            old(self).wf(),
            idx < 28,
            w@.len() == 4,
        ensures
            final(self).wf(),
            final(self).memory@ == old(self).memory@,
            final(self).pc == old(self).pc,
            final(self).registers.reg_seq(idx as int) == w@,
            final(self).regs_except(*old(self), idx as int, idx as int, idx as int),
    {
        self.registers.set(idx, w);
    }
}

} // verus!
