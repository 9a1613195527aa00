use ternvm::error::Error;
use ternvm::operands::{Half, RR, RRO, RRR};
use ternvm::registers::{Register, StandardRegister};
use ternvm::ternary;
use ternvm::tryte::Tryte;
use ternvm::vm::{StepOutcome, VM};

const LO: usize = 1;
const HI: usize = 2;
const T0: usize = 18;
const T1: usize = 19;
const T2: usize = 20;
const T3: usize = 21;

fn trits(s: &str, n: usize) -> Vec<Tryte> {
    let mut v = ternary::zero_trytes(n);
    ternary::read_trits(&mut v, s).unwrap();
    v
}

fn int4(n: i64) -> Vec<Tryte> {
    let mut v = ternary::zero_trytes(4);
    ternary::read_i64(&mut v, n).unwrap();
    v
}

fn half0() -> Half {
    Half { lo: Tryte::zero(), hi: Tryte::zero() }
}

fn reg_value(vm: &VM, idx: usize) -> i64 {
    ternary::to_i64(&vm.get_register(idx))
}

/// After `LUI T0, +4096` then `ADDI T0, T0, +1`, T0 holds
/// 4096 * 531441 + 1 and the carry digit in HI is zero.
#[test]
fn scenario_lui_addi() {
    let mut vm = VM::new(64);
    let lui = trits("0001T0T0TT0100001T0T1TT0", 4);
    let addi = trits("0000000000011T0T1T0T1TTT", 4);
    let brk = trits("0000000000000000000011T1", 4);
    vm.write_word(0, &lui).unwrap();
    vm.write_word(4, &addi).unwrap();
    vm.write_word(8, &brk).unwrap();
    let halted = vm.run(0, 100).unwrap();
    assert!(halted);
    assert_eq!(2_176_782_337, reg_value(&vm, T0));
    assert_eq!(0, reg_value(&vm, HI));
}

/// A 16-tryte memory spans addresses -8..+8. A word stored at -4 loads
/// back unchanged, and a word access at -3 fails on alignment.
#[test]
fn scenario_store_load_centered() {
    let mut vm = VM::new(16);
    vm.set_register(T0, &int4(-1));
    vm.set_register(T3, &int4(-4));
    vm.op_sw(RRO {
        dest: StandardRegister::T3,
        src: StandardRegister::T0,
        offset: half0(),
    })
    .unwrap();
    vm.op_lw(RRO {
        dest: StandardRegister::T1,
        src: StandardRegister::T3,
        offset: half0(),
    })
    .unwrap();
    assert_eq!(-1, reg_value(&vm, T1));

    vm.set_register(T3, &int4(-3));
    let r = vm.op_lw(RRO {
        dest: StandardRegister::T1,
        src: StandardRegister::T3,
        offset: half0(),
    });
    assert_eq!(Err(Error::InvalidAlignment(-3)), r);
}

/// Encoding "Hi" into a pre-zeroed buffer and decoding it gives "Hi" back,
/// and both directions agree on the tryte count.
#[test]
fn scenario_text_round_trip() {
    let mut buf = ternary::zero_trytes(16);
    let written = ternvm::text::encode_str(&mut buf, "Hi").unwrap();
    let (s, read) = ternvm::text::decode_str(&buf).unwrap();
    assert_eq!("Hi", &s[..]);
    assert_eq!(written, read);
}

/// MUL with +512 and +8 leaves +4096 in LO and zero in HI.
#[test]
fn scenario_mul() {
    let mut vm = VM::new(16);
    vm.set_register(T0, &int4(512));
    vm.set_register(T1, &int4(8));
    vm.op_mul(RR { lhs: StandardRegister::T0, rhs: StandardRegister::T1 });
    assert_eq!(4096, reg_value(&vm, LO));
    assert_eq!(0, reg_value(&vm, HI));
}

/// The program [ADD T0, T1, T2; BREAK] with T1 = +1 and T2 = +2 halts
/// with T0 = +3 and a zero carry digit in HI.
#[test]
fn scenario_add_program() {
    let mut vm = VM::new(32);
    let add = trits("000000001T011T001T0T01T0", 4);
    let brk = trits("0000000000000000000011T1", 4);
    vm.write_word(0, &add).unwrap();
    vm.write_word(4, &brk).unwrap();
    vm.set_register(T1, &int4(1));
    vm.set_register(T2, &int4(2));
    let halted = vm.run(0, 10).unwrap();
    assert!(halted);
    assert_eq!(3, reg_value(&vm, T0));
    assert_eq!(0, reg_value(&vm, HI));
}

/// BT with an offset of +8 at PC 0x10 branches to 0x1C when trit 0 of the
/// selector register is -1, and falls through to 0x14 otherwise.
#[test]
fn scenario_branch() {
    let bt = trits("000000000000010T1T0T1T11", 4);

    for (t0_value, expected_pc) in [(-1i64, 0x1C), (0, 0x14), (1, 0x14)] {
        let mut vm = VM::new(64);
        vm.write_word(0x10, &bt).unwrap();
        vm.set_register(T0, &int4(t0_value));
        vm.pc = 0x10;
        let out = vm.step().unwrap();
        assert_eq!(StepOutcome::Continue, out);
        assert_eq!(expected_pc, vm.pc);
    }
}

/// The ZERO register reads as zero after every step, even when an
/// instruction names it as the destination.
#[test]
fn zero_register_invariant() {
    let mut vm = VM::new(32);
    // ADD ZERO, T1, T2 then BREAK.
    let add = trits("000000001T011T00000001T0", 4);
    let brk = trits("0000000000000000000011T1", 4);
    vm.write_word(0, &add).unwrap();
    vm.write_word(4, &brk).unwrap();
    vm.set_register(T1, &int4(7));
    vm.set_register(T2, &int4(8));
    let halted = vm.run(0, 10).unwrap();
    assert!(halted);
    assert_eq!(0, reg_value(&vm, 0));
}

/// Division rounds toward zero and the remainder carries the dividend's
/// sign; division by zero leaves the dividend in HI.
#[test]
fn division_rounding() {
    let cases: [(i64, i64, i64, i64); 5] = [
        (7, 2, 3, 1),
        (-7, 2, -3, -1),
        (7, -2, -3, 1),
        (-7, -2, 3, -1),
        (141214768240, 3, 47071589413, 1),
    ];
    for (a, b, q, r) in cases {
        let mut vm = VM::new(16);
        vm.set_register(T0, &int4(a));
        vm.set_register(T1, &int4(b));
        vm.op_div(RR { lhs: StandardRegister::T0, rhs: StandardRegister::T1 });
        assert_eq!(q, reg_value(&vm, LO));
        assert_eq!(r, reg_value(&vm, HI));
        assert_eq!(a, q * b + r);
    }

    let mut vm = VM::new(16);
    vm.set_register(T0, &int4(-9));
    vm.op_div(RR { lhs: StandardRegister::T0, rhs: StandardRegister::T1 });
    assert_eq!(0, reg_value(&vm, LO));
    assert_eq!(-9, reg_value(&vm, HI));
}

/// CMP writes only the sign of the comparison to the destination.
#[test]
fn compare_writes_sign() {
    let mut vm = VM::new(16);
    vm.set_register(T0, &int4(-5));
    vm.set_register(T1, &int4(11));
    vm.op_cmp(RRR {
        dest: StandardRegister::T2,
        lhs: StandardRegister::T0,
        rhs: StandardRegister::T1,
    });
    assert_eq!(-1, reg_value(&vm, T2));
    vm.op_cmp(RRR {
        dest: StandardRegister::T2,
        lhs: StandardRegister::T1,
        rhs: StandardRegister::T0,
    });
    assert_eq!(1, reg_value(&vm, T2));
    vm.op_cmp(RRR {
        dest: StandardRegister::T2,
        lhs: StandardRegister::T1,
        rhs: StandardRegister::T1,
    });
    assert_eq!(0, reg_value(&vm, T2));
}

/// A word access beyond the window fails with the address error.
#[test]
fn out_of_window_address() {
    let mut vm = VM::new(16);
    vm.set_register(T3, &int4(8));
    let r = vm.op_lw(RRO {
        dest: StandardRegister::T1,
        src: StandardRegister::T3,
        offset: half0(),
    });
    assert_eq!(Err(Error::InvalidAddress(8)), r);
}

/// An undefined opcode stops the machine with the opcode error.
#[test]
fn invalid_opcode_reported() {
    let mut vm = VM::new(16);
    let bad = trits("00000000000000000000110T", 4);
    vm.write_word(0, &bad).unwrap();
    let r = vm.run(0, 10);
    assert!(matches!(r, Err(Error::InvalidOpcode(_))));
}

/// A register field outside the file stops the machine with the register
/// error.
#[test]
fn invalid_register_reported() {
    let mut vm = VM::new(16);
    let bad = trits("000000001T001T0TT1000000", 4);
    vm.write_word(0, &bad).unwrap();
    let r = vm.run(0, 10);
    assert!(matches!(r, Err(Error::InvalidRegister(_))));
}

/// SHF routes the middle third of the widened result to the destination:
/// shifting +1 left by 12 trits multiplies by 3^12.
#[test]
fn shift_through_registers() {
    let mut vm = VM::new(16);
    vm.set_register(T0, &int4(1));
    vm.set_register(T1, &int4(12));
    vm.op_shf(RRR {
        dest: StandardRegister::T2,
        lhs: StandardRegister::T0,
        rhs: StandardRegister::T1,
    });
    assert_eq!(531441, reg_value(&vm, T2));
    assert_eq!(0, reg_value(&vm, LO));
    assert_eq!(0, reg_value(&vm, HI));
}

/// The into_index slots follow the register file order.
#[test]
fn register_slots_match() {
    assert_eq!(T0, StandardRegister::T0.into_index());
    assert_eq!(LO, StandardRegister::Lo.into_index());
    assert_eq!(HI, StandardRegister::Hi.into_index());
}
