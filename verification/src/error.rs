//! Errors of the instruction encoding layer and the execution engine.

use vstd::prelude::*;

verus! {

/// An error surfaced while decoding or executing an instruction.
#[derive(Clone, Debug, PartialEq, Eq)]
pub enum Error {
    /// The four-trit opcode field does not name a mnemonic; carries the
    /// decoded selector value reduced to a byte, or 255 for a reserved
    /// bit pattern.
    InvalidOpcode(u8),
    /// A four-trit register field does not name a register; carries the
    /// decoded selector value reduced to a byte, or 255 for a reserved
    /// bit pattern.
    InvalidRegister(u8),
    /// A memory access outside the address window; carries the address.
    InvalidAddress(i64),
    /// A memory access that is not a multiple of its size; carries the
    /// address.
    InvalidAlignment(i64),
    /// An error of the ternary numeric layer.
    Ternary(crate::ternary::Error),
}

} // verus!
