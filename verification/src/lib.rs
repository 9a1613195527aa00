//! A virtual machine for a balanced-ternary 24-trit RISC architecture.
//!
//! The crate is organised in three layers: the ternary numeric layer
//! (`trit`, `tryte`, `hyte`, `ternary`, `text`), the instruction encoding
//! layer (`opcodes`, `registers`, `operands`, `inst`), and the execution
//! engine (`vm`).

pub mod error;
pub mod inst;
pub mod operands;
pub mod hyte;
pub mod opcodes;
pub mod registers;
pub mod text;
pub mod strutil;
pub mod ternary;
pub mod trit;
pub mod tryte;
pub mod vm;
