//! An assembler for a 16-bit accumulator architecture: source lines are
//! classified, labels are resolved over two passes, and every instruction is
//! emitted as a 16-character line of `0`/`1` bytes.

pub mod encode;
pub mod parse;
pub mod symbols;
pub mod assemble;
