//! A small table-driven bytecode core: an opcode registry, an instruction
//! encoder that serializes operations into big-endian byte sequences, and a
//! stack machine that evaluates a sequence of operations to a single word.

pub mod code;
pub mod vm;
