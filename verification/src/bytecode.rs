pub mod opcode;
pub mod registers;
pub mod insn;
pub mod semantics;
pub mod program;
