//! Verification errors.
use vstd::prelude::*;

use crate::bytecode::registers::Register;

verus! {

/// Why a program was rejected.
#[derive(Debug, Clone, Copy, PartialEq, Eq)]
pub enum VerifyError {
    /// The program has no instructions
    EmptyProgram,
    /// More instructions than the profile allows
    InsnCountExceeded { count: usize, limit: usize },
    /// No exit instruction
    NoExit,
    /// An opcode that is not valid here
    InvalidOpcode { insn_idx: usize, opcode: u8 },
    /// A register number above 10
    InvalidRegister { insn_idx: usize, reg: u8 },
    /// An instruction that no path reaches
    UnreachableInstruction { insn_idx: usize },
    /// A jump outside the program
    InvalidJump { insn_idx: usize, target: i32 },
    /// Too many instructions processed along a path
    InfiniteLoop { insn_idx: usize },
    /// A read of an uninitialized register
    UninitializedRegister { insn_idx: usize, reg: Register },
    /// A write to the read-only frame pointer
    WriteToReadOnly { insn_idx: usize },
    /// A division or modulo whose divisor may be zero
    DivisionByZero { insn_idx: usize },
    /// A call of an invalid helper
    InvalidHelper { insn_idx: usize, helper_id: i32 },
    /// A memory access through a register that does not allow it
    InvalidMemoryAccess { insn_idx: usize, reason: &'static str },
    /// A stack access outside the stack
    OutOfBoundsAccess { insn_idx: usize, offset: i64, size: usize },
    /// Stack use above the profile limit
    StackExceeded { used: usize, limit: usize },
    /// A loop the profile does not allow
    UnboundedLoop { insn_idx: usize },
    /// A helper that allocates dynamically, where the profile forbids it
    DynamicAllocationAttempted { insn_idx: usize },
}

} // verus!
