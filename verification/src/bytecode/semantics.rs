//! Concrete semantics of BPF ALU operations and conditional jumps on
//! 64-bit values, shared by the interpreter and by the soundness laws of
//! the verifier's abstract domain.
use vstd::prelude::*;

use crate::bytecode::opcode::{AluOp, JmpOp};

verus! {

/// Byte swap of the low 16 bits.
pub open spec fn swap16(x: u64) -> u64 {
    (((x & 0xff) << 8u64) | ((x >> 8u64) & 0xff)) as u64
}

/// Byte swap of the low 32 bits.
pub open spec fn swap32(x: u64) -> u64 {
    ((x & 0xff) << 24u64) | (((x >> 8u64) & 0xff) << 16u64) | (((x >> 16u64) & 0xff) << 8u64) | ((
    x >> 24u64) & 0xff)
}

/// Byte swap of all 64 bits.
pub open spec fn swap64(x: u64) -> u64 {
    ((x & 0xff) << 56u64) | (((x >> 8u64) & 0xff) << 48u64) | (((x >> 16u64) & 0xff) << 40u64) | (((
    x >> 24u64) & 0xff) << 32u64) | (((x >> 32u64) & 0xff) << 24u64) | (((x >> 40u64) & 0xff)
        << 16u64) | (((x >> 48u64) & 0xff) << 8u64) | ((x >> 56u64) & 0xff)
}

/// Result of the 64-bit ALU operation `op` on `dst` and `src`; `imm` is
/// the width operand of the byte-swap operation. `None` for a division or
/// modulo by zero and for a byte swap of a width other than 16, 32 or 64.
pub open spec fn alu_value(op: AluOp, dst: u64, src: u64, imm: i32) -> Option<u64> {
    match op {
        AluOp::Add => Some((dst + src) as u64),
        AluOp::Sub => Some((dst - src) as u64),
        AluOp::Mul => Some(dst.wrapping_mul(src)),
        AluOp::Div => if src == 0 {
            None
        } else {
            Some(dst / src)
        },
        AluOp::Or => Some(dst | src),
        AluOp::And => Some(dst & src),
        AluOp::Lsh => Some(dst << (src & 0x3f)),
        AluOp::Rsh => Some(dst >> (src & 0x3f)),
        AluOp::Neg => Some((0 - dst) as u64),
        AluOp::Mod => if src == 0 {
            None
        } else {
            Some(dst % src)
        },
        AluOp::Xor => Some(dst ^ src),
        AluOp::Mov => Some(src),
        AluOp::Arsh => Some(((dst as i64) >> (src & 0x3f)) as u64),
        AluOp::End => if imm == 16 {
            Some(swap16(dst))
        } else if imm == 32 {
            Some(swap32(dst))
        } else if imm == 64 {
            Some(swap64(dst))
        } else {
            None
        },
    }
}

/// The 32-bit value of `dst op src` for the 32-bit ALU: wrapping
/// arithmetic on the low halves, shifts by the amount modulo 32; `None` for
/// division or modulo by zero and for the byte swap, which works on the
/// whole register.
pub open spec fn alu_value32(op: AluOp, dst: u32, src: u32) -> Option<u32> {
    match op {
        AluOp::Add => Some(dst.wrapping_add(src)),
        AluOp::Sub => Some(dst.wrapping_sub(src)),
        AluOp::Mul => Some(dst.wrapping_mul(src)),
        AluOp::Div => if src == 0 {
            None
        } else {
            Some(dst / src)
        },
        AluOp::Or => Some(dst | src),
        AluOp::And => Some(dst & src),
        AluOp::Lsh => Some(dst << (src % 32)),
        AluOp::Rsh => Some(dst >> (src % 32)),
        AluOp::Neg => Some(0u32.wrapping_sub(dst)),
        AluOp::Mod => if src == 0 {
            None
        } else {
            Some(dst % src)
        },
        AluOp::Xor => Some(dst ^ src),
        AluOp::Mov => Some(src),
        AluOp::Arsh => Some(((dst as i32) >> (src % 32)) as u32),
        AluOp::End => None,
    }
}

/// Whether the conditional 32-bit jump `op` is taken for the low halves
/// `dst` and `src`, signed comparisons reading them as `i32`.
pub open spec fn jump_taken32(op: JmpOp, dst: u32, src: u32) -> Option<bool> {
    match op {
        JmpOp::Jeq => Some(dst == src),
        JmpOp::Jgt => Some(dst > src),
        JmpOp::Jge => Some(dst >= src),
        JmpOp::Jlt => Some(dst < src),
        JmpOp::Jle => Some(dst <= src),
        JmpOp::Jset => Some(dst & src != 0),
        JmpOp::Jne => Some(dst != src),
        JmpOp::Jsgt => Some((dst as i32) > (src as i32)),
        JmpOp::Jsge => Some((dst as i32) >= (src as i32)),
        JmpOp::Jslt => Some((dst as i32) < (src as i32)),
        JmpOp::Jsle => Some((dst as i32) <= (src as i32)),
        _ => None,
    }
}

/// Whether the conditional jump `op` is taken for `dst` and `src`;
/// `None` for the operations that are not conditional jumps.
pub open spec fn jump_taken(op: JmpOp, dst: u64, src: u64) -> Option<bool> {
    match op {
        JmpOp::Jeq => Some(dst == src),
        JmpOp::Jgt => Some(dst > src),
        JmpOp::Jge => Some(dst >= src),
        JmpOp::Jlt => Some(dst < src),
        JmpOp::Jle => Some(dst <= src),
        JmpOp::Jset => Some(dst & src != 0),
        JmpOp::Jne => Some(dst != src),
        JmpOp::Jsgt => Some((dst as i64) > (src as i64)),
        JmpOp::Jsge => Some((dst as i64) >= (src as i64)),
        JmpOp::Jslt => Some((dst as i64) < (src as i64)),
        JmpOp::Jsle => Some((dst as i64) <= (src as i64)),
        _ => None,
    }
}

} // verus!
