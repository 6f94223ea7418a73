//! What the ARM64 condition codes that the code generator emits for
//! conditional jumps mean: each tests, on the flags that comparing the two
//! operands sets, exactly the comparison that the jump makes.
use vstd::prelude::*;

use crate::bytecode::opcode::JmpOp;
use crate::bytecode::insn::BpfInsn;
use crate::execution::jit_aarch64::{
    arm_reg, cond_code, enc_b_cond, enc_compare, enc_rrr, jmp_words, jump_target, lemma_register_mapping,
};

verus! {

/// Two to the 64th.
pub open spec fn word_range() -> int {
    0x1_0000_0000_0000_0000
}

/// Two to the 63rd: the smallest word whose top bit is set.
pub open spec fn sign_bit() -> int {
    0x8000_0000_0000_0000
}

/// A 64-bit word read as a two's complement number.
pub open spec fn signed64(a: u64) -> int {
    if a < sign_bit() {
        a as int
    } else {
        a - word_range()
    }
}

/// The flags N, Z, C, V that `CMP a, b` sets: the top bit of the 64-bit
/// difference, whether the operands are equal, whether the subtraction
/// borrows nothing, and whether the signed difference overflows.
pub open spec fn compare_flags(a: u64, b: u64) -> (bool, bool, bool, bool) {
    let diff: int = if a >= b {
        a - b
    } else {
        a - b + word_range()
    };
    let sdiff = signed64(a) - signed64(b);
    (diff >= sign_bit(), a == b, a >= b, sdiff < -sign_bit() || sdiff >= sign_bit())
}

/// The flags N, Z, C, V that `TST a, b` sets: the top bit of the
/// conjunction, whether it is zero; C and V are cleared.
pub open spec fn tst_flags(a: u64, b: u64) -> (bool, bool, bool, bool) {
    ((a & b) >= sign_bit(), (a & b) == 0, false, false)
}

/// Whether the ARM64 condition with code `cc` holds for the flags `f`
/// (N, Z, C, V): EQ, NE, HS, LO, HI, LS, GE, LT, GT, LE.
pub open spec fn cond_holds(cc: u8, f: (bool, bool, bool, bool)) -> bool {
    let (n, z, c, v) = f;
    if cc == 0 {
        z
    } else if cc == 1 {
        !z
    } else if cc == 2 {
        c
    } else if cc == 3 {
        !c
    } else if cc == 8 {
        c && !z
    } else if cc == 9 {
        !c || z
    } else if cc == 10 {
        n == v
    } else if cc == 11 {
        n != v
    } else if cc == 12 {
        !z && n == v
    } else if cc == 13 {
        z || n != v
    } else {
        false
    }
}

/// After `CMP a, b`, the N and V flags agree exactly when `a` is not below
/// `b` as signed numbers.
proof fn lemma_signed_flags(a: u64, b: u64)
    ensures
        ({
            let (n, z, c, v) = compare_flags(a, b);
            (n == v) <==> signed64(a) >= signed64(b)
        }),
{
}

/// The code generator's condition for each conditional jump, tested on the
/// flags of comparing the jump's operands `a` and `b`, holds exactly when
/// the jump is taken: equality, the unsigned orders for JGT, JGE, JLT and
/// JLE, the signed orders for JSGT, JSGE, JSLT and JSLE; and for JSET,
/// tested on the flags of `TST a, b`, exactly when `a & b` is not zero.
pub proof fn lemma_cond_code_implements_jump(op: JmpOp, a: u64, b: u64)
    requires
        !(op is Ja || op is Call || op is Exit),
    ensures
        cond_code(op) is Some,
        ({
            let holds = cond_holds(cond_code(op).unwrap(), compare_flags(a, b));
            &&& op is Jeq ==> (holds <==> a == b)
            &&& op is Jne ==> (holds <==> a != b)
            &&& op is Jgt ==> (holds <==> a > b)
            &&& op is Jge ==> (holds <==> a >= b)
            &&& op is Jlt ==> (holds <==> a < b)
            &&& op is Jle ==> (holds <==> a <= b)
            &&& op is Jsgt ==> (holds <==> signed64(a) > signed64(b))
            &&& op is Jsge ==> (holds <==> signed64(a) >= signed64(b))
            &&& op is Jslt ==> (holds <==> signed64(a) < signed64(b))
            &&& op is Jsle ==> (holds <==> signed64(a) <= signed64(b))
        }),
        op is Jset ==> (cond_holds(cond_code(op).unwrap(), tst_flags(a, b)) <==> (a & b) != 0),
{
    lemma_signed_flags(a, b);
}

/// The first register operand (Rn) of a data-processing word.
pub open spec fn rn_field(w: u32) -> u32 {
    (w >> 5u32) & 0x1f
}

/// The second register operand (Rm) of a data-processing word.
pub open spec fn rm_field(w: u32) -> u32 {
    (w >> 16u32) & 0x1f
}

/// A data-processing word with its register operands cleared.
pub open spec fn opcode_bits(w: u32) -> u32 {
    w & 0xFFE0FC1Fu32
}

/// `SUBS XZR, Xn, Xm` (`CMP Xn, Xm`) with no shift, operands cleared.
pub open spec fn compare_opcode() -> u32 {
    0xEB00001Fu32
}

/// `ANDS XZR, Xn, Xm` (`TST Xn, Xm`) with no shift, operands cleared.
pub open spec fn tst_opcode() -> u32 {
    0xEA00001Fu32
}

/// A conditional jump between registers compiles to a compare of the
/// jump's destination register with its source register (`CMP`, or `TST`
/// for JSET), followed by a conditional branch (`B.cond`) on the condition
/// that `lemma_cond_code_implements_jump` gives meaning to; the branch is
/// recorded for the jump's target.
pub proof fn lemma_conditional_jump_code(insn: BpfInsn, idx: usize, stack_size: usize)
    requires
        !insn.spec_is_exit(),
        insn.spec_source_type() is Reg,
        insn.spec_dst_reg() <= 10,
        insn.spec_src_reg() <= 10,
        insn.spec_jmp_op() matches Some(op) && !(op is Ja || op is Call || op is Exit),
    ensures
        jmp_words(insn, idx, stack_size) matches Ok((w, t)) && {
            let op = insn.spec_jmp_op().unwrap();
            &&& w.len() == 2
            &&& opcode_bits(w[0]) == (if op is Jset {
                tst_opcode()
            } else {
                compare_opcode()
            })
            &&& rn_field(w[0]) == arm_reg(insn.spec_dst_reg())
            &&& rm_field(w[0]) == arm_reg(insn.spec_src_reg())
            &&& w[1] & 0xFF000010u32 == 0x54000000u32
            &&& w[1] & 0xFu32 == cond_code(op).unwrap()
            &&& t == Some(jump_target(insn.offset, idx))
        },
{
    let op = insn.spec_jmp_op().unwrap();
    let rn = arm_reg(insn.spec_dst_reg());
    let rm = arm_reg(insn.spec_src_reg());
    lemma_register_mapping(insn.spec_dst_reg());
    lemma_register_mapping(insn.spec_src_reg());
    lemma_cond_code_implements_jump(op, 0, 0);
    let cc = cond_code(op).unwrap();
    assert(cc < 16);
    lemma_encodings(rn, rm, cc, (insn.offset * 4) as i32);
}

/// The fields of the compare, test and conditional branch encodings.
proof fn lemma_encodings(rn: u8, rm: u8, cc: u8, offset: i32)
    by (bit_vector)
    requires
        rn < 32,
        rm < 32,
        cc < 16,
    ensures
        enc_compare(rn, rm) & 0xFFE0FC1Fu32 == 0xEB00001Fu32,
        (enc_compare(rn, rm) >> 5u32) & 0x1f == rn as u32,
        (enc_compare(rn, rm) >> 16u32) & 0x1f == rm as u32,
        enc_rrr(0xEA000000u32, 31, rn, rm) & 0xFFE0FC1Fu32 == 0xEA00001Fu32,
        (enc_rrr(0xEA000000u32, 31, rn, rm) >> 5u32) & 0x1f == rn as u32,
        (enc_rrr(0xEA000000u32, 31, rn, rm) >> 16u32) & 0x1f == rm as u32,
        enc_b_cond(cc, offset) & 0xFF000010u32 == 0x54000000u32,
        enc_b_cond(cc, offset) & 0xFu32 == cc as u32,
{
}

} // verus!
