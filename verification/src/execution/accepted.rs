//! What the verifier's acceptance of an instruction promises about running
//! it in the interpreter.
use vstd::prelude::*;

use crate::bpf_verifier::alu::{in_range, lemma_alu_interval_sound};
use crate::bpf_verifier::checks::{
    alu_rhs, alu_step, call_regs, insn_step, memory_step, scalar_view, state_ok, with_unknown,
};
use crate::bpf_verifier::state::{entry_regs, AbsState, StackSlot};
use crate::bytecode::insn::BpfInsn;
use crate::bytecode::registers::reg_of;
use crate::execution::interpreter::{alu_effect, insn_effect, src_operand};
use crate::execution::{BpfContext, BpfError};

verus! {

/// R10 is the frame pointer: a pointer to the top of the stack.
pub open spec fn frame_pointer_kept(s: AbsState) -> bool {
    s.regs[10].reg_type is PtrToFp && s.regs[10].ptr_offset == 0
}

/// At program entry R10 is the frame pointer.
pub proof fn lemma_entry_frame_pointer(slots: Seq<StackSlot>, depth: nat)
    ensures
        frame_pointer_kept((AbsState { regs: entry_regs(), slots, depth })),
{
}

/// Every instruction the verifier accepts leaves R10 the frame pointer.
pub proof fn lemma_step_keeps_frame_pointer(insn: BpfInsn, idx: usize, s: AbsState)
    requires
        state_ok(s),
        frame_pointer_kept(s),
    ensures
        insn_step(insn, idx, s) matches Ok((res, t)) ==> frame_pointer_kept(t),
{
}

/// A load through R10, or a store to it, that the verifier accepts stays
/// within the stack when the interpreter runs it on a stack of the size the
/// verifier assumed: the run of the instruction succeeds.
pub proof fn lemma_accepted_stack_access_runs(
    insn: BpfInsn,
    idx: usize,
    s: AbsState,
    regs: Seq<u64>,
    stack: Seq<u8>,
    ctx: BpfContext,
    ctx_addr: u64,
    a: u64,
)
    requires
        state_ok(s),
        frame_pointer_kept(s),
        regs.len() == 11,
        stack.len() == s.slots.len(),
        insn_step(insn, idx, s) is Ok,
        (insn.spec_class() is Ldx && insn.spec_src_reg() == 10) || ((insn.spec_class() is Stx
            || insn.spec_class() is St) && insn.spec_dst_reg() == 10),
    ensures
        insn_effect(insn, regs, stack, ctx, ctx_addr, a) is Ok,
{
    lemma_bits(0, 0);
    assert(memory_step(insn, idx, s) is Ok);
    assert(0i64.wrapping_add(insn.offset as i64) == insn.offset as i64);
}

/// A division or remainder that the verifier accepts does not divide by
/// zero when the interpreter runs it, as long as a divisor register holds a
/// value within the bounds the verifier gives it. (The verifier gives a
/// pointer no bounds and accepts it as a divisor unchecked.)
pub proof fn lemma_accepted_division_nonzero(
    insn: BpfInsn,
    idx: usize,
    s: AbsState,
    regs: Seq<u64>,
    stack: Seq<u8>,
    ctx: BpfContext,
    ctx_addr: u64,
    a: u64,
)
    requires
        state_ok(s),
        regs.len() == 11,
        insn_step(insn, idx, s) is Ok,
        insn.spec_is_alu(),
        insn.spec_source_type() is Reg ==> (s.regs[insn.spec_src_reg() as int].scalar_value matches Some(
            sc,
        ) && in_range(sc, regs[insn.spec_src_reg() as int])),
    ensures
        !(insn_effect(insn, regs, stack, ctx, ctx_addr, a) matches Err(BpfError::DivisionByZero)),
{
    lemma_bits(regs[insn.spec_src_reg() as int], insn.imm);
}

/// Every register that the verifier gives bounds holds a value within them.
pub open spec fn views_hold(s: AbsState, regs: Seq<u64>) -> bool {
    forall|i: int|
        0 <= i < 11 && (#[trigger] s.regs[i]).scalar_value is Some ==> in_range(
            s.regs[i].scalar_value.unwrap(),
            regs[i],
        )
}

/// The verifier's bounds hold across each step: where it accepts an
/// instruction in a state whose bounds the registers meet, and the
/// interpreter runs that instruction, the registers after the run meet the
/// bounds of the verifier's state after it. This holds of calls and exits
/// in their own encodings; another jump-class encoding of a call or an exit
/// is a conditional branch to the verifier, while the interpreter runs it
/// as a call or an exit.
pub proof fn lemma_accepted_step_keeps_views(
    insn: BpfInsn,
    idx: usize,
    s: AbsState,
    regs: Seq<u64>,
    stack: Seq<u8>,
    ctx: BpfContext,
    ctx_addr: u64,
    a: u64,
)
    requires
        state_ok(s),
        regs.len() == 11,
        views_hold(s, regs),
        insn.spec_jmp_op() matches Some(op) && (op is Call || op is Exit) ==> insn.spec_is_call()
            || insn.spec_is_exit(),
    ensures
        insn_step(insn, idx, s) matches Ok((res, t)) ==> (insn_effect(insn, regs, stack, ctx, ctx_addr, a) matches Ok(
            (res2, regs2, stack2, used),
        ) ==> views_hold(t, regs2)),
{
    lemma_bits(0, 0);
    if let Ok((res, t)) = insn_step(insn, idx, s) {
        if let Ok((res2, regs2, stack2, used)) = insn_effect(insn, regs, stack, ctx, ctx_addr, a) {
            if insn.spec_is_exit() {
                assert(t == s && regs2 == regs);
            } else if insn.spec_is_call() {
                assert(t.regs == call_regs(s.regs));
                assert(regs2 == regs.update(0, a));
            } else if insn.spec_is_alu() {
                lemma_accepted_alu_keeps_views(insn, idx, s, regs);
            } else if insn.spec_is_jump() {
                assert(t == s && regs2 == regs);
            } else if insn.spec_class() is Ldx {
                assert(t.regs == with_unknown(s.regs, reg_of(insn.spec_dst_reg())));
                assert(reg_of(insn.spec_dst_reg()).index() == insn.spec_dst_reg());
            } else {
                assert(regs2 == regs);
            }
            assert forall|i: int| 0 <= i < 11 && (#[trigger] t.regs[i]).scalar_value is Some implies in_range(
                t.regs[i].scalar_value.unwrap(),
                regs2[i],
            ) by {
                assert(s.regs[i].scalar_value is Some ==> in_range(s.regs[i].scalar_value.unwrap(), regs[i]));
            }
        }
    }
}

/// The ALU case of the step above.
proof fn lemma_accepted_alu_keeps_views(insn: BpfInsn, idx: usize, s: AbsState, regs: Seq<u64>)
    requires
        state_ok(s),
        regs.len() == 11,
        views_hold(s, regs),
        insn.spec_is_alu(),
        insn_step(insn, idx, s) is Ok,
        alu_effect(insn, regs, insn.spec_class() is Alu64) is Ok,
    ensures
        views_hold(alu_step(insn, idx, s)->Ok_0, alu_effect(insn, regs, insn.spec_class() is Alu64)->Ok_0),
{
    lemma_bits(0, 0);
    let t = alu_step(insn, idx, s)->Ok_0;
    let regs2 = alu_effect(insn, regs, insn.spec_class() is Alu64)->Ok_0;
    let d = insn.spec_dst_reg() as int;
    let op = insn.spec_alu_op().unwrap();
    let x = regs[d];
    let y = src_operand(insn, regs);
    let dv = scalar_view(s.regs[d]);
    let rv = alu_rhs(insn, s.regs);
    assert(in_range(dv, x));
    assert(in_range(rv, y));
    lemma_bits(y, 0);
    if insn.spec_class() is Alu64 && !(op is End) {
        lemma_alu_interval_sound(dv, op, rv, x, y);
    }
    assert(in_range(t.regs[d].scalar_value.unwrap(), regs2[d]));
}

/// The classes of the exit, call and wide-load opcodes, and the operation
/// of the call opcode; a value that fits in 32 bits is its own low half, so
/// a nonzero one has a nonzero low half, and so does a nonzero immediate
/// once sign-extended.
proof fn lemma_bits(v: u64, imm: i32)
    by (bit_vector)
    ensures
        0x95u8 & 0x07u8 == 5u8,
        0x85u8 & 0x07u8 == 5u8,
        0x18u8 & 0x07u8 == 0u8,
        0x85u8 & 0xf0u8 == 0x80u8,
        0 < v <= 0xffff_ffff ==> v as u32 != 0,
        imm != 0 ==> (imm as i64 as u64) as u32 != 0,
        imm != 0 ==> imm as i64 as u64 != 0,
        v <= 0xffff_ffff ==> v as u32 as u64 == v,
{
}

} // verus!
