//! Per-instruction checks shared by the path-sensitive and the streaming
//! verifiers: structural checks of the whole program, and the effect of a
//! single instruction on the verifier state.
use vstd::prelude::*;

use crate::bpf_verifier::error::VerifyError;
use crate::bpf_verifier::state::{
    abs_state, AbsState, RegState, RegType, ScalarValue, StackSlot, VerifierState,
};
use crate::bytecode::insn::BpfInsn;
use crate::bytecode::opcode::{AluOp, OpcodeClass, SourceType};
use crate::bytecode::registers::{reg_of, Register};
use crate::bpf_verifier::alu::{alu_result_spec, compute_alu_result, scalar_from_imm};

verus! {

/// How verification continues after an instruction.
#[derive(Debug, Clone, Copy, PartialEq, Eq, Structural)]
pub enum InsnResult {
    /// Go on with the next instruction
    Continue,
    /// Go on at the target
    Jump(usize),
    /// Verify both successors
    Branch { fallthrough: usize, target: usize },
    /// The path ends
    Exit,
}

/// Reason given for a load through a register that cannot be read.
pub const READ_DENIED: &'static str = "cannot read from this pointer type";

/// Reason given for a store through a register that cannot be written.
pub const WRITE_DENIED: &'static str = "cannot write to this pointer type";

// ---------------------------------------------------------------------
// Whole-program structural checks
// ---------------------------------------------------------------------

/// The first instruction at or after `from` whose register numbers are
/// invalid, with the error it gives.
pub open spec fn first_bad_register(insns: Seq<BpfInsn>, from: int) -> Option<VerifyError>
    decreases insns.len() - from,
{
    if from < 0 || from >= insns.len() {
        None
    } else if insns[from].spec_dst_reg() > 10 {
        Some(VerifyError::InvalidRegister { insn_idx: from as usize, reg: insns[from].spec_dst_reg() })
    } else if insns[from].spec_src_reg() > 10 {
        Some(VerifyError::InvalidRegister { insn_idx: from as usize, reg: insns[from].spec_src_reg() })
    } else {
        first_bad_register(insns, from + 1)
    }
}

/// The structural checks: non-empty, within the instruction limit, has an
/// exit instruction, and every register number is valid. (Every opcode has
/// a class, so no opcode fails the class check.)
pub open spec fn basic_check(insns: Seq<BpfInsn>, max_insns: usize) -> Result<(), VerifyError> {
    if insns.len() == 0 {
        Err(VerifyError::EmptyProgram)
    } else if insns.len() > max_insns {
        Err(VerifyError::InsnCountExceeded { count: insns.len() as usize, limit: max_insns })
    } else if !(exists|i: int| 0 <= i < insns.len() && #[trigger] insns[i].spec_is_exit()) {
        Err(VerifyError::NoExit)
    } else {
        match first_bad_register(insns, 0) {
            Some(e) => Err(e),
            None => Ok(()),
        }
    }
}

/// All register numbers in `insns` are valid when no instruction has a bad one.
proof fn lemma_no_bad_register(insns: Seq<BpfInsn>, from: int)
    requires
        0 <= from,
        first_bad_register(insns, from) is None,
    ensures
        forall|i: int|
            from <= i < insns.len() ==> #[trigger] insns[i].spec_dst_reg() <= 10
                && insns[i].spec_src_reg() <= 10,
    decreases insns.len() - from,
{
    if from < insns.len() {
        lemma_no_bad_register(insns, from + 1);
    }
}

/// Perform the structural checks.
pub fn check_basic(insns: &[BpfInsn], max_insns: usize) -> (r: Result<(), VerifyError>)
    ensures
        r == basic_check(insns@, max_insns),
        r is Ok ==> forall|i: int|
            0 <= i < insns@.len() ==> #[trigger] insns@[i].spec_dst_reg() <= 10
                && insns@[i].spec_src_reg() <= 10,
{
    if insns.len() == 0 {
        return Err(VerifyError::EmptyProgram);
    }
    if insns.len() > max_insns {
        return Err(VerifyError::InsnCountExceeded { count: insns.len(), limit: max_insns });
    }
    let mut has_exit = false;
    let mut k: usize = 0;
    while k < insns.len()
        invariant
            k <= insns@.len(),
            has_exit <==> exists|i: int| 0 <= i < k && #[trigger] insns@[i].spec_is_exit(),
        decreases insns@.len() - k,
    {
        if insns[k].is_exit() {
            has_exit = true;
        }
        k = k + 1;
    }
    if !has_exit {
        return Err(VerifyError::NoExit);
    }
    let mut idx: usize = 0;
    while idx < insns.len()
        invariant
            idx <= insns@.len(),
            0 < insns@.len() <= max_insns,
            exists|i: int| 0 <= i < insns@.len() && #[trigger] insns@[i].spec_is_exit(),
            first_bad_register(insns@, 0) == first_bad_register(insns@, idx as int),
        decreases insns@.len() - idx,
    {
        let insn = &insns[idx];
        if insn.dst_reg() > 10 {
            return Err(VerifyError::InvalidRegister { insn_idx: idx, reg: insn.dst_reg() });
        }
        if insn.src_reg() > 10 {
            return Err(VerifyError::InvalidRegister { insn_idx: idx, reg: insn.src_reg() });
        }
        idx = idx + 1;
    }
    proof {
        lemma_no_bad_register(insns@, 0);
    }
    Ok(())
}

// ---------------------------------------------------------------------
// Single-instruction effects
// ---------------------------------------------------------------------

/// Register `r` is initialized in the register states `regs`.
pub open spec fn init(regs: Seq<RegState>, r: Register) -> bool {
    !(regs[r.index() as int].reg_type is NotInit)
}

/// `regs` with register `r` set to an unknown scalar.
pub open spec fn with_unknown(regs: Seq<RegState>, r: Register) -> Seq<RegState> {
    regs.update(r.index() as int, RegState::spec_scalar(Some(ScalarValue::spec_unknown())))
}

/// A uniformly valid state: eleven registers and a stack small enough to
/// be addressed by `i64` offsets.
pub open spec fn state_ok(s: AbsState) -> bool {
    s.regs.len() == 11 && s.slots.len() <= 0x1000_0000 && s.depth <= s.slots.len()
}

/// The verifier's view of a register as a scalar: its bounds when it has
/// them, else the unknown scalar.
pub open spec fn scalar_view(st: RegState) -> ScalarValue {
    match st.scalar_value {
        Some(v) => v,
        None => ScalarValue::spec_unknown(),
    }
}

/// The right operand of an ALU instruction: the source register's view, or
/// the sign-extended immediate.
pub open spec fn alu_rhs(insn: BpfInsn, regs: Seq<RegState>) -> ScalarValue {
    if insn.spec_source_type() is Reg {
        scalar_view(regs[reg_of(insn.spec_src_reg()).index() as int])
    } else {
        ScalarValue::spec_constant(insn.imm as i64 as u64)
    }
}

/// The destination's new view after `op`. The abstract operations describe
/// 64-bit arithmetic: a 32-bit move keeps its operand's view when that fits
/// in 32 bits, and any other 32-bit operation gives the unknown scalar.
pub open spec fn alu_dst_view(insn: BpfInsn, op: AluOp, dst: ScalarValue, rhs: ScalarValue) -> ScalarValue {
    if insn.spec_class() is Alu32 {
        if op is Mov && rhs.max <= u32::MAX {
            rhs
        } else {
            ScalarValue::spec_unknown()
        }
    } else {
        alu_result_spec(dst, op, rhs)
    }
}

/// Effect of an ALU instruction.
pub open spec fn alu_step(insn: BpfInsn, idx: usize, s: AbsState) -> Result<AbsState, VerifyError> {
    let regs = s.regs;
    if insn.spec_dst_reg() > 10 {
        Err(VerifyError::InvalidRegister { insn_idx: idx, reg: insn.spec_dst_reg() })
    } else if reg_of(insn.spec_dst_reg()) is R10 {
        Err(VerifyError::WriteToReadOnly { insn_idx: idx })
    } else if insn.spec_alu_op() is None {
        Err(VerifyError::InvalidOpcode { insn_idx: idx, opcode: insn.opcode })
    } else {
        let dst = reg_of(insn.spec_dst_reg());
        let op = insn.spec_alu_op().unwrap();
        let src_error: Option<VerifyError> = if insn.spec_source_type() is Reg {
            if insn.spec_src_reg() > 10 {
                Some(VerifyError::InvalidRegister { insn_idx: idx, reg: insn.spec_src_reg() })
            } else {
                let src = reg_of(insn.spec_src_reg());
                let st = regs[src.index() as int];
                if !init(regs, src) && !op.spec_is_unary() {
                    Some(VerifyError::UninitializedRegister { insn_idx: idx, reg: src })
                } else if op.spec_can_divide_by_zero() && match st.scalar_value {
                    Some(sc) => sc.min == 0 || sc.value == Some(0u64) || (insn.spec_class() is Alu32
                        && sc.max > u32::MAX),
                    None => st.reg_type is Scalar,
                } {
                    Some(VerifyError::DivisionByZero { insn_idx: idx })
                } else {
                    None
                }
            }
        } else if op.spec_can_divide_by_zero() && insn.imm == 0 {
            Some(VerifyError::DivisionByZero { insn_idx: idx })
        } else {
            None
        };
        match src_error {
            Some(e) => Err(e),
            None => if !(op is Mov) && !init(regs, dst) {
                Err(VerifyError::UninitializedRegister { insn_idx: idx, reg: dst })
            } else {
                let view = alu_dst_view(insn, op, scalar_view(regs[dst.index() as int]), alu_rhs(insn, regs));
                Ok(AbsState {
                    regs: regs.update(dst.index() as int, RegState::spec_scalar(Some(view))),
                    slots: s.slots,
                    depth: s.depth,
                })
            },
        }
    }
}

/// Effect of a jump-class instruction other than exit and call.
pub open spec fn jump_step(insn: BpfInsn, idx: usize, s: AbsState) -> Result<InsnResult, VerifyError> {
    let regs = s.regs;
    let target = idx + 1 + insn.offset;
    if insn.spec_jmp_op() is None {
        Err(VerifyError::InvalidOpcode { insn_idx: idx, opcode: insn.opcode })
    } else if target < 0 {
        Err(VerifyError::InvalidJump { insn_idx: idx, target: target as i32 })
    } else if insn.spec_jmp_op().unwrap() is Ja {
        Ok(InsnResult::Jump(target as usize))
    } else if insn.spec_dst_reg() > 10 {
        Err(VerifyError::InvalidRegister { insn_idx: idx, reg: insn.spec_dst_reg() })
    } else if !init(regs, reg_of(insn.spec_dst_reg())) {
        Err(VerifyError::UninitializedRegister { insn_idx: idx, reg: reg_of(insn.spec_dst_reg()) })
    } else if insn.spec_source_type() is Reg && insn.spec_src_reg() > 10 {
        Err(VerifyError::InvalidRegister { insn_idx: idx, reg: insn.spec_src_reg() })
    } else if insn.spec_source_type() is Reg && !init(regs, reg_of(insn.spec_src_reg())) {
        Err(VerifyError::UninitializedRegister { insn_idx: idx, reg: reg_of(insn.spec_src_reg()) })
    } else {
        Ok(InsnResult::Branch { fallthrough: (idx + 1) as usize, target: target as usize })
    }
}

/// Caller-saved registers R0-R5 are clobbered by a call; R0 then holds an
/// unknown scalar.
pub open spec fn call_regs(regs: Seq<RegState>) -> Seq<RegState> {
    Seq::new(
        11,
        |i: int|
            if i == 0 {
                RegState::spec_scalar(Some(ScalarValue::spec_unknown()))
            } else if i <= 5 {
                RegState::spec_uninit()
            } else {
                regs[i]
            },
    )
}

/// Effect of a helper call.
pub open spec fn call_step(insn: BpfInsn, idx: usize, s: AbsState) -> Result<AbsState, VerifyError> {
    if insn.imm < 0 {
        Err(VerifyError::InvalidHelper { insn_idx: idx, helper_id: insn.imm })
    } else {
        Ok(AbsState { regs: call_regs(s.regs), slots: s.slots, depth: s.depth })
    }
}

/// The stack after writing `size` scalar bytes at `offset` from FP.
pub open spec fn stack_write(slots: Seq<StackSlot>, offset: int, size: int) -> Seq<StackSlot> {
    Seq::new(
        slots.len(),
        |j: int|
            if -offset - 1 <= j < -offset - 1 + size {
                StackSlot::Scalar
            } else {
                slots[j]
            },
    )
}

/// Whether an access of `size` bytes at `offset` lies within a stack of
/// `len` slots: the slots it marks, from `offset` down, are on the stack,
/// and so are the bytes it touches, from `offset` up to the frame pointer.
pub open spec fn valid_access(len: nat, offset: int, size: int) -> bool {
    offset < 0 && offset - size + 1 >= -(len as int) && offset + size <= 0
}

/// A helper call clobbers exactly the caller-saved registers: after a call
/// the verifier accepts (any helper number but a negative one), R0 holds an
/// unknown scalar, R1 to R5 are uninitialized, the callee-saved R6 to R9 and
/// the frame pointer R10 are as they were, and the stack is untouched.
pub proof fn lemma_call_keeps_callee_saved(insn: BpfInsn, idx: usize, s: AbsState)
    requires
        s.regs.len() == 11,
    ensures
        call_step(insn, idx, s) is Ok <==> insn.imm >= 0,
        call_step(insn, idx, s) matches Ok(t) ==> {
            &&& t.regs.len() == 11
            &&& forall|i: int| 6 <= i <= 10 ==> #[trigger] t.regs[i] == s.regs[i]
            &&& forall|i: int| 1 <= i <= 5 ==> (#[trigger] t.regs[i]).reg_type is NotInit
            &&& t.regs[0].reg_type is Scalar
            &&& t.regs[0].scalar_value == Some(ScalarValue::spec_unknown())
            &&& t.slots == s.slots
            &&& t.depth == s.depth
        },
{
}

/// Effect of a memory instruction (load, store, store immediate).
pub open spec fn memory_step(insn: BpfInsn, idx: usize, s: AbsState) -> Result<AbsState, VerifyError> {
    let regs = s.regs;
    let size = insn.spec_mem_size().bytes() as int;
    let class = insn.spec_class();
    let dst_bad = insn.spec_dst_reg() > 10;
    let src_bad = insn.spec_src_reg() > 10;
    let dst = reg_of(insn.spec_dst_reg());
    let src = reg_of(insn.spec_src_reg());
    match class {
        OpcodeClass::Ldx => {
            let st = regs[src.index() as int];
            let offset = st.ptr_offset.wrapping_add(insn.offset as i64);
            if dst_bad {
                Err(VerifyError::InvalidRegister { insn_idx: idx, reg: insn.spec_dst_reg() })
            } else if src_bad {
                Err(VerifyError::InvalidRegister { insn_idx: idx, reg: insn.spec_src_reg() })
            } else if dst is R10 {
                Err(VerifyError::WriteToReadOnly { insn_idx: idx })
            } else if !init(regs, src) {
                Err(VerifyError::UninitializedRegister { insn_idx: idx, reg: src })
            } else if !st.reg_type.spec_can_read() && !(st.reg_type is PtrToFp) {
                Err(VerifyError::InvalidMemoryAccess { insn_idx: idx, reason: READ_DENIED })
            } else if (st.reg_type is PtrToStack || st.reg_type is PtrToFp) && !valid_access(
                s.slots.len(),
                offset as int,
                size,
            ) {
                Err(VerifyError::OutOfBoundsAccess { insn_idx: idx, offset, size: size as usize })
            } else {
                Ok(AbsState { regs: with_unknown(regs, dst), slots: s.slots, depth: s.depth })
            }
        },
        OpcodeClass::Stx => {
            let st = regs[dst.index() as int];
            let offset = st.ptr_offset.wrapping_add(insn.offset as i64);
            if dst_bad {
                Err(VerifyError::InvalidRegister { insn_idx: idx, reg: insn.spec_dst_reg() })
            } else if src_bad {
                Err(VerifyError::InvalidRegister { insn_idx: idx, reg: insn.spec_src_reg() })
            } else if !init(regs, dst) {
                Err(VerifyError::UninitializedRegister { insn_idx: idx, reg: dst })
            } else if !init(regs, src) {
                Err(VerifyError::UninitializedRegister { insn_idx: idx, reg: src })
            } else if !st.reg_type.spec_can_write() && !(st.reg_type is PtrToFp) {
                Err(VerifyError::InvalidMemoryAccess { insn_idx: idx, reason: WRITE_DENIED })
            } else if st.reg_type is PtrToStack || st.reg_type is PtrToFp {
                if !valid_access(s.slots.len(), offset as int, size) {
                    Err(VerifyError::OutOfBoundsAccess { insn_idx: idx, offset, size: size as usize })
                } else {
                    let deepest = -offset + size - 1;
                    Ok(AbsState {
                        regs,
                        slots: stack_write(s.slots, offset as int, size),
                        depth: if deepest > s.depth {
                            deepest as nat
                        } else {
                            s.depth
                        },
                    })
                }
            } else {
                Ok(s)
            }
        },
        OpcodeClass::St => {
            let st = regs[dst.index() as int];
            let offset = st.ptr_offset.wrapping_add(insn.offset as i64);
            if dst_bad {
                Err(VerifyError::InvalidRegister { insn_idx: idx, reg: insn.spec_dst_reg() })
            } else if !init(regs, dst) {
                Err(VerifyError::UninitializedRegister { insn_idx: idx, reg: dst })
            } else if !st.reg_type.spec_can_write() && !(st.reg_type is PtrToFp) {
                Err(VerifyError::InvalidMemoryAccess { insn_idx: idx, reason: WRITE_DENIED })
            } else if (st.reg_type is PtrToStack || st.reg_type is PtrToFp) && !valid_access(
                s.slots.len(),
                offset as int,
                size,
            ) {
                Err(VerifyError::OutOfBoundsAccess { insn_idx: idx, offset, size: size as usize })
            } else {
                Ok(s)
            }
        },
        _ => Ok(s),
    }
}

/// Effect of the 64-bit immediate load.
pub open spec fn wide_step(insn: BpfInsn, idx: usize, s: AbsState) -> Result<AbsState, VerifyError> {
    if insn.spec_dst_reg() > 10 {
        Err(VerifyError::InvalidRegister { insn_idx: idx, reg: insn.spec_dst_reg() })
    } else if reg_of(insn.spec_dst_reg()) is R10 {
        Err(VerifyError::WriteToReadOnly { insn_idx: idx })
    } else {
        Ok(
            AbsState {
                regs: with_unknown(s.regs, reg_of(insn.spec_dst_reg())),
                slots: s.slots,
                depth: s.depth,
            },
        )
    }
}

/// Effect of any instruction: how verification continues, and the new state.
pub open spec fn insn_step(insn: BpfInsn, idx: usize, s: AbsState) -> Result<
    (InsnResult, AbsState),
    VerifyError,
> {
    if insn.spec_is_exit() {
        if !init(s.regs, Register::R0) {
            Err(VerifyError::UninitializedRegister { insn_idx: idx, reg: Register::R0 })
        } else {
            Ok((InsnResult::Exit, s))
        }
    } else if insn.spec_is_call() {
        match call_step(insn, idx, s) {
            Ok(t) => Ok((InsnResult::Continue, t)),
            Err(e) => Err(e),
        }
    } else if insn.spec_is_alu() {
        match alu_step(insn, idx, s) {
            Ok(t) => Ok((InsnResult::Continue, t)),
            Err(e) => Err(e),
        }
    } else if insn.spec_is_jump() {
        match jump_step(insn, idx, s) {
            Ok(res) => Ok((res, s)),
            Err(e) => Err(e),
        }
    } else if insn.spec_is_memory() {
        match memory_step(insn, idx, s) {
            Ok(t) => Ok((InsnResult::Continue, t)),
            Err(e) => Err(e),
        }
    } else if insn.spec_is_wide() {
        match wide_step(insn, idx, s) {
            Ok(t) => Ok((InsnResult::Continue, t)),
            Err(e) => Err(e),
        }
    } else {
        Err(VerifyError::InvalidOpcode { insn_idx: idx, opcode: insn.opcode })
    }
}

/// Verify one instruction, updating `state` as its effect describes.
pub fn verify_insn(insn: &BpfInsn, state: &mut VerifierState, idx: usize) -> (r: Result<
    InsnResult,
    VerifyError,
>)
    requires
        state_ok(abs_state(old(state))),
        idx <= 0x1000_0000,
    ensures
        match insn_step(*insn, idx, abs_state(old(state))) {
            Ok((res, t)) => r == Ok::<InsnResult, VerifyError>(res) && abs_state(final(state)) == t,
            Err(e) => r == Err::<InsnResult, VerifyError>(e),
        },
        final(state).insn_idx == old(state).insn_idx,
        final(state).insn_processed == old(state).insn_processed,
        state_ok(abs_state(final(state))),
        final(state).stack.slots().len() == old(state).stack.slots().len(),
{
    if insn.is_exit() {
        if !state.is_reg_init(Register::R0) {
            return Err(VerifyError::UninitializedRegister { insn_idx: idx, reg: Register::R0 });
        }
        return Ok(InsnResult::Exit);
    }
    if insn.is_call() {
        verify_call(insn, state, idx)?;
        return Ok(InsnResult::Continue);
    }
    if insn.is_alu() {
        verify_alu(insn, state, idx)?;
        return Ok(InsnResult::Continue);
    }
    if insn.is_jump() {
        return verify_jump(insn, state, idx);
    }
    if insn.is_memory() {
        verify_memory(insn, state, idx)?;
        return Ok(InsnResult::Continue);
    }
    if insn.is_wide() {
        verify_wide_load(insn, state, idx)?;
        return Ok(InsnResult::Continue);
    }
    Err(VerifyError::InvalidOpcode { insn_idx: idx, opcode: insn.opcode })
}

/// Verify an ALU instruction.
pub fn verify_alu(insn: &BpfInsn, state: &mut VerifierState, idx: usize) -> (r: Result<(), VerifyError>)
    requires
        state_ok(abs_state(old(state))),
    ensures
        match alu_step(*insn, idx, abs_state(old(state))) {
            Ok(t) => r is Ok && abs_state(final(state)) == t,
            Err(e) => r == Err::<(), VerifyError>(e) && abs_state(final(state)) == abs_state(old(state)),
        },
        final(state).insn_idx == old(state).insn_idx,
        final(state).insn_processed == old(state).insn_processed,
        state_ok(abs_state(final(state))),
{
    let dst = match insn.dst() {
        Some(d) => d,
        None => return Err(VerifyError::InvalidRegister { insn_idx: idx, reg: insn.dst_reg() }),
    };
    if dst == Register::R10 {
        return Err(VerifyError::WriteToReadOnly { insn_idx: idx });
    }
    let alu_op = match insn.alu_op() {
        Some(op) => op,
        None => return Err(VerifyError::InvalidOpcode { insn_idx: idx, opcode: insn.opcode }),
    };
    let rhs = if matches!(insn.source_type(), SourceType::Reg) {
        let src = match insn.src() {
            Some(s) => s,
            None => return Err(VerifyError::InvalidRegister { insn_idx: idx, reg: insn.src_reg() }),
        };
        if !state.is_reg_init(src) && !alu_op.is_unary() {
            return Err(VerifyError::UninitializedRegister { insn_idx: idx, reg: src });
        }
        if alu_op.can_divide_by_zero() {
            let src_state = state.reg(src);
            match src_state.scalar_value {
                Some(scalar) => {
                    if scalar.could_be_zero() {
                        return Err(VerifyError::DivisionByZero { insn_idx: idx });
                    }
                    // A 32-bit division uses the low half of the divisor,
                    // which is known to be nonzero only when the whole
                    // value fits in it.
                    if matches!(insn.class(), Some(OpcodeClass::Alu32)) && scalar.max > 0xffff_ffffu64 {
                        return Err(VerifyError::DivisionByZero { insn_idx: idx });
                    }
                },
                None => {
                    if src_state.reg_type == RegType::Scalar {
                        return Err(VerifyError::DivisionByZero { insn_idx: idx });
                    }
                },
            }
        }
        scalar_view_of(state.reg(src))
    } else {
        if alu_op.can_divide_by_zero() && insn.imm == 0 {
            return Err(VerifyError::DivisionByZero { insn_idx: idx });
        }
        scalar_from_imm(insn.imm)
    };
    if !matches!(alu_op, AluOp::Mov) && !state.is_reg_init(dst) {
        return Err(VerifyError::UninitializedRegister { insn_idx: idx, reg: dst });
    }
    let dst_view = scalar_view_of(state.reg(dst));
    let view = if matches!(insn.class(), Some(OpcodeClass::Alu32)) {
        if matches!(alu_op, AluOp::Mov) && rhs.max <= 0xffff_ffffu64 {
            rhs
        } else {
            ScalarValue::unknown()
        }
    } else {
        compute_alu_result(dst_view, alu_op, rhs)
    };
    state.set_scalar(dst, Some(view));
    Ok(())
}

/// A register's view as a scalar: its bounds when it has them, else the
/// unknown scalar.
pub fn scalar_view_of(st: &RegState) -> (r: ScalarValue)
    ensures
        r == scalar_view(*st),
{
    match st.scalar_value {
        Some(v) => v,
        None => ScalarValue::unknown(),
    }
}

/// Verify a jump-class instruction (exit and call are handled before).
pub fn verify_jump(insn: &BpfInsn, state: &VerifierState, idx: usize) -> (r: Result<
    InsnResult,
    VerifyError,
>)
    requires
        state_ok(abs_state(state)),
        idx <= 0x1000_0000,
    ensures
        r == jump_step(*insn, idx, abs_state(state)),
{
    let jmp_op = match insn.jmp_op() {
        Some(op) => op,
        None => return Err(VerifyError::InvalidOpcode { insn_idx: idx, opcode: insn.opcode }),
    };
    let target = (idx as i64) + 1 + (insn.offset as i64);
    if target < 0 {
        return Err(VerifyError::InvalidJump { insn_idx: idx, target: target as i32 });
    }
    let target = target as usize;
    if jmp_op.is_unconditional() {
        return Ok(InsnResult::Jump(target));
    }
    let dst = match insn.dst() {
        Some(d) => d,
        None => return Err(VerifyError::InvalidRegister { insn_idx: idx, reg: insn.dst_reg() }),
    };
    if !state.is_reg_init(dst) {
        return Err(VerifyError::UninitializedRegister { insn_idx: idx, reg: dst });
    }
    if matches!(insn.source_type(), SourceType::Reg) {
        let src = match insn.src() {
            Some(s) => s,
            None => return Err(VerifyError::InvalidRegister { insn_idx: idx, reg: insn.src_reg() }),
        };
        if !state.is_reg_init(src) {
            return Err(VerifyError::UninitializedRegister { insn_idx: idx, reg: src });
        }
    }
    Ok(InsnResult::Branch { fallthrough: idx + 1, target })
}

/// Verify a helper call.
pub fn verify_call(insn: &BpfInsn, state: &mut VerifierState, idx: usize) -> (r: Result<(), VerifyError>)
    requires
        state_ok(abs_state(old(state))),
    ensures
        match call_step(*insn, idx, abs_state(old(state))) {
            Ok(t) => r is Ok && abs_state(final(state)) == t,
            Err(e) => r == Err::<(), VerifyError>(e) && abs_state(final(state)) == abs_state(old(state)),
        },
        final(state).insn_idx == old(state).insn_idx,
        final(state).insn_processed == old(state).insn_processed,
        state_ok(abs_state(final(state))),
{
    let helper_id = insn.imm;
    if helper_id < 0 {
        return Err(VerifyError::InvalidHelper { insn_idx: idx, helper_id });
    }
    state.set_reg(Register::R0, RegState::uninit());
    state.set_reg(Register::R1, RegState::uninit());
    state.set_reg(Register::R2, RegState::uninit());
    state.set_reg(Register::R3, RegState::uninit());
    state.set_reg(Register::R4, RegState::uninit());
    state.set_reg(Register::R5, RegState::uninit());
    state.set_scalar(Register::R0, Some(ScalarValue::unknown()));
    assert(state.regs@ =~= call_regs(old(state).regs@));
    Ok(())
}

/// Verify a memory instruction.
pub fn verify_memory(insn: &BpfInsn, state: &mut VerifierState, idx: usize) -> (r: Result<(), VerifyError>)
    requires
        state_ok(abs_state(old(state))),
    ensures
        match memory_step(*insn, idx, abs_state(old(state))) {
            Ok(t) => r is Ok && abs_state(final(state)) == t,
            Err(e) => r == Err::<(), VerifyError>(e) && abs_state(final(state)) == abs_state(old(state)),
        },
        final(state).insn_idx == old(state).insn_idx,
        final(state).insn_processed == old(state).insn_processed,
        state_ok(abs_state(final(state))),
        final(state).stack.slots().len() == old(state).stack.slots().len(),
{
    let class = insn.class().unwrap();
    let size = insn.mem_size().unwrap();
    let nbytes = size.size_bytes();
    match class {
        OpcodeClass::Ldx => {
            let dst = match insn.dst() {
                Some(d) => d,
                None => return Err(VerifyError::InvalidRegister { insn_idx: idx, reg: insn.dst_reg() }),
            };
            let src = match insn.src() {
                Some(s) => s,
                None => return Err(VerifyError::InvalidRegister { insn_idx: idx, reg: insn.src_reg() }),
            };
            if dst == Register::R10 {
                return Err(VerifyError::WriteToReadOnly { insn_idx: idx });
            }
            if !state.is_reg_init(src) {
                return Err(VerifyError::UninitializedRegister { insn_idx: idx, reg: src });
            }
            let src_state = *state.reg(src);
            if !src_state.reg_type.can_read() && src_state.reg_type != RegType::PtrToFp {
                return Err(VerifyError::InvalidMemoryAccess { insn_idx: idx, reason: READ_DENIED });
            }
            if src_state.reg_type == RegType::PtrToStack || src_state.reg_type == RegType::PtrToFp {
                let offset = src_state.ptr_offset.wrapping_add(insn.offset as i64);
                if !state.stack.is_valid_access(offset, nbytes) {
                    return Err(VerifyError::OutOfBoundsAccess { insn_idx: idx, offset, size: nbytes });
                }
            }
            state.set_scalar(dst, Some(ScalarValue::unknown()));
        },
        OpcodeClass::Stx => {
            let dst = match insn.dst() {
                Some(d) => d,
                None => return Err(VerifyError::InvalidRegister { insn_idx: idx, reg: insn.dst_reg() }),
            };
            let src = match insn.src() {
                Some(s) => s,
                None => return Err(VerifyError::InvalidRegister { insn_idx: idx, reg: insn.src_reg() }),
            };
            if !state.is_reg_init(dst) {
                return Err(VerifyError::UninitializedRegister { insn_idx: idx, reg: dst });
            }
            if !state.is_reg_init(src) {
                return Err(VerifyError::UninitializedRegister { insn_idx: idx, reg: src });
            }
            let dst_state = *state.reg(dst);
            if !dst_state.reg_type.can_write() && dst_state.reg_type != RegType::PtrToFp {
                return Err(VerifyError::InvalidMemoryAccess { insn_idx: idx, reason: WRITE_DENIED });
            }
            if dst_state.reg_type == RegType::PtrToStack || dst_state.reg_type == RegType::PtrToFp {
                let offset = dst_state.ptr_offset.wrapping_add(insn.offset as i64);
                if !state.stack.is_valid_access(offset, nbytes) {
                    return Err(VerifyError::OutOfBoundsAccess { insn_idx: idx, offset, size: nbytes });
                }
                let ghost slots0 = state.stack.slots();
                let ghost depth0 = state.stack.depth();
                let mut i: usize = 0;
                while i < nbytes
                    invariant
                        i <= nbytes,
                        nbytes == size.bytes(),
                        nbytes <= 8,
                        valid_access(slots0.len(), offset as int, nbytes as int),
                        slots0.len() <= 0x1000_0000,
                        state.stack.slots().len() == slots0.len(),
                        slots0.len() == old(state).stack.slots().len(),
                        state.stack.slots() == stack_write(slots0, offset as int, i as int),
                        state.stack.depth() == (if i == 0 || -offset + i - 1 <= depth0 {
                            depth0
                        } else {
                            (-offset + i - 1) as nat
                        }),
                        state.regs == old(state).regs,
                        state.insn_idx == old(state).insn_idx,
                        state.insn_processed == old(state).insn_processed,
                        state.regs@.len() == 11,
                        depth0 <= slots0.len(),
                    decreases nbytes - i,
                {
                    let ok = state.stack.set(offset - (i as i64), StackSlot::Scalar);
                    assert(ok);
                    assert(state.stack.slots() =~= stack_write(slots0, offset as int, i + 1));
                    i = i + 1;
                }
            }
        },
        OpcodeClass::St => {
            let dst = match insn.dst() {
                Some(d) => d,
                None => return Err(VerifyError::InvalidRegister { insn_idx: idx, reg: insn.dst_reg() }),
            };
            if !state.is_reg_init(dst) {
                return Err(VerifyError::UninitializedRegister { insn_idx: idx, reg: dst });
            }
            let dst_state = state.reg(dst);
            if !dst_state.reg_type.can_write() && dst_state.reg_type != RegType::PtrToFp {
                return Err(VerifyError::InvalidMemoryAccess { insn_idx: idx, reason: WRITE_DENIED });
            }
            if dst_state.reg_type == RegType::PtrToStack || dst_state.reg_type == RegType::PtrToFp {
                let offset = dst_state.ptr_offset.wrapping_add(insn.offset as i64);
                if !state.stack.is_valid_access(offset, nbytes) {
                    return Err(VerifyError::OutOfBoundsAccess { insn_idx: idx, offset, size: nbytes });
                }
            }
        },
        _ => {},
    }
    Ok(())
}

/// Verify the 64-bit immediate load.
pub fn verify_wide_load(insn: &BpfInsn, state: &mut VerifierState, idx: usize) -> (r: Result<(), VerifyError>)
    requires
        state_ok(abs_state(old(state))),
    ensures
        match wide_step(*insn, idx, abs_state(old(state))) {
            Ok(t) => r is Ok && abs_state(final(state)) == t,
            Err(e) => r == Err::<(), VerifyError>(e) && abs_state(final(state)) == abs_state(old(state)),
        },
        final(state).insn_idx == old(state).insn_idx,
        final(state).insn_processed == old(state).insn_processed,
        state_ok(abs_state(final(state))),
{
    let dst = match insn.dst() {
        Some(d) => d,
        None => return Err(VerifyError::InvalidRegister { insn_idx: idx, reg: insn.dst_reg() }),
    };
    if dst == Register::R10 {
        return Err(VerifyError::WriteToReadOnly { insn_idx: idx });
    }
    state.set_scalar(dst, Some(ScalarValue::unknown()));
    Ok(())
}

} // verus!
