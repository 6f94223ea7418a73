//! The BPF bytecode interpreter.
//!
//! It runs a program instruction by instruction under the profile's
//! limits: at most `P::MAX_INSN_COUNT` instructions and a stack of
//! `P::MAX_STACK_SIZE` bytes. Multi-byte stack and context values are
//! little-endian, the byte order of every target the kernel runs on.
use vstd::prelude::*;

use crate::bytecode::insn::BpfInsn;
use crate::bytecode::opcode::{
    alu_op_of, jmp_op_of, mem_size_of, AluOp, JmpOp, MemSize, OpcodeClass, SourceType,
};
use crate::bytecode::program::BpfProgram;
use crate::bytecode::registers::{Register, RegisterFile};
use crate::bytecode::semantics::{alu_value, alu_value32, jump_taken, jump_taken32, swap16, swap32, swap64};
use crate::execution::{BpfContext, BpfEnvironment, BpfError, BpfExecutor, BpfResult, EnvRequest};
use crate::profile::PhysicalProfile;
use core::marker::PhantomData;

verus! {

// ---------------------------------------------------------------------
// Semantics
// ---------------------------------------------------------------------

/// The `n` low bytes of `v`, least significant first.
pub open spec fn le_bytes(v: u64, n: nat) -> Seq<u8> {
    Seq::new(n, |i: int| ((v >> ((8 * i) as u64)) & 0xff) as u8)
}

/// The number whose little-endian bytes are `b`.
pub open spec fn le_value(b: Seq<u8>) -> nat
    decreases b.len(),
{
    if b.len() == 0 {
        0
    } else {
        b[0] as nat + 256 * le_value(b.drop_first())
    }
}

/// The bytes of a context as the program sees them at its address.
pub open spec fn ctx_bytes(ctx: BpfContext) -> Seq<u8> {
    le_bytes(ctx.data, 8) + le_bytes(ctx.data_end, 8) + le_bytes(ctx.data_meta, 8)
}

/// `stack` with `bytes` written from index `at`.
pub open spec fn write_bytes(stack: Seq<u8>, at: int, bytes: Seq<u8>) -> Seq<u8> {
    Seq::new(
        stack.len(),
        |j: int|
            if at <= j < at + bytes.len() {
                bytes[j - at]
            } else {
                stack[j]
            },
    )
}

/// The stack index of an access of `size` bytes at `offset` from R10, if
/// it lies within a stack of `len` bytes: R10 points just past the stack,
/// so the access starts `len + offset` bytes into it.
pub open spec fn stack_index(offset: i16, size: nat, len: nat) -> Option<nat> {
    let at = len + offset;
    if at < 0 || at + size > len {
        None
    } else {
        Some(at as nat)
    }
}

/// Where an access of `size` bytes at `offset` from R10 starts in a stack
/// of `len` bytes, if it lies within it.
fn stack_position(offset: i16, size: usize, len: usize) -> (r: Option<usize>)
    requires
        size > 0,
    ensures
        r == (match stack_index(offset, size as nat, len as nat) {
            Some(at) => Some(at as usize),
            None => None::<usize>,
        }),
{
    if offset >= 0 {
        return None;
    }
    let below: usize = (-(offset as i32)) as usize;
    if below > len || size > below {
        return None;
    }
    Some(len - below)
}

/// The source operand: a register, or the sign-extended immediate.
pub open spec fn src_operand(insn: BpfInsn, regs: Seq<u64>) -> u64 {
    if insn.spec_source_type() is Reg {
        regs[insn.spec_src_reg() as int]
    } else {
        insn.imm as i64 as u64
    }
}

/// How execution goes on after an instruction.
#[derive(Debug, Clone, Copy, PartialEq, Eq, Structural)]
pub enum InsnResult {
    /// Go on with the next instruction
    Continue,
    /// Jump by the offset
    Jump(i16),
    /// The program exits
    Exit,
    /// A legacy load of the LD class
    WideLoad,
}

/// Effect of an ALU instruction on the registers. The 64-bit ALU works on
/// whole registers; the 32-bit ALU works on their low halves and
/// zero-extends its result, except the byte swap, which works on the whole
/// register and keeps the low half of its result.
pub open spec fn alu_effect(insn: BpfInsn, regs: Seq<u64>, is_64bit: bool) -> Result<Seq<u64>, BpfError> {
    let dst = insn.spec_dst_reg();
    if dst >= 11 || (insn.spec_source_type() is Reg && insn.spec_src_reg() >= 11) {
        Err(BpfError::InvalidInstruction)
    } else {
        let src_val = src_operand(insn, regs);
        match alu_op_of(insn.opcode & 0xf0) {
            None => Err(BpfError::InvalidInstruction),
            Some(op) => if (op is Div || op is Mod) && (if is_64bit {
                src_val == 0
            } else {
                src_val as u32 == 0
            }) {
                Err(BpfError::DivisionByZero)
            } else if is_64bit || op is End {
                match alu_value(op, regs[dst as int], src_val, insn.imm) {
                    None => Err(BpfError::InvalidInstruction),
                    Some(v) => Ok(
                        regs.update(
                            dst as int,
                            if is_64bit {
                                v
                            } else {
                                v as u32 as u64
                            },
                        ),
                    ),
                }
            } else {
                match alu_value32(op, regs[dst as int] as u32, src_val as u32) {
                    None => Err(BpfError::InvalidInstruction),
                    Some(v) => Ok(regs.update(dst as int, v as u64)),
                }
            },
        }
    }
}

/// Helpers the kernel provides, by number.
pub open spec fn helper_known(id: i32) -> bool {
    1 <= id <= 6
}

/// The request a call of helper `id` makes, with R1 to R4 holding `r1` to
/// `r4`: the arguments that helper receives, map numbers as 32 bits.
pub open spec fn helper_request(id: i32, r1: u64, r2: u64, r3: u64, r4: u64) -> EnvRequest {
    if id == 1 {
        EnvRequest::Helper { id: 1, a1: 0, a2: 0, a3: 0, a4: 0 }
    } else if id == 2 {
        EnvRequest::Helper { id: 2, a1: r1, a2: r2 as u32 as u64, a3: 0, a4: 0 }
    } else if id == 3 {
        EnvRequest::Helper { id: 3, a1: r1 as u32 as u64, a2: r2, a3: 0, a4: 0 }
    } else if id == 4 {
        EnvRequest::Helper { id: 4, a1: r1 as u32 as u64, a2: r2, a3: r3, a4: r4 }
    } else if id == 5 {
        EnvRequest::Helper { id: 5, a1: r1 as u32 as u64, a2: r2, a3: 0, a4: 0 }
    } else {
        EnvRequest::Helper { id: 6, a1: r1 as u32 as u64, a2: r2, a3: r3, a4: r4 }
    }
}

/// Effect of a jump-class instruction; a helper call stores `a`, the
/// kernel's answer, in R0. The last component is the request the answer
/// was for, if one was made.
pub open spec fn jmp_effect(insn: BpfInsn, regs: Seq<u64>, is_64bit: bool, a: u64) -> Result<
    (InsnResult, Seq<u64>, Option<EnvRequest>),
    BpfError,
> {
    match jmp_op_of(insn.opcode & 0xf0) {
        None => Err(BpfError::InvalidInstruction),
        Some(op) => if op is Call {
            if helper_known(insn.imm) {
                Ok(
                    (
                        InsnResult::Continue,
                        regs.update(0, a),
                        Some(helper_request(insn.imm, regs[1], regs[2], regs[3], regs[4])),
                    ),
                )
            } else {
                Err(BpfError::InvalidHelper(insn.imm))
            }
        } else if op is Exit {
            Ok((InsnResult::Exit, regs, None))
        } else if op is Ja {
            Ok((InsnResult::Jump(insn.offset), regs, None))
        } else if insn.spec_dst_reg() >= 11 || (insn.spec_source_type() is Reg
            && insn.spec_src_reg() >= 11) {
            Err(BpfError::InvalidInstruction)
        } else {
            let d = regs[insn.spec_dst_reg() as int];
            let s = src_operand(insn, regs);
            let taken = if is_64bit {
                jump_taken(op, d, s)
            } else {
                jump_taken32(op, d as u32, s as u32)
            };
            match taken {
                None => Err(BpfError::InvalidInstruction),
                Some(t) => Ok(
                    (
                        if t {
                            InsnResult::Jump(insn.offset)
                        } else {
                            InsnResult::Continue
                        },
                        regs,
                        None,
                    ),
                ),
            }
        },
    }
}

/// The address a load or store reaches: base plus the sign-extended offset.
pub open spec fn mem_addr(base: u64, offset: i16) -> u64 {
    (base + (offset as i64 as u64)) as u64
}

/// Effect of a load: from the stack through R10, from the context at
/// `ctx_addr`, or `a`, the value the kernel reads from packet memory.
pub open spec fn load_effect(
    insn: BpfInsn,
    regs: Seq<u64>,
    stack: Seq<u8>,
    ctx: BpfContext,
    ctx_addr: u64,
    a: u64,
) -> Result<(Seq<u64>, Option<EnvRequest>), BpfError> {
    let dst = insn.spec_dst_reg();
    let src = insn.spec_src_reg();
    let size = mem_size_of(insn.opcode & 0x18).bytes();
    if dst >= 11 || src >= 11 {
        Err(BpfError::InvalidInstruction)
    } else {
        let addr = mem_addr(regs[src as int], insn.offset);
        if src == 10 {
            match stack_index(insn.offset, size, stack.len()) {
                None => Err(BpfError::OutOfBounds),
                Some(at) => Ok(
                    (
                        regs.update(dst as int, le_value(stack.subrange(at as int, (at + size) as int)) as u64),
                        None,
                    ),
                ),
            }
        } else if addr >= ctx_addr && addr + size <= ctx_addr + 24 {
            let off = addr - ctx_addr;
            Ok(
                (
                    regs.update(dst as int, le_value(ctx_bytes(ctx).subrange(off, off + size)) as u64),
                    None,
                ),
            )
        } else if ctx.data != 0 && addr >= ctx.data && addr + size <= ctx.data_end {
            Ok((regs.update(dst as int, a), Some(EnvRequest::Read { addr, size: size as usize })))
        } else {
            Err(BpfError::OutOfBounds)
        }
    }
}

/// Effect of a store on the stack; only stores through R10 are allowed.
pub open spec fn store_effect(insn: BpfInsn, regs: Seq<u64>, stack: Seq<u8>) -> Result<Seq<u8>, BpfError> {
    let dst = insn.spec_dst_reg();
    let src = insn.spec_src_reg();
    let size = mem_size_of(insn.opcode & 0x18).bytes();
    if dst >= 11 {
        Err(BpfError::InvalidInstruction)
    } else if !(insn.spec_class() is St) && src >= 11 {
        Err(BpfError::InvalidInstruction)
    } else {
        let value = if insn.spec_class() is St {
            insn.imm as i64 as u64
        } else {
            regs[src as int]
        };
        if dst == 10 {
            match stack_index(insn.offset, size, stack.len()) {
                None => Err(BpfError::OutOfBounds),
                Some(at) => Ok(write_bytes(stack, at as int, le_bytes(value, size))),
            }
        } else {
            Err(BpfError::OutOfBounds)
        }
    }
}

/// Effect of an instruction other than the wide load: how execution goes
/// on, the registers and stack after it, and whether the kernel's answer
/// `a` was used.
pub open spec fn insn_effect(
    insn: BpfInsn,
    regs: Seq<u64>,
    stack: Seq<u8>,
    ctx: BpfContext,
    ctx_addr: u64,
    a: u64,
) -> Result<(InsnResult, Seq<u64>, Seq<u8>, Option<EnvRequest>), BpfError> {
    if insn.spec_is_exit() {
        Ok((InsnResult::Exit, regs, stack, None))
    } else {
        match insn.spec_class() {
            OpcodeClass::Alu64 | OpcodeClass::Alu32 => match alu_effect(
                insn,
                regs,
                insn.spec_class() is Alu64,
            ) {
                Ok(r) => Ok((InsnResult::Continue, r, stack, None)),
                Err(e) => Err(e),
            },
            OpcodeClass::Jmp | OpcodeClass::Jmp32 => match jmp_effect(
                insn,
                regs,
                insn.spec_class() is Jmp,
                a,
            ) {
                Ok((res, r, used)) => Ok((res, r, stack, used)),
                Err(e) => Err(e),
            },
            OpcodeClass::Ldx => match load_effect(insn, regs, stack, ctx, ctx_addr, a) {
                Ok((r, used)) => Ok((InsnResult::Continue, r, stack, used)),
                Err(e) => Err(e),
            },
            OpcodeClass::Stx | OpcodeClass::St => match store_effect(insn, regs, stack) {
                Ok(s) => Ok((InsnResult::Continue, regs, s, None)),
                Err(e) => Err(e),
            },
            OpcodeClass::Ld => Ok((InsnResult::WideLoad, regs, stack, None)),
        }
    }
}

/// The state of a running program.
pub struct Machine {
    pub regs: Seq<u64>,
    pub stack: Seq<u8>,
    pub pc: int,
    pub count: int,
}

/// Outcome of one step: the program ends with a result, or goes on in a
/// new state; the flag tells whether the kernel's answer was used.
pub enum StepOutcome {
    Done(BpfResult),
    Next(Machine, Option<EnvRequest>),
}

/// The 64-bit immediate of a wide load from its two slots.
pub open spec fn wide_imm(lo: BpfInsn, hi: BpfInsn) -> u64 {
    (lo.imm as u32 as u64) | ((hi.imm as u32 as u64) << 32u64)
}

/// One step of `insns` in state `m`, the instruction count already
/// checked; `a` is the kernel's next answer.
pub open spec fn step(insns: Seq<BpfInsn>, ctx: BpfContext, ctx_addr: u64, m: Machine, a: u64) -> StepOutcome {
    let insn = insns[m.pc];
    if insn.spec_is_wide() {
        if m.pc + 1 >= insns.len() || insn.spec_dst_reg() >= 11 {
            StepOutcome::Done(Err(BpfError::InvalidInstruction))
        } else {
            StepOutcome::Next(
                Machine {
                    regs: m.regs.update(
                        insn.spec_dst_reg() as int,
                        wide_imm(insn, insns[m.pc + 1]),
                    ),
                    stack: m.stack,
                    pc: m.pc + 2,
                    count: m.count + 1,
                },
                None,
            )
        }
    } else {
        match insn_effect(insn, m.regs, m.stack, ctx, ctx_addr, a) {
            Err(e) => StepOutcome::Done(Err(e)),
            Ok((res, regs, stack, used)) => match res {
                InsnResult::Continue => StepOutcome::Next(
                    Machine { regs, stack, pc: m.pc + 1, count: m.count + 1 },
                    used,
                ),
                InsnResult::Jump(off) => StepOutcome::Next(
                    Machine { regs, stack, pc: m.pc + 1 + off, count: m.count + 1 },
                    used,
                ),
                InsnResult::Exit => StepOutcome::Done(Ok(regs[0])),
                InsnResult::WideLoad => StepOutcome::Done(Err(BpfError::InvalidInstruction)),
            },
        }
    }
}

/// The result of running `insns` from `m` with at most `limit`
/// instructions in all, `answers` being what the kernel answers, in
/// order, to the program's packet reads and helper calls.
pub open spec fn run(
    insns: Seq<BpfInsn>,
    ctx: BpfContext,
    ctx_addr: u64,
    limit: int,
    m: Machine,
    answers: Seq<u64>,
) -> BpfResult
    decreases limit + 1 - m.count,
{
    if m.pc < 0 || m.pc >= insns.len() {
        Err(BpfError::OutOfBounds)
    } else if m.count + 1 > limit || m.count < 0 {
        Err(BpfError::Timeout)
    } else {
        let a = if answers.len() > 0 {
            answers[0]
        } else {
            0
        };
        match step(insns, ctx, ctx_addr, m, a) {
            StepOutcome::Done(r) => r,
            StepOutcome::Next(m2, used) => if m2.count == m.count + 1 {
                run(
                    insns,
                    ctx,
                    ctx_addr,
                    limit,
                    m2,
                    if used is Some && answers.len() > 0 {
                        answers.drop_first()
                    } else {
                        answers
                    },
                )
            } else {
                Err(BpfError::InvalidInstruction)
            },
        }
    }
}

/// Every answer that the run from `m` uses is `env`'s answer to the
/// request the program made for it: a packet read of the computed address
/// and size, or a helper call with its number and arguments.
pub open spec fn answered<E: BpfEnvironment>(
    env: &E,
    insns: Seq<BpfInsn>,
    ctx: BpfContext,
    ctx_addr: u64,
    limit: int,
    m: Machine,
    answers: Seq<u64>,
) -> bool
    decreases limit + 1 - m.count,
{
    if m.pc < 0 || m.pc >= insns.len() {
        true
    } else if m.count + 1 > limit || m.count < 0 {
        true
    } else {
        let a = if answers.len() > 0 {
            answers[0]
        } else {
            0
        };
        match step(insns, ctx, ctx_addr, m, a) {
            StepOutcome::Done(r) => true,
            StepOutcome::Next(m2, used) => if m2.count == m.count + 1 {
                match used {
                    Some(q) => answers.len() > 0 && env.answers(q, a) && answered(
                        env,
                        insns,
                        ctx,
                        ctx_addr,
                        limit,
                        m2,
                        answers.drop_first(),
                    ),
                    None => answered(env, insns, ctx, ctx_addr, limit, m2, answers),
                }
            } else {
                true
            },
        }
    }
}

/// The addresses and answers of a program run are `env`'s answers to its
/// requests: `ctx_addr` for the context, `stack_addr` for a stack of
/// `stack_size` bytes, and `answers` for its packet reads and helper calls.
pub open spec fn program_answered<E: BpfEnvironment>(
    env: &E,
    insns: Seq<BpfInsn>,
    ctx: BpfContext,
    limit: usize,
    stack_size: usize,
    ctx_addr: u64,
    stack_addr: u64,
    answers: Seq<u64>,
) -> bool {
    insns.len() == 0 || {
        &&& env.answers(
            EnvRequest::ContextAddress { data: ctx.data, data_end: ctx.data_end, data_meta: ctx.data_meta },
            ctx_addr,
        )
        &&& env.answers(EnvRequest::StackAddress { size: stack_size }, stack_addr)
        &&& answered(
            env,
            insns,
            ctx,
            ctx_addr,
            limit as int,
            entry_machine(ctx_addr, stack_addr, stack_size),
            answers,
        )
    }
}

/// The state at entry: R1 holds the context's address, R10 the address
/// just past the zeroed stack of `stack_size` bytes at `stack_addr`.
pub open spec fn entry_machine(ctx_addr: u64, stack_addr: u64, stack_size: usize) -> Machine {
    Machine {
        regs: Seq::new(11, |i: int| 0u64).update(1, ctx_addr).update(
            10,
            (stack_addr + stack_size) as u64,
        ),
        stack: Seq::new(stack_size as nat, |i: int| 0u8),
        pc: 0,
        count: 0,
    }
}

/// The result of a program run: `NotLoaded` for an empty program, else
/// the run from the entry state.
pub open spec fn program_result(
    insns: Seq<BpfInsn>,
    ctx: BpfContext,
    limit: usize,
    stack_size: usize,
    ctx_addr: u64,
    stack_addr: u64,
    answers: Seq<u64>,
) -> BpfResult {
    if insns.len() == 0 {
        Err(BpfError::NotLoaded)
    } else {
        run(insns, ctx, ctx_addr, limit as int, entry_machine(ctx_addr, stack_addr, stack_size), answers)
    }
}

} // verus!

verus! {

/// Wrapping addition is addition truncated to 64 bits.
proof fn lemma_wrapping_add(x: u64, y: u64)
    ensures
        x.wrapping_add(y) == (x + y) as u64,
{
    if x + y > u64::MAX {
        assert((x + y - 0x1_0000_0000_0000_0000) as u64 == (x + y) as u64) by (bit_vector);
    }
}

/// Wrapping subtraction is subtraction truncated to 64 bits.
proof fn lemma_wrapping_sub(x: u64, y: u64)
    ensures
        x.wrapping_sub(y) == (x - y) as u64,
{
    if x - y < 0 {
        assert((x - y + 0x1_0000_0000_0000_0000) as u64 == (x - y) as u64) by (bit_vector);
    }
}

} // verus!

verus! {

/// 256 to the power `k`.
pub open spec fn pow256(k: nat) -> nat
    decreases k,
{
    if k == 0 {
        1
    } else {
        256 * pow256((k - 1) as nat)
    }
}

/// Powers of 256 up to the seventh fit below 2^56.
proof fn lemma_pow256_bound(k: nat)
    requires
        k <= 7,
    ensures
        pow256(k) <= 0x100_0000_0000_0000,
    decreases k,
{
    reveal_with_fuel(pow256, 8);
}

/// Unfolding `le_value` of a subrange by its first byte.
proof fn lemma_le_value_step(b: Seq<u8>, lo: int, hi: int)
    requires
        0 <= lo < hi <= b.len(),
    ensures
        le_value(b.subrange(lo, hi)) == b[lo] as nat + 256 * le_value(b.subrange(lo + 1, hi)),
{
    assert(b.subrange(lo, hi).drop_first() =~= b.subrange(lo + 1, hi));
}

/// The little-endian value of `n` bytes of `bytes` from `at`.
fn read_le(bytes: &Vec<u8>, at: usize, n: usize) -> (r: u64)
    requires
        at + n <= bytes@.len(),
        n <= 8,
    ensures
        r as nat == le_value(bytes@.subrange(at as int, at + n)),
{
    let len = bytes.len();
    let mut v: u64 = 0;
    let mut i: usize = n;
    while i > 0
        invariant
            i <= n <= 8,
            at + n <= bytes@.len(),
            len == bytes@.len(),
            v as nat == le_value(bytes@.subrange(at + i, at + n)),
            v < pow256((n - i) as nat),
        decreases i,
    {
        i = i - 1;
        proof {
            lemma_le_value_step(bytes@, at + i, at + n);
            lemma_pow256_bound((n - i - 1) as nat);
            assert(pow256((n - i) as nat) == 256 * pow256((n - i - 1) as nat));
        }
        v = v * 256 + bytes[at + i] as u64;
    }
    assert(bytes@.subrange(at as int, at + n) =~= bytes@.subrange(at + 0, at + n));
    v
}

/// Write the `n` low bytes of `value`, least significant first, from `at`.
fn write_le(bytes: &mut Vec<u8>, at: usize, value: u64, n: usize)
    requires
        at + n <= old(bytes)@.len(),
        n <= 8,
    ensures
        final(bytes)@ == write_bytes(old(bytes)@, at as int, le_bytes(value, n as nat)),
{
    let len = bytes.len();
    let mut i: usize = 0;
    while i < n
        invariant
            i <= n <= 8,
            at + n <= old(bytes)@.len(),
            len == old(bytes)@.len(),
            bytes@.len() == old(bytes)@.len(),
            forall|j: int|
                0 <= j < bytes@.len() ==> #[trigger] bytes@[j] == (if at <= j < at + i {
                    le_bytes(value, n as nat)[j - at]
                } else {
                    old(bytes)@[j]
                }),
        decreases n - i,
    {
        let b = ((value >> ((8 * i) as u64)) & 0xff) as u8;
        bytes.set(at + i, b);
        i = i + 1;
    }
    assert(bytes@ =~= write_bytes(old(bytes)@, at as int, le_bytes(value, n as nat)));
}

/// Append the eight bytes of `x`, least significant first.
fn push_le(bytes: &mut Vec<u8>, x: u64)
    ensures
        final(bytes)@ == old(bytes)@ + le_bytes(x, 8),
{
    let mut i: usize = 0;
    while i < 8
        invariant
            i <= 8,
            bytes@ == old(bytes)@ + le_bytes(x, 8).take(i as int),
        decreases 8 - i,
    {
        let b = ((x >> ((8 * i) as u64)) & 0xff) as u8;
        bytes.push(b);
        i = i + 1;
        assert(le_bytes(x, 8).take(i as int) =~= le_bytes(x, 8).take(i - 1).push(b));
    }
    assert(le_bytes(x, 8).take(8) =~= le_bytes(x, 8));
}

/// The context's bytes as the program sees them.
fn context_bytes(ctx: &BpfContext) -> (r: Vec<u8>)
    ensures
        r@ == ctx_bytes(*ctx),
{
    let mut v: Vec<u8> = Vec::new();
    push_le(&mut v, ctx.data);
    push_le(&mut v, ctx.data_end);
    push_le(&mut v, ctx.data_meta);
    assert(v@ =~= ctx_bytes(*ctx));
    v
}

/// A zeroed stack of `n` bytes.
fn zeroed(n: usize) -> (r: Vec<u8>)
    ensures
        r@ == Seq::new(n as nat, |i: int| 0u8),
{
    let mut v: Vec<u8> = Vec::new();
    let mut i: usize = 0;
    while i < n
        invariant
            i <= n,
            v@ == Seq::new(i as nat, |k: int| 0u8),
        decreases n - i,
    {
        v.push(0u8);
        i = i + 1;
        assert(v@ =~= Seq::new(i as nat, |k: int| 0u8));
    }
    v
}

} // verus!

verus! {

/// The answer the kernel gave matters only to instructions that use it.
proof fn lemma_effect_answer(
    insn: BpfInsn,
    regs: Seq<u64>,
    stack: Seq<u8>,
    ctx: BpfContext,
    ctx_addr: u64,
    a: u64,
    b: u64,
)
    ensures
        (insn_effect(insn, regs, stack, ctx, ctx_addr, a) is Err || insn_effect(
            insn,
            regs,
            stack,
            ctx,
            ctx_addr,
            a,
        ).unwrap().3 is None) ==> insn_effect(insn, regs, stack, ctx, ctx_addr, b) == insn_effect(
            insn,
            regs,
            stack,
            ctx,
            ctx_addr,
            a,
        ),
{
}

/// The BPF bytecode interpreter.
pub struct Interpreter<P: PhysicalProfile> {
    _profile: PhantomData<P>,
}

impl<P: PhysicalProfile> Interpreter<P> {
    /// Create an interpreter.
    pub fn new() -> (r: Self) {
        Interpreter { _profile: PhantomData }
    }

    /// Execute an instruction other than the wide load; the ghost value is
    /// the kernel's answer, when the instruction asked for one.
    fn execute_insn<E: BpfEnvironment>(
        &self,
        insn: &BpfInsn,
        regs: &mut RegisterFile,
        stack: &mut Vec<u8>,
        ctx: &BpfContext,
        ctx_addr: u64,
        env: &E,
    ) -> (out: (Result<InsnResult, BpfError>, Ghost<u64>))
        ensures
            match insn_effect(*insn, old(regs)@, old(stack)@, *ctx, ctx_addr, out.1@) {
                Ok((res, rr, s, used)) => out.0 == Ok::<InsnResult, BpfError>(res) && final(regs)@
                    == rr && final(stack)@ == s && (used matches Some(q) ==> env.answers(q, out.1@)),
                Err(e) => out.0 == Err::<InsnResult, BpfError>(e),
            },
            final(stack)@.len() == old(stack)@.len(),
    {
        if insn.is_exit() {
            return (Ok(InsnResult::Exit), Ghost(0));
        }
        let class = match insn.class() {
            Some(c) => c,
            None => return (Err(BpfError::InvalidInstruction), Ghost(0)),
        };
        match class {
            OpcodeClass::Alu64 | OpcodeClass::Alu32 => {
                match self.execute_alu(insn, regs, class == OpcodeClass::Alu64) {
                    Ok(()) => (Ok(InsnResult::Continue), Ghost(0)),
                    Err(e) => (Err(e), Ghost(0)),
                }
            },
            OpcodeClass::Jmp | OpcodeClass::Jmp32 => {
                self.execute_jmp(insn, regs, class == OpcodeClass::Jmp, env)
            },
            OpcodeClass::Ldx => {
                let (res, a) = self.execute_load(insn, regs, stack, ctx, ctx_addr, env);
                match res {
                    Ok(()) => (Ok(InsnResult::Continue), a),
                    Err(e) => (Err(e), a),
                }
            },
            OpcodeClass::Stx | OpcodeClass::St => {
                match self.execute_store(insn, regs, stack) {
                    Ok(()) => (Ok(InsnResult::Continue), Ghost(0)),
                    Err(e) => (Err(e), Ghost(0)),
                }
            },
            OpcodeClass::Ld => (Ok(InsnResult::WideLoad), Ghost(0)),
        }
    }

    /// Execute an ALU instruction.
    fn execute_alu(&self, insn: &BpfInsn, regs: &mut RegisterFile, is_64bit: bool) -> (r: Result<
        (),
        BpfError,
    >)
        ensures
            match alu_effect(*insn, old(regs)@, is_64bit) {
                Ok(rr) => r is Ok && final(regs)@ == rr,
                Err(e) => r == Err::<(), BpfError>(e) && final(regs)@ == old(regs)@,
            },
    {
        let dst = match Register::from_raw(insn.dst_reg()) {
            Some(d) => d,
            None => return Err(BpfError::InvalidInstruction),
        };
        let src_val = if SourceType::from_opcode(insn.opcode) == SourceType::Reg {
            let src = match Register::from_raw(insn.src_reg()) {
                Some(s) => s,
                None => return Err(BpfError::InvalidInstruction),
            };
            regs.get(src)
        } else {
            insn.imm as i64 as u64
        };
        assert(src_val == src_operand(*insn, old(regs)@));
        let dst_val = regs.get(dst);
        let alu_op = match AluOp::from_opcode(insn.opcode) {
            Some(op) => op,
            None => return Err(BpfError::InvalidInstruction),
        };
        if !is_64bit && alu_op != AluOp::End {
            let x = dst_val as u32;
            let y = src_val as u32;
            let result32: u32 = match alu_op {
                AluOp::Add => x.wrapping_add(y),
                AluOp::Sub => x.wrapping_sub(y),
                AluOp::Mul => x.wrapping_mul(y),
                AluOp::Div => {
                    if y == 0 {
                        return Err(BpfError::DivisionByZero);
                    }
                    x / y
                },
                AluOp::Or => x | y,
                AluOp::And => x & y,
                AluOp::Lsh => x << (y % 32),
                AluOp::Rsh => x >> (y % 32),
                AluOp::Neg => 0u32.wrapping_sub(x),
                AluOp::Mod => {
                    if y == 0 {
                        return Err(BpfError::DivisionByZero);
                    }
                    x % y
                },
                AluOp::Xor => x ^ y,
                AluOp::Mov => y,
                AluOp::Arsh => ((x as i32) >> (y % 32)) as u32,
                AluOp::End => 0,
            };
            regs.set_unchecked(dst, result32 as u64);
            return Ok(());
        }
        let result = match alu_op {
            AluOp::Add => {
                proof {
                    lemma_wrapping_add(dst_val, src_val);
                }
                dst_val.wrapping_add(src_val)
            },
            AluOp::Sub => {
                proof {
                    lemma_wrapping_sub(dst_val, src_val);
                }
                dst_val.wrapping_sub(src_val)
            },
            AluOp::Mul => dst_val.wrapping_mul(src_val),
            AluOp::Div => {
                if src_val == 0 {
                    return Err(BpfError::DivisionByZero);
                }
                dst_val / src_val
            },
            AluOp::Or => dst_val | src_val,
            AluOp::And => dst_val & src_val,
            AluOp::Lsh => {
                assert(src_val & 0x3f < 64) by (bit_vector);
                dst_val << (src_val & 0x3f)
            },
            AluOp::Rsh => {
                assert(src_val & 0x3f < 64) by (bit_vector);
                dst_val >> (src_val & 0x3f)
            },
            AluOp::Neg => {
                proof {
                    lemma_wrapping_sub(0, dst_val);
                }
                0u64.wrapping_sub(dst_val)
            },
            AluOp::Mod => {
                if src_val == 0 {
                    return Err(BpfError::DivisionByZero);
                }
                dst_val % src_val
            },
            AluOp::Xor => dst_val ^ src_val,
            AluOp::Mov => src_val,
            AluOp::Arsh => {
                assert(src_val & 0x3f < 64) by (bit_vector);
                ((dst_val as i64) >> (src_val & 0x3f)) as u64
            },
            AluOp::End => {
                let x = dst_val;
                if insn.imm == 16 {
                    (((x & 0xff) << 8u64) | ((x >> 8u64) & 0xff)) as u64
                } else if insn.imm == 32 {
                    ((x & 0xff) << 24u64) | (((x >> 8u64) & 0xff) << 16u64) | (((x >> 16u64)
                        & 0xff) << 8u64) | ((x >> 24u64) & 0xff)
                } else if insn.imm == 64 {
                    ((x & 0xff) << 56u64) | (((x >> 8u64) & 0xff) << 48u64) | (((x >> 16u64)
                        & 0xff) << 40u64) | (((x >> 24u64) & 0xff) << 32u64) | (((x >> 32u64)
                        & 0xff) << 24u64) | (((x >> 40u64) & 0xff) << 16u64) | (((x >> 48u64)
                        & 0xff) << 8u64) | ((x >> 56u64) & 0xff)
                } else {
                    return Err(BpfError::InvalidInstruction);
                }
            },
        };
        let result = if is_64bit {
            result
        } else {
            (result as u32) as u64
        };
        regs.set_unchecked(dst, result);
        Ok(())
    }

    /// Execute a jump-class instruction; the ghost value is the helper's
    /// result for a call.
    fn execute_jmp<E: BpfEnvironment>(
        &self,
        insn: &BpfInsn,
        regs: &mut RegisterFile,
        is_64bit: bool,
        env: &E,
    ) -> (out: (Result<InsnResult, BpfError>, Ghost<u64>))
        ensures
            match jmp_effect(*insn, old(regs)@, is_64bit, out.1@) {
                Ok((res, rr, used)) => out.0 == Ok::<InsnResult, BpfError>(res) && final(regs)@
                    == rr && (used matches Some(q) ==> env.answers(q, out.1@)),
                Err(e) => out.0 == Err::<InsnResult, BpfError>(e) && final(regs)@ == old(regs)@,
            },
    {
        let jmp_op = match JmpOp::from_opcode(insn.opcode) {
            Some(op) => op,
            None => return (Err(BpfError::InvalidInstruction), Ghost(0)),
        };
        if jmp_op == JmpOp::Call {
            return self.execute_call(insn, regs, env);
        }
        if jmp_op == JmpOp::Exit {
            return (Ok(InsnResult::Exit), Ghost(0));
        }
        if jmp_op == JmpOp::Ja {
            return (Ok(InsnResult::Jump(insn.offset)), Ghost(0));
        }
        let dst = match Register::from_raw(insn.dst_reg()) {
            Some(d) => d,
            None => return (Err(BpfError::InvalidInstruction), Ghost(0)),
        };
        let dst_val = regs.get(dst);
        let src_val = if SourceType::from_opcode(insn.opcode) == SourceType::Reg {
            let src = match Register::from_raw(insn.src_reg()) {
                Some(s) => s,
                None => return (Err(BpfError::InvalidInstruction), Ghost(0)),
            };
            regs.get(src)
        } else {
            insn.imm as i64 as u64
        };
        assert(src_val == src_operand(*insn, old(regs)@));
        if !is_64bit {
            let x = dst_val as u32;
            let y = src_val as u32;
            let condition32 = match jmp_op {
                JmpOp::Jeq => x == y,
                JmpOp::Jgt => x > y,
                JmpOp::Jge => x >= y,
                JmpOp::Jlt => x < y,
                JmpOp::Jle => x <= y,
                JmpOp::Jset => (x & y) != 0,
                JmpOp::Jne => x != y,
                JmpOp::Jsgt => (x as i32) > (y as i32),
                JmpOp::Jsge => (x as i32) >= (y as i32),
                JmpOp::Jslt => (x as i32) < (y as i32),
                JmpOp::Jsle => (x as i32) <= (y as i32),
                _ => return (Err(BpfError::InvalidInstruction), Ghost(0)),
            };
            return if condition32 {
                (Ok(InsnResult::Jump(insn.offset)), Ghost(0))
            } else {
                (Ok(InsnResult::Continue), Ghost(0))
            };
        }
        let condition = match jmp_op {
            JmpOp::Jeq => dst_val == src_val,
            JmpOp::Jgt => dst_val > src_val,
            JmpOp::Jge => dst_val >= src_val,
            JmpOp::Jlt => dst_val < src_val,
            JmpOp::Jle => dst_val <= src_val,
            JmpOp::Jset => (dst_val & src_val) != 0,
            JmpOp::Jne => dst_val != src_val,
            JmpOp::Jsgt => (dst_val as i64) > (src_val as i64),
            JmpOp::Jsge => (dst_val as i64) >= (src_val as i64),
            JmpOp::Jslt => (dst_val as i64) < (src_val as i64),
            JmpOp::Jsle => (dst_val as i64) <= (src_val as i64),
            _ => return (Err(BpfError::InvalidInstruction), Ghost(0)),
        };
        if condition {
            (Ok(InsnResult::Jump(insn.offset)), Ghost(0))
        } else {
            (Ok(InsnResult::Continue), Ghost(0))
        }
    }

    /// Execute a helper call: R0 receives the helper's result, which is
    /// also the ghost value.
    fn execute_call<E: BpfEnvironment>(&self, insn: &BpfInsn, regs: &mut RegisterFile, env: &E) -> (out:
        (Result<InsnResult, BpfError>, Ghost<u64>))
        ensures
            helper_known(insn.imm) ==> out.0 == Ok::<InsnResult, BpfError>(InsnResult::Continue)
                && final(regs)@ == old(regs)@.update(0, out.1@) && env.answers(
                helper_request(insn.imm, old(regs)@[1], old(regs)@[2], old(regs)@[3], old(regs)@[4]),
                out.1@,
            ),
            !helper_known(insn.imm) ==> out.0 == Err::<InsnResult, BpfError>(
                BpfError::InvalidHelper(insn.imm),
            ) && final(regs)@ == old(regs)@,
    {
        let helper_id = insn.imm;
        let args = [
            regs.get(Register::R1),
            regs.get(Register::R2),
            regs.get(Register::R3),
            regs.get(Register::R4),
            regs.get(Register::R5),
        ];
        let result = match self.call_helper(helper_id, args, env) {
            Ok(v) => v,
            Err(e) => return (Err(e), Ghost(0)),
        };
        regs.set(Register::R0, result);
        (Ok(InsnResult::Continue), Ghost(result))
    }

    /// Call helper `helper_id` with the arguments R1-R5.
    fn call_helper<E: BpfEnvironment>(&self, helper_id: i32, args: [u64; 5], env: &E) -> (r: Result<
        u64,
        BpfError,
    >)
        ensures
            helper_known(helper_id) ==> (r matches Ok(v) && env.answers(
                helper_request(helper_id, args[0], args[1], args[2], args[3]),
                v,
            )),
            !helper_known(helper_id) ==> r == Err::<u64, BpfError>(
                BpfError::InvalidHelper(helper_id),
            ),
    {
        match helper_id {
            1 => Ok(env.ktime_get_ns()),
            2 => Ok(env.trace_printk(args[0], args[1] as u32) as u64),
            3 => Ok(env.map_lookup_elem(args[0] as u32, args[1])),
            4 => Ok(env.map_update_elem(args[0] as u32, args[1], args[2], args[3]) as u64),
            5 => Ok(env.map_delete_elem(args[0] as u32, args[1]) as u64),
            6 => Ok(env.ringbuf_output(args[0] as u32, args[1], args[2], args[3]) as u64),
            _ => Err(BpfError::InvalidHelper(helper_id)),
        }
    }

    /// Execute a load from the stack, the context or packet memory.
    fn execute_load<E: BpfEnvironment>(
        &self,
        insn: &BpfInsn,
        regs: &mut RegisterFile,
        stack: &Vec<u8>,
        ctx: &BpfContext,
        ctx_addr: u64,
        env: &E,
    ) -> (out: (Result<(), BpfError>, Ghost<u64>))
        ensures
            match load_effect(*insn, old(regs)@, stack@, *ctx, ctx_addr, out.1@) {
                Ok((rr, used)) => out.0 is Ok && final(regs)@ == rr && (used matches Some(q)
                    ==> env.answers(q, out.1@)),
                Err(e) => out.0 == Err::<(), BpfError>(e),
            },
    {
        let dst = match Register::from_raw(insn.dst_reg()) {
            Some(d) => d,
            None => {
                return (Err(BpfError::InvalidInstruction), Ghost(0));
            },
        };
        let src = match Register::from_raw(insn.src_reg()) {
            Some(s) => s,
            None => {
                return (Err(BpfError::InvalidInstruction), Ghost(0));
            },
        };
        let size = match MemSize::from_opcode(insn.opcode) {
            Some(s) => s,
            None => return (Err(BpfError::InvalidInstruction), Ghost(0)),
        };
        let nbytes = size.size_bytes();
        let base = regs.get(src);
        proof {
            lemma_wrapping_add(base, insn.offset as i64 as u64);
        }
        let addr = base.wrapping_add(insn.offset as i64 as u64);
        if src == Register::R10 {
            let stack_idx = match stack_position(insn.offset, nbytes, stack.len()) {
                Some(at) => at,
                None => {
                    return (Err(BpfError::OutOfBounds), Ghost(0));
                },
            };
            let value = read_le(stack, stack_idx, nbytes);
            regs.set_unchecked(dst, value);
            return (Ok(()), Ghost(0));
        }
        if addr >= ctx_addr && addr - ctx_addr <= 24 && (nbytes as u64) <= 24 - (addr - ctx_addr) {
            let bytes = context_bytes(ctx);
            let value = read_le(&bytes, (addr - ctx_addr) as usize, nbytes);
            regs.set_unchecked(dst, value);
            return (Ok(()), Ghost(0));
        }
        if ctx.data != 0 && addr >= ctx.data && addr <= ctx.data_end && (nbytes as u64)
            <= ctx.data_end - addr {
            let value = env.read(addr, nbytes);
            regs.set_unchecked(dst, value);
            return (Ok(()), Ghost(value));
        }
        (Err(BpfError::OutOfBounds), Ghost(0))
    }

    /// Execute a store; only stores to the stack through R10 are allowed.
    fn execute_store(&self, insn: &BpfInsn, regs: &RegisterFile, stack: &mut Vec<u8>) -> (r: Result<
        (),
        BpfError,
    >)
        ensures
            match store_effect(*insn, regs@, old(stack)@) {
                Ok(s) => r is Ok && final(stack)@ == s,
                Err(e) => r == Err::<(), BpfError>(e) && final(stack)@ == old(stack)@,
            },
            final(stack)@.len() == old(stack)@.len(),
    {
        let dst = match Register::from_raw(insn.dst_reg()) {
            Some(d) => d,
            None => return Err(BpfError::InvalidInstruction),
        };
        let class = match insn.class() {
            Some(c) => c,
            None => return Err(BpfError::InvalidInstruction),
        };
        let value = if class == OpcodeClass::St {
            insn.imm as i64 as u64
        } else {
            let src = match Register::from_raw(insn.src_reg()) {
                Some(s) => s,
                None => return Err(BpfError::InvalidInstruction),
            };
            regs.get(src)
        };
        let size = match MemSize::from_opcode(insn.opcode) {
            Some(s) => s,
            None => return Err(BpfError::InvalidInstruction),
        };
        let nbytes = size.size_bytes();
        if dst == Register::R10 {
            let stack_idx = match stack_position(insn.offset, nbytes, stack.len()) {
                Some(at) => at,
                None => {
                    return Err(BpfError::OutOfBounds);
                },
            };
            write_le(stack, stack_idx, value, nbytes);
            return Ok(());
        }
        Err(BpfError::OutOfBounds)
    }
}

impl<P: PhysicalProfile> Default for Interpreter<P> {
    fn default() -> (r: Self) {
        Interpreter::new()
    }
}

} // verus!

verus! {

/// What a run from the entry state gives, once the answers so far are
/// known and the run has reached `cur`.
proof fn lemma_run_result<E: BpfEnvironment>(
    env: &E,
    insns: Seq<BpfInsn>,
    ctx: BpfContext,
    ctx_addr: u64,
    stack_addr: u64,
    limit: usize,
    stack_size: usize,
    m0: Machine,
    past: Seq<u64>,
    cur: Machine,
)
    requires
        insns.len() > 0,
        m0 == entry_machine(ctx_addr, stack_addr, stack_size),
        env.answers(
            EnvRequest::ContextAddress { data: ctx.data, data_end: ctx.data_end, data_meta: ctx.data_meta },
            ctx_addr,
        ),
        env.answers(EnvRequest::StackAddress { size: stack_size }, stack_addr),
        forall|rest: Seq<u64>| #[trigger]
            run(insns, ctx, ctx_addr, limit as int, m0, past + rest) == run(
                insns,
                ctx,
                ctx_addr,
                limit as int,
                cur,
                rest,
            ),
        forall|rest: Seq<u64>| #[trigger]
            answered(env, insns, ctx, ctx_addr, limit as int, cur, rest) ==> answered(
                env,
                insns,
                ctx,
                ctx_addr,
                limit as int,
                m0,
                past + rest,
            ),
    ensures
        program_result(insns, ctx, limit, stack_size, ctx_addr, stack_addr, past) == run(
            insns,
            ctx,
            ctx_addr,
            limit as int,
            cur,
            Seq::empty(),
        ),
        answered(env, insns, ctx, ctx_addr, limit as int, cur, Seq::empty()) ==> program_answered(
            env,
            insns,
            ctx,
            limit,
            stack_size,
            ctx_addr,
            stack_addr,
            past,
        ),
{
    assert(answered(env, insns, ctx, ctx_addr, limit as int, cur, Seq::empty()) ==> answered(
        env,
        insns,
        ctx,
        ctx_addr,
        limit as int,
        m0,
        past + Seq::<u64>::empty(),
    ));
    assert(past + Seq::<u64>::empty() =~= past);
    assert(run(insns, ctx, ctx_addr, limit as int, m0, past + Seq::<u64>::empty()) == run(
        insns,
        ctx,
        ctx_addr,
        limit as int,
        cur,
        Seq::empty(),
    ));
}

impl<P: PhysicalProfile> BpfExecutor<P> for Interpreter<P> {
    /// Run `program`: the result is that of the program's semantics for
    /// the addresses the kernel gave the context and the stack, and the
    /// answers it gave to the program's packet reads and helper calls, each
    /// answer being `env`'s answer to the request the program made for it.
    fn execute<E: BpfEnvironment>(&self, program: &BpfProgram<P>, ctx: &BpfContext, env: &E) -> (r:
        BpfResult)
        ensures
            exists|ctx_addr: u64, stack_addr: u64, answers: Seq<u64>|
                r == #[trigger] program_result(
                    program.insns(),
                    *ctx,
                    P::MAX_INSN_COUNT,
                    P::MAX_STACK_SIZE,
                    ctx_addr,
                    stack_addr,
                    answers,
                ) && program_answered(
                    env,
                    program.insns(),
                    *ctx,
                    P::MAX_INSN_COUNT,
                    P::MAX_STACK_SIZE,
                    ctx_addr,
                    stack_addr,
                    answers,
                ),
    {
        let insns = program.instructions();
        proof {
            use_type_invariant(program);
            program.lemma_wf_bounds();
        }
        if insns.len() == 0 {
            assert(program_result(
                program.insns(),
                *ctx,
                P::MAX_INSN_COUNT,
                P::MAX_STACK_SIZE,
                0,
                0,
                Seq::empty(),
            ) == Err::<u64, BpfError>(BpfError::NotLoaded));
            return Err(BpfError::NotLoaded);
        }
        proof {
            P::lemma_limits();
        }
        let mut regs = RegisterFile::new();
        let mut stack = zeroed(P::MAX_STACK_SIZE);
        let ctx_addr = env.context_address(ctx);
        regs.set(Register::R1, ctx_addr);
        let stack_addr = env.stack_address(stack.as_slice());
        proof {
            lemma_wrapping_add(stack_addr, P::MAX_STACK_SIZE as u64);
        }
        let fp = stack_addr.wrapping_add(P::MAX_STACK_SIZE as u64);
        regs.set_unchecked(Register::R10, fp);
        let ghost m0 = Machine { regs: regs@, stack: stack@, pc: 0, count: 0 };
        assert(m0.regs =~= entry_machine(ctx_addr, stack_addr, P::MAX_STACK_SIZE).regs);
        assert(m0 == entry_machine(ctx_addr, stack_addr, P::MAX_STACK_SIZE));
        let ghost limit = P::MAX_INSN_COUNT as int;
        let ghost mut past: Seq<u64> = Seq::empty();
        let mut pc: usize = 0;
        let mut insn_count: usize = 0;
        let insn_limit = P::MAX_INSN_COUNT;
        proof {
            assert forall|rest: Seq<u64>| #[trigger]
                run(insns@, *ctx, ctx_addr, limit, m0, past + rest) == run(
                    insns@,
                    *ctx,
                    ctx_addr,
                    limit,
                    m0,
                    rest,
                ) by {
                assert(past + rest =~= rest);
            }
            assert forall|rest: Seq<u64>| #[trigger]
                answered(env, insns@, *ctx, ctx_addr, limit, m0, rest) implies answered(
                    env,
                    insns@,
                    *ctx,
                    ctx_addr,
                    limit,
                    m0,
                    past + rest,
                ) by {
                assert(past + rest =~= rest);
            }
        }
        loop
            invariant
                insns@ == program.insns(),
                0 < insns@.len() <= 0x1000_0000,
                env.answers(
                    EnvRequest::ContextAddress { data: ctx.data, data_end: ctx.data_end, data_meta: ctx.data_meta },
                    ctx_addr,
                ),
                env.answers(EnvRequest::StackAddress { size: P::MAX_STACK_SIZE }, stack_addr),
                insn_limit == P::MAX_INSN_COUNT,
                limit == insn_limit as int,
                0 < insn_limit <= 0x1000_0000,
                insn_count <= insn_limit,
                pc <= 0x2000_0000,
                regs@.len() == 11,
                m0 == entry_machine(ctx_addr, stack_addr, P::MAX_STACK_SIZE),
                forall|rest: Seq<u64>| #[trigger]
                    run(insns@, *ctx, ctx_addr, limit, m0, past + rest) == run(
                        insns@,
                        *ctx,
                        ctx_addr,
                        limit,
                        Machine {
                            regs: regs@,
                            stack: stack@,
                            pc: pc as int,
                            count: insn_count as int,
                        },
                        rest,
                    ),
                forall|rest: Seq<u64>| #[trigger]
                    answered(
                        env,
                        insns@,
                        *ctx,
                        ctx_addr,
                        limit,
                        Machine {
                            regs: regs@,
                            stack: stack@,
                            pc: pc as int,
                            count: insn_count as int,
                        },
                        rest,
                    ) ==> answered(env, insns@, *ctx, ctx_addr, limit, m0, past + rest),
            decreases insn_limit - insn_count,
        {
            let ghost cur = Machine {
                regs: regs@,
                stack: stack@,
                pc: pc as int,
                count: insn_count as int,
            };
            if pc >= insns.len() {
                proof {
                    lemma_run_result(env, insns@, *ctx, ctx_addr, stack_addr, insn_limit, P::MAX_STACK_SIZE, m0, past, cur);
                }
                return Err(BpfError::OutOfBounds);
            }
            insn_count = insn_count + 1;
            if insn_count > insn_limit {
                proof {
                    lemma_run_result(env, insns@, *ctx, ctx_addr, stack_addr, insn_limit, P::MAX_STACK_SIZE, m0, past, cur);
                }
                return Err(BpfError::Timeout);
            }
            let insn = insns[pc];
            if insn.is_wide() {
                if pc + 1 >= insns.len() {
                    proof {
                        lemma_run_result(env, insns@, *ctx, ctx_addr, stack_addr, insn_limit, P::MAX_STACK_SIZE, m0, past, cur);
                    }
                    return Err(BpfError::InvalidInstruction);
                }
                let next_insn = insns[pc + 1];
                let imm64 = (insn.imm as u32 as u64) | ((next_insn.imm as u32 as u64) << 32u64);
                let dst = match Register::from_raw(insn.dst_reg()) {
                    Some(d) => d,
                    None => {
                        proof {
                            lemma_run_result(env, insns@, *ctx, ctx_addr, stack_addr, insn_limit, P::MAX_STACK_SIZE, m0, past, cur);
                        }
                        return Err(BpfError::InvalidInstruction);
                    },
                };
                regs.set_unchecked(dst, imm64);
                pc = pc + 2;
                proof {
                    let next = Machine {
                        regs: regs@,
                        stack: stack@,
                        pc: pc as int,
                        count: insn_count as int,
                    };
                    assert forall|rest: Seq<u64>| #[trigger]
                        run(insns@, *ctx, ctx_addr, limit, m0, past + rest) == run(
                            insns@,
                            *ctx,
                            ctx_addr,
                            limit,
                            next,
                            rest,
                        ) by {
                        let a = if rest.len() > 0 {
                            rest[0]
                        } else {
                            0
                        };
                        assert(step(insns@, *ctx, ctx_addr, cur, a) == StepOutcome::Next(
                            next,
                            None,
                        ));
                    }
                    assert forall|rest: Seq<u64>| #[trigger]
                        answered(env, insns@, *ctx, ctx_addr, limit, next, rest) implies answered(
                            env,
                            insns@,
                            *ctx,
                            ctx_addr,
                            limit,
                            m0,
                            past + rest,
                        ) by {
                        let a = if rest.len() > 0 {
                            rest[0]
                        } else {
                            0
                        };
                        assert(step(insns@, *ctx, ctx_addr, cur, a) == StepOutcome::Next(
                            next,
                            None,
                        ));
                        assert(answered(env, insns@, *ctx, ctx_addr, limit, cur, rest));
                    }
                }
                continue ;
            }
            let ghost regs0 = regs@;
            let ghost stack0 = stack@;
            let (res, answer) = self.execute_insn(&insn, &mut regs, &mut stack, ctx, ctx_addr, env);
            let ghost eff = insn_effect(insn, regs0, stack0, *ctx, ctx_addr, answer@);
            proof {
                assert forall|b: u64| (eff is Err || eff.unwrap().3 is None) ==> #[trigger] insn_effect(
                    insn,
                    regs0,
                    stack0,
                    *ctx,
                    ctx_addr,
                    b,
                ) == eff by {
                    lemma_effect_answer(insn, regs0, stack0, *ctx, ctx_addr, answer@, b);
                }
            }
            match res {
                Err(e) => {
                    proof {
                        assert(insn_effect(insn, regs0, stack0, *ctx, ctx_addr, 0) == eff);
                        lemma_run_result(env, insns@, *ctx, ctx_addr, stack_addr, insn_limit, P::MAX_STACK_SIZE, m0, past, cur);
                    }
                    return Err(e);
                },
                Ok(InsnResult::Continue) => {
                    pc = pc + 1;
                },
                Ok(InsnResult::Jump(offset)) => {
                    let target = (pc as i64) + 1 + (offset as i64);
                    if target < 0 {
                        proof {
                            lemma_run_result(env, insns@, *ctx, ctx_addr, stack_addr, insn_limit, P::MAX_STACK_SIZE, m0, past, cur);
                            assert(insn_effect(insn, regs0, stack0, *ctx, ctx_addr, 0) == eff);
                            let next = Machine {
                                regs: regs@,
                                stack: stack@,
                                pc: target as int,
                                count: insn_count as int,
                            };
                            assert(step(insns@, *ctx, ctx_addr, cur, 0) == StepOutcome::Next(
                                next,
                                None,
                            ));
                            assert(run(insns@, *ctx, ctx_addr, limit, next, Seq::empty()) == Err::<
                                u64,
                                BpfError,
                            >(BpfError::OutOfBounds));
                            assert(answered(env, insns@, *ctx, ctx_addr, limit, next, Seq::empty()));
                            assert(answered(env, insns@, *ctx, ctx_addr, limit, cur, Seq::empty()));
                            assert(run(insns@, *ctx, ctx_addr, limit, cur, Seq::empty()) == run(
                                insns@,
                                *ctx,
                                ctx_addr,
                                limit,
                                next,
                                Seq::empty(),
                            ));
                            assert(run(
                                insns@,
                                *ctx,
                                ctx_addr,
                                limit,
                                m0,
                                past + Seq::<u64>::empty(),
                            ) == run(insns@, *ctx, ctx_addr, limit, cur, Seq::<u64>::empty()));
                        }
                        return Err(BpfError::OutOfBounds);
                    }
                    pc = target as usize;
                },
                Ok(InsnResult::Exit) => {
                    proof {
                        assert(insn_effect(insn, regs0, stack0, *ctx, ctx_addr, 0) == eff);
                        lemma_run_result(env, insns@, *ctx, ctx_addr, stack_addr, insn_limit, P::MAX_STACK_SIZE, m0, past, cur);
                    }
                    return Ok(regs.return_value());
                },
                Ok(InsnResult::WideLoad) => {
                    proof {
                        assert(insn_effect(insn, regs0, stack0, *ctx, ctx_addr, 0) == eff);
                        lemma_run_result(env, insns@, *ctx, ctx_addr, stack_addr, insn_limit, P::MAX_STACK_SIZE, m0, past, cur);
                    }
                    return Err(BpfError::InvalidInstruction);
                },
            }
            proof {
                let used = eff.unwrap().3;
                let next = Machine {
                    regs: regs@,
                    stack: stack@,
                    pc: pc as int,
                    count: insn_count as int,
                };
                let old_past = past;
                if used is Some {
                    past = past.push(answer@);
                }
                assert forall|rest: Seq<u64>| #[trigger]
                    run(insns@, *ctx, ctx_addr, limit, m0, past + rest) == run(
                        insns@,
                        *ctx,
                        ctx_addr,
                        limit,
                        next,
                        rest,
                    ) by {
                    if used is Some {
                        let full = seq![answer@] + rest;
                        assert(past + rest =~= old_past + full);
                        assert(full.drop_first() =~= rest);
                        assert(step(insns@, *ctx, ctx_addr, cur, full[0]) == StepOutcome::Next(
                            next,
                            used,
                        ));
                        assert(run(insns@, *ctx, ctx_addr, limit, m0, old_past + full) == run(
                            insns@,
                            *ctx,
                            ctx_addr,
                            limit,
                            cur,
                            full,
                        ));
                    } else {
                        let a = if rest.len() > 0 {
                            rest[0]
                        } else {
                            0
                        };
                        assert(insn_effect(insn, regs0, stack0, *ctx, ctx_addr, a) == eff);
                        assert(step(insns@, *ctx, ctx_addr, cur, a) == StepOutcome::Next(
                            next,
                            None,
                        ));
                        assert(run(insns@, *ctx, ctx_addr, limit, m0, old_past + rest) == run(
                            insns@,
                            *ctx,
                            ctx_addr,
                            limit,
                            cur,
                            rest,
                        ));
                    }
                }
                assert forall|rest: Seq<u64>| #[trigger]
                    answered(env, insns@, *ctx, ctx_addr, limit, next, rest) implies answered(
                        env,
                        insns@,
                        *ctx,
                        ctx_addr,
                        limit,
                        m0,
                        past + rest,
                    ) by {
                    if used is Some {
                        let full = seq![answer@] + rest;
                        assert(past + rest =~= old_past + full);
                        assert(full.drop_first() =~= rest);
                        assert(step(insns@, *ctx, ctx_addr, cur, full[0]) == StepOutcome::Next(
                            next,
                            used,
                        ));
                        assert(answered(env, insns@, *ctx, ctx_addr, limit, cur, full));
                    } else {
                        let a = if rest.len() > 0 {
                            rest[0]
                        } else {
                            0
                        };
                        assert(insn_effect(insn, regs0, stack0, *ctx, ctx_addr, a) == eff);
                        assert(step(insns@, *ctx, ctx_addr, cur, a) == StepOutcome::Next(
                            next,
                            None,
                        ));
                        assert(answered(env, insns@, *ctx, ctx_addr, limit, cur, rest));
                    }
                }
            }
        }
    }
}

} // verus!

verus! {

/// Every power of 256 is positive.
proof fn lemma_pow256_positive(k: nat)
    ensures
        pow256(k) > 0,
    decreases k,
{
    if k > 0 {
        lemma_pow256_positive((k - 1) as nat);
    }
}

/// Reading back the `n` little-endian bytes of `v` gives `v` modulo 256^n.
pub proof fn lemma_le_roundtrip(v: u64, n: nat)
    requires
        n <= 8,
    ensures
        le_value(le_bytes(v, n)) == (v as nat) % pow256(n),
    decreases n,
{
    if n == 0 {
        assert(le_bytes(v, 0) =~= Seq::<u8>::empty());
    } else {
        let w = v >> 8;
        let b = le_bytes(v, n);
        assert forall|i: int| 0 <= i < n - 1 implies b.drop_first()[i] == le_bytes(w, (n - 1) as nat)[i] by {
            let s = (8 * i) as u64;
            assert(((v >> ((s + 8) as u64)) & 0xff) == (((v >> 8) >> s) & 0xff)) by (bit_vector)
                requires
                    s <= 48,
            ;
            assert((8 * (i + 1)) as u64 == (s + 8) as u64);
        }
        assert(b.drop_first() =~= le_bytes(w, (n - 1) as nat));
        lemma_le_roundtrip(w, (n - 1) as nat);
        assert(((v >> 0u64) & 0xff) == v % 256) by (bit_vector);
        assert((8 * 0int) as u64 == 0u64);
        assert(b[0] as nat == (v as nat) % 256);
        assert((v >> 8) == v / 256) by (bit_vector);
        lemma_pow256_positive((n - 1) as nat);
        vstd::arithmetic::div_mod::lemma_mod_breakdown(v as int, 256, pow256((n - 1) as nat) as int);
        assert(pow256(n) == 256 * pow256((n - 1) as nat));
    }
}

/// A value that a store of `n` bytes writes into the stack at `at` reads
/// back, from the same place and size, as itself modulo 256^n.
pub proof fn lemma_store_then_load(stack: Seq<u8>, at: int, v: u64, n: nat)
    requires
        n <= 8,
        0 <= at,
        at + n <= stack.len(),
    ensures
        le_value(write_bytes(stack, at, le_bytes(v, n)).subrange(at, at + n)) == (v as nat) % pow256(n),
{
    assert(write_bytes(stack, at, le_bytes(v, n)).subrange(at, at + n) =~= le_bytes(v, n));
    lemma_le_roundtrip(v, n);
}

/// A store to the stack through R10 (of a register or of an immediate),
/// then a load through R10 at the same offset and of the same size: the
/// loaded register holds the stored value, cut to that size.
pub proof fn lemma_stack_store_then_load(
    st: BpfInsn,
    ld: BpfInsn,
    regs: Seq<u64>,
    stack: Seq<u8>,
    ctx: BpfContext,
    ctx_addr: u64,
    a: u64,
)
    requires
        regs.len() == 11,
        st.spec_class() is Stx || st.spec_class() is St,
        ld.spec_src_reg() == 10,
        ld.spec_dst_reg() < 11,
        st.offset == ld.offset,
        st.opcode & 0x18 == ld.opcode & 0x18,
        store_effect(st, regs, stack) is Ok,
    ensures
        ({
            let size = mem_size_of(st.opcode & 0x18).bytes();
            let stored = store_effect(st, regs, stack).unwrap();
            let v = if st.spec_class() is St {
                st.imm as i64 as u64
            } else {
                regs[st.spec_src_reg() as int]
            };
            load_effect(ld, regs, stored, ctx, ctx_addr, a) matches Ok((r2, req)) && req is None
                && r2[ld.spec_dst_reg() as int] as nat == (v as nat) % pow256(size)
        }),
{
    let size = mem_size_of(st.opcode & 0x18).bytes();
    let at = stack_index(st.offset, size, stack.len()).unwrap();
    let v = if st.spec_class() is St {
        st.imm as i64 as u64
    } else {
        regs[st.spec_src_reg() as int]
    };
    let stored = write_bytes(stack, at as int, le_bytes(v, size));
    assert(stored.len() == stack.len());
    lemma_store_then_load(stack, at as int, v, size);
    lemma_pow256_positive(size);
    vstd::arithmetic::div_mod::lemma_mod_decreases(v as nat, pow256(size));
}


/// A conditional jump is taken exactly when its comparison holds, and
/// changes no register. A 64-bit jump compares the whole registers, its
/// signed forms as two's complement numbers; a 32-bit jump compares their
/// low halves, its signed forms as 32-bit two's complement numbers; JSET
/// tests for a common set bit. The right operand is the source register,
/// or the sign-extended immediate.
pub proof fn lemma_conditional_jump_taken(insn: BpfInsn, regs: Seq<u64>, is_64bit: bool, a: u64)
    requires
        regs.len() == 11,
        insn.spec_dst_reg() < 11,
        insn.spec_source_type() is Reg ==> insn.spec_src_reg() < 11,
        jmp_op_of(insn.opcode & 0xf0) matches Some(op) && !(op is Ja || op is Call || op is Exit),
    ensures
        ({
            let op = jmp_op_of(insn.opcode & 0xf0).unwrap();
            let d = regs[insn.spec_dst_reg() as int];
            let s = if insn.spec_source_type() is Reg {
                regs[insn.spec_src_reg() as int]
            } else {
                insn.imm as i64 as u64
            };
            let x = d as u32;
            let y = s as u32;
            let taken = if is_64bit {
                match op {
                    JmpOp::Jeq => d == s,
                    JmpOp::Jne => d != s,
                    JmpOp::Jgt => d > s,
                    JmpOp::Jge => d >= s,
                    JmpOp::Jlt => d < s,
                    JmpOp::Jle => d <= s,
                    JmpOp::Jset => d & s != 0,
                    JmpOp::Jsgt => (d as i64) > (s as i64),
                    JmpOp::Jsge => (d as i64) >= (s as i64),
                    JmpOp::Jslt => (d as i64) < (s as i64),
                    _ => (d as i64) <= (s as i64),
                }
            } else {
                match op {
                    JmpOp::Jeq => x == y,
                    JmpOp::Jne => x != y,
                    JmpOp::Jgt => x > y,
                    JmpOp::Jge => x >= y,
                    JmpOp::Jlt => x < y,
                    JmpOp::Jle => x <= y,
                    JmpOp::Jset => x & y != 0,
                    JmpOp::Jsgt => (x as i32) > (y as i32),
                    JmpOp::Jsge => (x as i32) >= (y as i32),
                    JmpOp::Jslt => (x as i32) < (y as i32),
                    _ => (x as i32) <= (y as i32),
                }
            };
            jmp_effect(insn, regs, is_64bit, a) == Ok::<(InsnResult, Seq<u64>, Option<EnvRequest>), BpfError>(
                (
                    if taken {
                        InsnResult::Jump(insn.offset)
                    } else {
                        InsnResult::Continue
                    },
                    regs,
                    None,
                ),
            )
        }),
{
}

} // verus!
