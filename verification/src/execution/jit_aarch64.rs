//! JIT compilation of BPF programs to ARM64 (AArch64) machine code.
//!
//! BPF registers map to ARM64 registers as follows:
//!
//! | BPF | ARM64 | Purpose                   |
//! |-----|-------|---------------------------|
//! | R0  | X7    | Return value              |
//! | R1  | X0    | Arg 1 / context pointer   |
//! | R2  | X1    | Arg 2                     |
//! | R3  | X2    | Arg 3                     |
//! | R4  | X3    | Arg 4                     |
//! | R5  | X4    | Arg 5                     |
//! | R6  | X19   | Callee-saved              |
//! | R7  | X20   | Callee-saved              |
//! | R8  | X21   | Callee-saved              |
//! | R9  | X22   | Callee-saved              |
//! | R10 | X25   | Frame pointer (read-only) |
//!
//! X9, which no BPF register maps to, holds immediates and intermediate
//! results. The 32-bit ALU is compiled to 32-bit operations on W registers.
//!
//! Code is emitted as little-endian 32-bit words. Jumps are emitted with a
//! placeholder offset and patched once every instruction's position is
//! known.
use vstd::prelude::*;

use crate::bytecode::insn::BpfInsn;
use crate::bytecode::opcode::{mem_size_of, AluOp, JmpOp, MemSize, OpcodeClass, SourceType};
use crate::bytecode::program::BpfProgram;
use crate::execution::interpreter::{program_answered, program_result, Interpreter};
use crate::execution::{BpfContext, BpfEnvironment, BpfExecutor, BpfResult};
use crate::profile::PhysicalProfile;
use core::marker::PhantomData;

verus! {

pub const X0: u8 = 0;

pub const X1: u8 = 1;

pub const X2: u8 = 2;

pub const X3: u8 = 3;

pub const X4: u8 = 4;

pub const X7: u8 = 7;

/// The scratch register for immediates and intermediate results: no BPF
/// register maps to it.
pub const X9: u8 = 9;

pub const X19: u8 = 19;

pub const X20: u8 = 20;

pub const X21: u8 = 21;

pub const X22: u8 = 22;

pub const X25: u8 = 25;

/// Frame pointer.
pub const X29: u8 = 29;

/// Link register.
pub const X30: u8 = 30;

/// Stack pointer, when used as a base register.
pub const SP: u8 = 31;

/// BPF register number to ARM64 register number.
pub const BPF_TO_ARM64: [u8; 11] = [7, 0, 1, 2, 3, 4, 19, 20, 21, 22, 25];

/// The ARM64 register of BPF register `r`.
pub open spec fn arm_reg(r: u8) -> u8 {
    if r == 0 {
        X7
    } else if r <= 5 {
        (r - 1) as u8
    } else if r <= 9 {
        (r + 13) as u8
    } else {
        X25
    }
}

/// Every BPF register maps to an ARM64 register number below 32.
pub proof fn lemma_register_mapping(r: u8)
    requires
        r <= 10,
    ensures
        arm_reg(r) <= 31,
{
}

/// The ARM64 register of BPF register `r`.
fn map_reg(r: u8) -> (a: u8)
    requires
        r <= 10,
    ensures
        a == arm_reg(r),
{
    let a = BPF_TO_ARM64[r as usize];
    assert(BPF_TO_ARM64@ =~= seq![7u8, 0, 1, 2, 3, 4, 19, 20, 21, 22, 25]);
    a
}

// ---------------------------------------------------------------------
// Instruction encodings
// ---------------------------------------------------------------------

/// The four little-endian bytes of `w`.
pub open spec fn word_bytes(w: u32) -> Seq<u8> {
    seq![(w & 0xff) as u8, ((w >> 8u32) & 0xff) as u8, ((w >> 16u32) & 0xff) as u8, ((w >> 24u32) & 0xff) as u8]
}

/// The bytes of a sequence of words.
pub open spec fn words_bytes(ws: Seq<u32>) -> Seq<u8>
    decreases ws.len(),
{
    if ws.len() == 0 {
        Seq::empty()
    } else {
        words_bytes(ws.drop_last()) + word_bytes(ws.last())
    }
}

/// Three-register data-processing form: `base | rm << 16 | rn << 5 | rd`.
pub open spec fn enc_rrr(base: u32, rd: u8, rn: u8, rm: u8) -> u32 {
    base | ((rm as u32) << 16u32) | ((rn as u32) << 5u32) | ((rd as u32) & 0x1f)
}

/// Register-immediate form: `base | (imm & 0xfff) << 10 | rn << 5 | rd`.
pub open spec fn enc_rri(base: u32, rd: u8, rn: u8, imm: u16) -> u32 {
    base | (((imm as u32) & 0xfff) << 10u32) | ((rn as u32) << 5u32) | ((rd as u32) & 0x1f)
}

/// MOV (register): ORR Xd, XZR, Xm.
pub open spec fn enc_mov_reg(rd: u8, rm: u8) -> u32 {
    0xAA0003E0u32 | ((rm as u32) << 16u32) | ((rd as u32) & 0x1f)
}

/// MOVZ Xd, #imm, LSL #shift.
pub open spec fn enc_movz(rd: u8, imm: u16, shift: u8) -> u32 {
    0xD2800000u32 | (((shift / 16) as u32) << 21u32) | ((imm as u32) << 5u32) | ((rd as u32) & 0x1f)
}

/// MOVK Xd, #imm, LSL #shift.
pub open spec fn enc_movk(rd: u8, imm: u16, shift: u8) -> u32 {
    0xF2800000u32 | (((shift / 16) as u32) << 21u32) | ((imm as u32) << 5u32) | ((rd as u32) & 0x1f)
}

/// The opcode and scale of a load or store of `size`.
pub open spec fn size_code(size: MemSize) -> (u32, u32) {
    match size {
        MemSize::Byte => (0, 0),
        MemSize::Half => (1, 1),
        MemSize::Word => (2, 2),
        MemSize::DWord => (3, 3),
    }
}

/// A load (`base` 0x39400000/0x38400000) or store (0x39000000/0x38000000)
/// of `size` at `offset` from `rn`: the unscaled form for a negative
/// offset, the scaled unsigned form otherwise.
pub open spec fn enc_mem(unscaled: u32, scaled: u32, rt: u8, rn: u8, offset: i16, size: MemSize) -> u32 {
    let (opc, scale) = size_code(size);
    if offset < 0 {
        (opc << 30u32) | unscaled | (((offset as u32) & 0x1ff) << 12u32) | ((rn as u32) << 5u32) | ((
        rt as u32) & 0x1f)
    } else {
        (opc << 30u32) | scaled | ((((offset as u32) >> scale) & 0xfff) << 10u32) | ((rn as u32)
            << 5u32) | ((rt as u32) & 0x1f)
    }
}

/// CMP (register): SUBS XZR, Xn, Xm.
pub open spec fn enc_compare(rn: u8, rm: u8) -> u32 {
    0xEB00001Fu32 | ((rm as u32) << 16u32) | ((rn as u32) << 5u32)
}

/// B.cond with a byte offset.
pub open spec fn enc_b_cond(cond: u8, offset: i32) -> u32 {
    0x54000000u32 | ((((offset >> 2i32) as u32) & 0x7ffff) << 5u32) | (cond as u32)
}

/// B with a byte offset.
pub open spec fn enc_b(offset: i32) -> u32 {
    0x14000000u32 | (((offset >> 2i32) as u32) & 0x3ffffff)
}

/// STP (base 0xA9000000) or LDP (0xA9400000) of two registers.
pub open spec fn enc_pair(base: u32, rt1: u8, rt2: u8, rn: u8, offset: i16) -> u32 {
    base | ((((offset >> 3i16) as u32) & 0x7f) << 15u32) | ((rt2 as u32) << 10u32) | ((rn as u32)
        << 5u32) | ((rt1 as u32) & 0x1f)
}

/// The 16-bit part `i` (0 to 3) of `imm`.
pub open spec fn imm_part(imm: u64, i: int) -> u16 {
    ((imm >> ((16 * i) as u64)) & 0xffff) as u16
}

/// The MOVZ/MOVK words that load the parts of `imm` from part `i` on: a
/// MOVZ for the first non-zero part, a MOVK for each later one.
pub open spec fn mov64_words_from(rd: u8, imm: u64, i: int, first: bool) -> Seq<u32>
    decreases 4 - i,
{
    if i >= 4 {
        if first {
            seq![enc_mov_reg(rd, 31)]
        } else {
            Seq::empty()
        }
    } else {
        let p = imm_part(imm, i);
        if p != 0 {
            let w = if first {
                enc_movz(rd, p, (i * 16) as u8)
            } else {
                enc_movk(rd, p, (i * 16) as u8)
            };
            seq![w] + mov64_words_from(rd, imm, i + 1, false)
        } else {
            mov64_words_from(rd, imm, i + 1, first)
        }
    }
}

/// The words that load the 64-bit immediate `imm` into `rd`.
pub open spec fn mov64_words(rd: u8, imm: i64) -> Seq<u32> {
    if imm as u64 == 0 {
        seq![enc_mov_reg(rd, 31)]
    } else {
        mov64_words_from(rd, imm as u64, 0, true)
    }
}

/// The ARM64 code emitter.
pub struct Arm64Emitter {
    /// Emitted code bytes
    pub code: Vec<u8>,
    /// Jumps to patch: code offset of the branch, target instruction index
    pub jump_patches: Vec<(usize, usize)>,
    /// Code offset of each BPF instruction
    pub insn_offsets: Vec<usize>,
}

impl Arm64Emitter {
    /// An emitter with no code.
    pub fn new(capacity: usize) -> (r: Self)
        ensures
            r.code@.len() == 0,
            r.jump_patches@.len() == 0,
            r.insn_offsets@.len() == 0,
    {
        Arm64Emitter {
            code: Vec::with_capacity(capacity),
            jump_patches: Vec::new(),
            insn_offsets: Vec::new(),
        }
    }

    /// Emit a 32-bit instruction.
    pub fn emit(&mut self, insn: u32)
        ensures
            final(self).code@ == old(self).code@ + word_bytes(insn),
            final(self).jump_patches == old(self).jump_patches,
            final(self).insn_offsets == old(self).insn_offsets,
    {
        self.code.push((insn & 0xff) as u8);
        self.code.push(((insn >> 8u32) & 0xff) as u8);
        self.code.push(((insn >> 16u32) & 0xff) as u8);
        self.code.push(((insn >> 24u32) & 0xff) as u8);
        assert(self.code@ =~= old(self).code@ + word_bytes(insn));
    }

    /// The current code offset.
    pub fn offset(&self) -> (r: usize)
        ensures
            r == self.code@.len(),
    {
        self.code.len()
    }

    /// Record the start of a BPF instruction.
    pub fn mark_insn(&mut self)
        ensures
            final(self).insn_offsets@ == old(self).insn_offsets@.push(old(self).code@.len() as usize),
            final(self).code == old(self).code,
            final(self).jump_patches == old(self).jump_patches,
    {
        let off = self.offset();
        self.insn_offsets.push(off);
    }

    /// Record that the branch just emitted jumps to instruction `target_insn`.
    pub fn record_jump(&mut self, target_insn: usize)
        requires
            old(self).code@.len() >= 4,
        ensures
            final(self).jump_patches@ == old(self).jump_patches@.push(
                ((old(self).code@.len() - 4) as usize, target_insn),
            ),
            final(self).code == old(self).code,
            final(self).insn_offsets == old(self).insn_offsets,
    {
        let off = self.offset() - 4;
        self.jump_patches.push((off, target_insn));
    }

    /// MOV (register): Rd = Rm.
    pub fn emit_mov_reg(&mut self, rd: u8, rm: u8)
        ensures
            final(self).code@ == old(self).code@ + word_bytes(enc_mov_reg(rd, rm)),
            final(self).jump_patches == old(self).jump_patches,
            final(self).insn_offsets == old(self).insn_offsets,
    {
        self.emit(0xAA0003E0u32 | ((rm as u32) << 16u32) | ((rd as u32) & 0x1f));
    }

    /// MOVZ: Rd = imm << shift.
    pub fn emit_mov_imm(&mut self, rd: u8, imm: u16, shift: u8)
        ensures
            final(self).code@ == old(self).code@ + word_bytes(enc_movz(rd, imm, shift)),
            final(self).jump_patches == old(self).jump_patches,
            final(self).insn_offsets == old(self).insn_offsets,
    {
        let hw = (shift / 16) as u32;
        self.emit(0xD2800000u32 | (hw << 21u32) | ((imm as u32) << 5u32) | ((rd as u32) & 0x1f));
    }

    /// MOVK: replace the 16 bits of Rd at `shift` with `imm`.
    pub fn emit_movk(&mut self, rd: u8, imm: u16, shift: u8)
        ensures
            final(self).code@ == old(self).code@ + word_bytes(enc_movk(rd, imm, shift)),
            final(self).jump_patches == old(self).jump_patches,
            final(self).insn_offsets == old(self).insn_offsets,
    {
        let hw = (shift / 16) as u32;
        self.emit(0xF2800000u32 | (hw << 21u32) | ((imm as u32) << 5u32) | ((rd as u32) & 0x1f));
    }

    /// A three-register data-processing word: `base | rm << 16 | rn << 5 | rd`.
    pub fn emit_rrr(&mut self, base: u32, rd: u8, rn: u8, rm: u8)
        ensures
            final(self).code@ == old(self).code@ + word_bytes(enc_rrr(base, rd, rn, rm)),
            final(self).jump_patches == old(self).jump_patches,
            final(self).insn_offsets == old(self).insn_offsets,
    {
        self.emit(base | ((rm as u32) << 16u32) | ((rn as u32) << 5u32) | ((rd as u32) & 0x1f));
    }

    /// A register-immediate word: `base | (imm & 0xfff) << 10 | rn << 5 | rd`.
    pub fn emit_rri(&mut self, base: u32, rd: u8, rn: u8, imm: u16)
        ensures
            final(self).code@ == old(self).code@ + word_bytes(enc_rri(base, rd, rn, imm)),
            final(self).jump_patches == old(self).jump_patches,
            final(self).insn_offsets == old(self).insn_offsets,
    {
        self.emit(base | (((imm as u32) & 0xfff) << 10u32) | ((rn as u32) << 5u32) | ((rd as u32) & 0x1f));
    }

    /// ADD (register): Rd = Rn + Rm.
    pub fn emit_add_reg(&mut self, rd: u8, rn: u8, rm: u8)
        ensures
            final(self).code@ == old(self).code@ + word_bytes(enc_rrr(0x8B000000u32, rd, rn, rm)),
            final(self).jump_patches == old(self).jump_patches,
            final(self).insn_offsets == old(self).insn_offsets,
    {
        self.emit(0x8B000000u32 | ((rm as u32) << 16u32) | ((rn as u32) << 5u32) | ((rd as u32) & 0x1f));
    }
    /// ADD (immediate): Rd = Rn + imm12.
    pub fn emit_add_imm(&mut self, rd: u8, rn: u8, imm: u16)
        ensures
            final(self).code@ == old(self).code@ + word_bytes(enc_rri(0x91000000u32, rd, rn, imm)),
            final(self).jump_patches == old(self).jump_patches,
            final(self).insn_offsets == old(self).insn_offsets,
    {
        self.emit(0x91000000u32 | (((imm as u32) & 0xfff) << 10u32) | ((rn as u32) << 5u32) | ((rd as u32) & 0x1f));
    }
    /// SUB (register): Rd = Rn - Rm.
    pub fn emit_sub_reg(&mut self, rd: u8, rn: u8, rm: u8)
        ensures
            final(self).code@ == old(self).code@ + word_bytes(enc_rrr(0xCB000000u32, rd, rn, rm)),
            final(self).jump_patches == old(self).jump_patches,
            final(self).insn_offsets == old(self).insn_offsets,
    {
        self.emit(0xCB000000u32 | ((rm as u32) << 16u32) | ((rn as u32) << 5u32) | ((rd as u32) & 0x1f));
    }
    /// SUB (immediate): Rd = Rn - imm12.
    pub fn emit_sub_imm(&mut self, rd: u8, rn: u8, imm: u16)
        ensures
            final(self).code@ == old(self).code@ + word_bytes(enc_rri(0xD1000000u32, rd, rn, imm)),
            final(self).jump_patches == old(self).jump_patches,
            final(self).insn_offsets == old(self).insn_offsets,
    {
        self.emit(0xD1000000u32 | (((imm as u32) & 0xfff) << 10u32) | ((rn as u32) << 5u32) | ((rd as u32) & 0x1f));
    }
    /// MUL (MADD with the zero register): Rd = Rn * Rm.
    pub fn emit_mul(&mut self, rd: u8, rn: u8, rm: u8)
        ensures
            final(self).code@ == old(self).code@ + word_bytes(enc_rrr(0x9B007C00u32, rd, rn, rm)),
            final(self).jump_patches == old(self).jump_patches,
            final(self).insn_offsets == old(self).insn_offsets,
    {
        self.emit(0x9B007C00u32 | ((rm as u32) << 16u32) | ((rn as u32) << 5u32) | ((rd as u32) & 0x1f));
    }
    /// UDIV: Rd = Rn / Rm, unsigned.
    pub fn emit_udiv(&mut self, rd: u8, rn: u8, rm: u8)
        ensures
            final(self).code@ == old(self).code@ + word_bytes(enc_rrr(0x9AC00800u32, rd, rn, rm)),
            final(self).jump_patches == old(self).jump_patches,
            final(self).insn_offsets == old(self).insn_offsets,
    {
        self.emit(0x9AC00800u32 | ((rm as u32) << 16u32) | ((rn as u32) << 5u32) | ((rd as u32) & 0x1f));
    }
    /// SDIV: Rd = Rn / Rm, signed.
    pub fn emit_sdiv(&mut self, rd: u8, rn: u8, rm: u8)
        ensures
            final(self).code@ == old(self).code@ + word_bytes(enc_rrr(0x9AC00C00u32, rd, rn, rm)),
            final(self).jump_patches == old(self).jump_patches,
            final(self).insn_offsets == old(self).insn_offsets,
    {
        self.emit(0x9AC00C00u32 | ((rm as u32) << 16u32) | ((rn as u32) << 5u32) | ((rd as u32) & 0x1f));
    }
    /// AND (register): Rd = Rn & Rm.
    pub fn emit_and_reg(&mut self, rd: u8, rn: u8, rm: u8)
        ensures
            final(self).code@ == old(self).code@ + word_bytes(enc_rrr(0x8A000000u32, rd, rn, rm)),
            final(self).jump_patches == old(self).jump_patches,
            final(self).insn_offsets == old(self).insn_offsets,
    {
        self.emit(0x8A000000u32 | ((rm as u32) << 16u32) | ((rn as u32) << 5u32) | ((rd as u32) & 0x1f));
    }
    /// ORR (register): Rd = Rn | Rm.
    pub fn emit_orr_reg(&mut self, rd: u8, rn: u8, rm: u8)
        ensures
            final(self).code@ == old(self).code@ + word_bytes(enc_rrr(0xAA000000u32, rd, rn, rm)),
            final(self).jump_patches == old(self).jump_patches,
            final(self).insn_offsets == old(self).insn_offsets,
    {
        self.emit(0xAA000000u32 | ((rm as u32) << 16u32) | ((rn as u32) << 5u32) | ((rd as u32) & 0x1f));
    }
    /// EOR (register): Rd = Rn ^ Rm.
    pub fn emit_eor_reg(&mut self, rd: u8, rn: u8, rm: u8)
        ensures
            final(self).code@ == old(self).code@ + word_bytes(enc_rrr(0xCA000000u32, rd, rn, rm)),
            final(self).jump_patches == old(self).jump_patches,
            final(self).insn_offsets == old(self).insn_offsets,
    {
        self.emit(0xCA000000u32 | ((rm as u32) << 16u32) | ((rn as u32) << 5u32) | ((rd as u32) & 0x1f));
    }
    /// LSLV: Rd = Rn << Rm.
    pub fn emit_lsl_reg(&mut self, rd: u8, rn: u8, rm: u8)
        ensures
            final(self).code@ == old(self).code@ + word_bytes(enc_rrr(0x9AC02000u32, rd, rn, rm)),
            final(self).jump_patches == old(self).jump_patches,
            final(self).insn_offsets == old(self).insn_offsets,
    {
        self.emit(0x9AC02000u32 | ((rm as u32) << 16u32) | ((rn as u32) << 5u32) | ((rd as u32) & 0x1f));
    }
    /// LSRV: Rd = Rn >> Rm, unsigned.
    pub fn emit_lsr_reg(&mut self, rd: u8, rn: u8, rm: u8)
        ensures
            final(self).code@ == old(self).code@ + word_bytes(enc_rrr(0x9AC02400u32, rd, rn, rm)),
            final(self).jump_patches == old(self).jump_patches,
            final(self).insn_offsets == old(self).insn_offsets,
    {
        self.emit(0x9AC02400u32 | ((rm as u32) << 16u32) | ((rn as u32) << 5u32) | ((rd as u32) & 0x1f));
    }
    /// ASRV: Rd = Rn >> Rm, signed.
    pub fn emit_asr_reg(&mut self, rd: u8, rn: u8, rm: u8)
        ensures
            final(self).code@ == old(self).code@ + word_bytes(enc_rrr(0x9AC02800u32, rd, rn, rm)),
            final(self).jump_patches == old(self).jump_patches,
            final(self).insn_offsets == old(self).insn_offsets,
    {
        self.emit(0x9AC02800u32 | ((rm as u32) << 16u32) | ((rn as u32) << 5u32) | ((rd as u32) & 0x1f));
    }
    /// CMP (register): SUBS XZR, Xn, Xm.
    pub fn emit_compare_reg(&mut self, rn: u8, rm: u8)
        ensures
            final(self).code@ == old(self).code@ + word_bytes(enc_compare(rn, rm)),
            final(self).jump_patches == old(self).jump_patches,
            final(self).insn_offsets == old(self).insn_offsets,
    {
        self.emit(0xEB00001Fu32 | ((rm as u32) << 16u32) | ((rn as u32) << 5u32));
    }
    /// CMP (immediate): SUBS XZR, Xn, #imm12.
    pub fn emit_compare_imm(&mut self, rn: u8, imm: u16)
        ensures
            final(self).code@ == old(self).code@ + word_bytes((0xF100001Fu32 | (((imm as u32) & 0xfff) << 10u32) | ((rn as u32) << 5u32))),
            final(self).jump_patches == old(self).jump_patches,
            final(self).insn_offsets == old(self).insn_offsets,
    {
        self.emit(0xF100001Fu32 | (((imm as u32) & 0xfff) << 10u32) | ((rn as u32) << 5u32));
    }
    /// B.cond with a byte offset.
    pub fn emit_b_cond(&mut self, cond: u8, offset: i32)
        ensures
            final(self).code@ == old(self).code@ + word_bytes(enc_b_cond(cond, offset)),
            final(self).jump_patches == old(self).jump_patches,
            final(self).insn_offsets == old(self).insn_offsets,
    {
        self.emit(0x54000000u32 | ((((offset >> 2i32) as u32) & 0x7ffff) << 5u32) | (cond as u32));
    }
    /// B with a byte offset.
    pub fn emit_b(&mut self, offset: i32)
        ensures
            final(self).code@ == old(self).code@ + word_bytes(enc_b(offset)),
            final(self).jump_patches == old(self).jump_patches,
            final(self).insn_offsets == old(self).insn_offsets,
    {
        self.emit(0x14000000u32 | (((offset >> 2i32) as u32) & 0x3ffffff));
    }
    /// RET (to X30).
    pub fn emit_ret(&mut self)
        ensures
            final(self).code@ == old(self).code@ + word_bytes(0xD65F03C0u32),
            final(self).jump_patches == old(self).jump_patches,
            final(self).insn_offsets == old(self).insn_offsets,
    {
        self.emit(0xD65F03C0u32);
    }
    /// STP: store a pair of registers.
    pub fn emit_stp(&mut self, rt1: u8, rt2: u8, rn: u8, offset: i16)
        ensures
            final(self).code@ == old(self).code@ + word_bytes(enc_pair(0xA9000000u32, rt1, rt2, rn, offset)),
            final(self).jump_patches == old(self).jump_patches,
            final(self).insn_offsets == old(self).insn_offsets,
    {
        self.emit(0xA9000000u32 | ((((offset >> 3i16) as u32) & 0x7f) << 15u32) | ((rt2 as u32) << 10u32) | ((rn as u32) << 5u32) | ((rt1 as u32) & 0x1f));
    }
    /// LDP: load a pair of registers.
    pub fn emit_ldp(&mut self, rt1: u8, rt2: u8, rn: u8, offset: i16)
        ensures
            final(self).code@ == old(self).code@ + word_bytes(enc_pair(0xA9400000u32, rt1, rt2, rn, offset)),
            final(self).jump_patches == old(self).jump_patches,
            final(self).insn_offsets == old(self).insn_offsets,
    {
        self.emit(0xA9400000u32 | ((((offset >> 3i16) as u32) & 0x7f) << 15u32) | ((rt2 as u32) << 10u32) | ((rn as u32) << 5u32) | ((rt1 as u32) & 0x1f));
    }
    /// NEG: SUB Xd, XZR, Xm.
    pub fn emit_neg(&mut self, rd: u8, rm: u8)
        ensures
            final(self).code@ == old(self).code@ + word_bytes(enc_rrr(0xCB000000u32, rd, 31, rm)),
            final(self).jump_patches == old(self).jump_patches,
            final(self).insn_offsets == old(self).insn_offsets,
    {
        self.emit_sub_reg(rd, 31, rm);
    }

    /// LDR of `size` at `offset` from `rn`: LDUR for a negative offset,
    /// LDR with a scaled unsigned offset otherwise.
    pub fn emit_ldr(&mut self, rt: u8, rn: u8, offset: i16, size: MemSize)
        ensures
            final(self).code@ == old(self).code@ + word_bytes(
                enc_mem(0x38400000u32, 0x39400000u32, rt, rn, offset, size),
            ),
            final(self).jump_patches == old(self).jump_patches,
            final(self).insn_offsets == old(self).insn_offsets,
    {
        let (opc, scale): (u32, u32) = match size {
            MemSize::Byte => (0, 0),
            MemSize::Half => (1, 1),
            MemSize::Word => (2, 2),
            MemSize::DWord => (3, 3),
        };
        if offset < 0 {
            let imm9 = (offset as u32) & 0x1ff;
            self.emit((opc << 30u32) | 0x38400000u32 | (imm9 << 12u32) | ((rn as u32) << 5u32) | ((rt as u32) & 0x1f));
        } else {
            let imm12 = ((offset as u32) >> scale) & 0xfff;
            self.emit((opc << 30u32) | 0x39400000u32 | (imm12 << 10u32) | ((rn as u32) << 5u32) | ((rt as u32) & 0x1f));
        }
    }

    /// STR of `size` at `offset` from `rn`: STUR for a negative offset,
    /// STR with a scaled unsigned offset otherwise.
    pub fn emit_str(&mut self, rt: u8, rn: u8, offset: i16, size: MemSize)
        ensures
            final(self).code@ == old(self).code@ + word_bytes(
                enc_mem(0x38000000u32, 0x39000000u32, rt, rn, offset, size),
            ),
            final(self).jump_patches == old(self).jump_patches,
            final(self).insn_offsets == old(self).insn_offsets,
    {
        let (opc, scale): (u32, u32) = match size {
            MemSize::Byte => (0, 0),
            MemSize::Half => (1, 1),
            MemSize::Word => (2, 2),
            MemSize::DWord => (3, 3),
        };
        if offset < 0 {
            let imm9 = (offset as u32) & 0x1ff;
            self.emit((opc << 30u32) | 0x38000000u32 | (imm9 << 12u32) | ((rn as u32) << 5u32) | ((rt as u32) & 0x1f));
        } else {
            let imm12 = ((offset as u32) >> scale) & 0xfff;
            self.emit((opc << 30u32) | 0x39000000u32 | (imm12 << 10u32) | ((rn as u32) << 5u32) | ((rt as u32) & 0x1f));
        }
    }

    /// Load a 64-bit immediate: a single MOV from the zero register for
    /// zero, else a MOVZ for the first non-zero 16-bit part and a MOVK for
    /// each later non-zero part.
    pub fn emit_mov64_imm(&mut self, rd: u8, imm: i64)
        ensures
            final(self).code@ == old(self).code@ + words_bytes(mov64_words(rd, imm)),
            mov64_words(rd, imm).len() <= 4,
            final(self).jump_patches == old(self).jump_patches,
            final(self).insn_offsets == old(self).insn_offsets,
    {
        let imm = imm as u64;
        if imm == 0 {
            self.emit_mov_reg(rd, 31);
            proof {
                lemma_words_bytes_push(Seq::empty(), enc_mov_reg(rd, 31));
                assert(Seq::<u32>::empty().push(enc_mov_reg(rd, 31)) =~= seq![enc_mov_reg(rd, 31)]);
                assert(words_bytes(Seq::<u32>::empty()) =~= Seq::<u8>::empty());
                assert(old(self).code@ + words_bytes(seq![enc_mov_reg(rd, 31)]) =~= self.code@);
            }
            return;
        }
        let parts: [u16; 4] = [
            (imm & 0xFFFF) as u16,
            ((imm >> 16u64) & 0xFFFF) as u16,
            ((imm >> 32u64) & 0xFFFF) as u16,
            ((imm >> 48u64) & 0xFFFF) as u16,
        ];
        assert(imm >> 0u64 == imm) by (bit_vector);
        assert(parts@ =~= seq![imm_part(imm, 0), imm_part(imm, 1), imm_part(imm, 2), imm_part(imm, 3)]);
        proof {
            assert(words_bytes(Seq::<u32>::empty()) =~= Seq::<u8>::empty());
            assert(old(self).code@ + words_bytes(Seq::<u32>::empty()) =~= old(self).code@);
        }
        let mut first = true;
        let mut i: usize = 0;
        let ghost mut emitted: Seq<u32> = Seq::empty();
        while i < 4
            invariant
                i <= 4,
                parts@ == seq![imm_part(imm, 0), imm_part(imm, 1), imm_part(imm, 2), imm_part(imm, 3)],
                emitted + mov64_words_from(rd, imm, i as int, first) == mov64_words_from(rd, imm, 0, true),
                emitted.len() <= i,
                first ==> emitted.len() == 0,
                self.code@ == old(self).code@ + words_bytes(emitted),
                self.jump_patches == old(self).jump_patches,
                self.insn_offsets == old(self).insn_offsets,
            decreases 4 - i,
        {
            let part = parts[i];
            if part != 0 {
                let ghost w = if first {
                    enc_movz(rd, part, (i * 16) as u8)
                } else {
                    enc_movk(rd, part, (i * 16) as u8)
                };
                if first {
                    self.emit_mov_imm(rd, part, (i * 16) as u8);
                    first = false;
                } else {
                    self.emit_movk(rd, part, (i * 16) as u8);
                }
                proof {
                    let old_emitted = emitted;
                    lemma_words_bytes_push(old_emitted, w);
                    emitted = emitted.push(w);
                    assert(emitted.drop_last() =~= old_emitted);
                    assert(old_emitted + (seq![w] + mov64_words_from(rd, imm, i + 1, false))
                        =~= emitted + mov64_words_from(rd, imm, i + 1, false));
                }
            }
            i = i + 1;
        }
        if first {
            self.emit_mov_reg(rd, 31);
            proof {
                assert(emitted.len() == 0);
                lemma_words_bytes_push(emitted, enc_mov_reg(rd, 31));
                let e2 = emitted.push(enc_mov_reg(rd, 31));
                assert(e2 =~= emitted + mov64_words_from(rd, imm, 4, true));
                emitted = e2;
            }
        } else {
            assert(emitted =~= emitted + mov64_words_from(rd, imm, 4, false));
        }
        assert(emitted =~= mov64_words_from(rd, imm, 0, true));
        proof {
            lemma_mov64_len(rd, imm, 0, true);
        }
    }
}

/// The bytes of words grow by the bytes of each word appended.
pub proof fn lemma_words_bytes_push(ws: Seq<u32>, w: u32)
    ensures
        words_bytes(ws.push(w)) == words_bytes(ws) + word_bytes(w),
{
    assert(ws.push(w).drop_last() =~= ws);
}

/// At most one word per part is emitted, and a lone MOV when every part is zero.
proof fn lemma_mov64_len(rd: u8, imm: u64, i: int, first: bool)
    requires
        0 <= i <= 4,
    ensures
        mov64_words_from(rd, imm, i, first).len() <= 4 - i + (if first {
            1int
        } else {
            0int
        }),
        mov64_words_from(rd, imm, i, first).len() <= 4,
    decreases 4 - i,
{
    if i < 4 {
        lemma_mov64_len(rd, imm, i + 1, false);
        lemma_mov64_len(rd, imm, i + 1, first);
    }
}

} // verus!

verus! {

/// The bytes of two word sequences in a row.
pub proof fn lemma_words_bytes_concat(a: Seq<u32>, b: Seq<u32>)
    ensures
        words_bytes(a + b) == words_bytes(a) + words_bytes(b),
    decreases b.len(),
{
    if b.len() == 0 {
        assert(a + b =~= a);
        assert(words_bytes(b) =~= Seq::<u8>::empty());
        assert(words_bytes(a) + words_bytes(b) =~= words_bytes(a));
    } else {
        lemma_words_bytes_concat(a, b.drop_last());
        assert((a + b).drop_last() =~= a + b.drop_last());
        assert((a + b).last() == b.last());
        assert(words_bytes(a) + words_bytes(b) =~= words_bytes(a) + words_bytes(b.drop_last())
            + word_bytes(b.last()));
    }
}

/// Word `k` of a sequence occupies bytes `4k` to `4k+3` of its bytes.
pub proof fn lemma_words_bytes_index(ws: Seq<u32>)
    ensures
        words_bytes(ws).len() == 4 * ws.len(),
        forall|k: int, j: int|
            0 <= k < ws.len() && 0 <= j < 4 ==> #[trigger] words_bytes(ws)[4 * k + j] == word_bytes(
                ws[k],
            )[j],
    decreases ws.len(),
{
    if ws.len() > 0 {
        lemma_words_bytes_index(ws.drop_last());
        assert forall|k: int, j: int| 0 <= k < ws.len() && 0 <= j < 4 implies #[trigger] words_bytes(
            ws,
        )[4 * k + j] == word_bytes(ws[k])[j] by {
            if k < ws.len() - 1 {
                assert(words_bytes(ws.drop_last())[4 * k + j] == word_bytes(ws.drop_last()[k])[j]);
            }
        }
    }
}

/// Decoding the four little-endian bytes of a word gives the word back.
pub proof fn lemma_word_roundtrip(w: u32)
    ensures
        ({
            let b = word_bytes(w);
            (b[0] as u32) | ((b[1] as u32) << 8u32) | ((b[2] as u32) << 16u32) | ((b[3] as u32)
                << 24u32) == w
        }),
{
    let b0 = (w & 0xff) as u8;
    let b1 = ((w >> 8u32) & 0xff) as u8;
    let b2 = ((w >> 16u32) & 0xff) as u8;
    let b3 = ((w >> 24u32) & 0xff) as u8;
    assert((b0 as u32) | ((b1 as u32) << 8u32) | ((b2 as u32) << 16u32) | ((b3 as u32) << 24u32)
        == w) by (bit_vector)
        requires
            b0 == (w & 0xff) as u8,
            b1 == ((w >> 8u32) & 0xff) as u8,
            b2 == ((w >> 16u32) & 0xff) as u8,
            b3 == ((w >> 24u32) & 0xff) as u8,
    ;
}

// ---------------------------------------------------------------------
// What the compiler emits
// ---------------------------------------------------------------------

/// ARM64 JIT compilation errors.
#[derive(Debug, Clone, Copy, PartialEq, Eq, Structural)]
pub enum Arm64JitError {
    /// Unsupported instruction
    UnsupportedInstruction,
    /// Code too large
    CodeTooLarge,
    /// Memory allocation failed
    AllocationFailed,
}

/// The 32-bit form of a data-processing word when `is64` is false: the
/// size bit (bit 31, set in the 64-bit form) cleared, so the operation
/// works on W registers and zero-extends its result.
pub open spec fn sized(base: u32, is64: bool) -> u32 {
    if is64 {
        base
    } else {
        (base - 0x8000_0000u32) as u32
    }
}

/// The 64-bit or 32-bit form of `base`.
fn sized_base(base: u32, is64: bool) -> (r: u32)
    requires
        base >= 0x8000_0000,
    ensures
        r == sized(base, is64),
{
    if is64 {
        base
    } else {
        base - 0x8000_0000u32
    }
}

/// The register-register ALU operation `op` on `dst` and `src`, on 64 or
/// 32 bits.
pub open spec fn alu_reg_words(op: AluOp, dst: u8, src: u8, is64: bool) -> Result<Seq<u32>, Arm64JitError> {
    match op {
        AluOp::Add => Ok(seq![enc_rrr(sized(0x8B000000u32, is64), dst, dst, src)]),
        AluOp::Sub => Ok(seq![enc_rrr(sized(0xCB000000u32, is64), dst, dst, src)]),
        AluOp::Mul => Ok(seq![enc_rrr(sized(0x9B007C00u32, is64), dst, dst, src)]),
        AluOp::Div => Ok(seq![enc_rrr(sized(0x9AC00800u32, is64), dst, dst, src)]),
        AluOp::Mod => Ok(
            seq![
                enc_rrr(sized(0x9AC00800u32, is64), X9, dst, src),
                enc_rrr(sized(0x9B007C00u32, is64), X9, X9, src),
                enc_rrr(sized(0xCB000000u32, is64), dst, dst, X9),
            ],
        ),
        AluOp::And => Ok(seq![enc_rrr(sized(0x8A000000u32, is64), dst, dst, src)]),
        AluOp::Or => Ok(seq![enc_rrr(sized(0xAA000000u32, is64), dst, dst, src)]),
        AluOp::Xor => Ok(seq![enc_rrr(sized(0xCA000000u32, is64), dst, dst, src)]),
        AluOp::Lsh => Ok(seq![enc_rrr(sized(0x9AC02000u32, is64), dst, dst, src)]),
        AluOp::Rsh => Ok(seq![enc_rrr(sized(0x9AC02400u32, is64), dst, dst, src)]),
        AluOp::Arsh => Ok(seq![enc_rrr(sized(0x9AC02800u32, is64), dst, dst, src)]),
        _ => Err(Arm64JitError::UnsupportedInstruction),
    }
}

/// The code of a byte swap of `dst`: REV16 then a zero extension of the low
/// half-word for 16 bits, REV (32-bit) for 32 bits, REV (64-bit) for 64
/// bits, followed for the 32-bit ALU by a 32-bit move that keeps the low
/// word.
pub open spec fn swap_words(insn: BpfInsn, dst: u8) -> Result<Seq<u32>, Arm64JitError> {
    if insn.imm == 16 {
        Ok(seq![enc_rrr(0x5AC00400u32, dst, dst, 0), enc_rrr(0x53003C00u32, dst, dst, 0)])
    } else if insn.imm == 32 {
        Ok(seq![enc_rrr(0x5AC00800u32, dst, dst, 0)])
    } else if insn.imm == 64 {
        if insn.spec_class() is Alu32 {
            Ok(seq![enc_rrr(0xDAC00C00u32, dst, dst, 0), enc_rrr(0x2A0003E0u32, dst, 0, dst)])
        } else {
            Ok(seq![enc_rrr(0xDAC00C00u32, dst, dst, 0)])
        }
    } else {
        Err(Arm64JitError::UnsupportedInstruction)
    }
}

/// The code of an ALU instruction: 64-bit operations for the 64-bit ALU,
/// 32-bit ones for the 32-bit ALU, whose immediate move loads the
/// immediate's low word.
pub open spec fn alu_words(insn: BpfInsn) -> Result<Seq<u32>, Arm64JitError> {
    let dst = arm_reg(insn.spec_dst_reg());
    let is64 = insn.spec_class() is Alu64;
    match insn.spec_alu_op() {
        None => Err(Arm64JitError::UnsupportedInstruction),
        Some(op) => if op is End {
            swap_words(insn, dst)
        } else if insn.spec_source_type() is Imm {
            match op {
                AluOp::Add => if 0 <= insn.imm < 4096 {
                    Ok(seq![enc_rri(sized(0x91000000u32, is64), dst, dst, insn.imm as u16)])
                } else {
                    Ok(mov64_words(X9, insn.imm as i64) + seq![enc_rrr(sized(0x8B000000u32, is64), dst, dst, X9)])
                },
                AluOp::Sub => if 0 <= insn.imm < 4096 {
                    Ok(seq![enc_rri(sized(0xD1000000u32, is64), dst, dst, insn.imm as u16)])
                } else {
                    Ok(mov64_words(X9, insn.imm as i64) + seq![enc_rrr(sized(0xCB000000u32, is64), dst, dst, X9)])
                },
                AluOp::Mov => Ok(mov64_words(dst, if is64 {
                    insn.imm as i64
                } else {
                    insn.imm as u32 as i64
                })),
                AluOp::Neg => Ok(seq![enc_rrr(sized(0xCB000000u32, is64), dst, 31, dst)]),
                _ => match alu_reg_words(op, dst, X9, is64) {
                    Ok(ws) => Ok(mov64_words(X9, insn.imm as i64) + ws),
                    Err(e) => Err(e),
                },
            }
        } else {
            let src = arm_reg(insn.spec_src_reg());
            match op {
                AluOp::Mov => Ok(seq![enc_rrr(sized(0xAA0003E0u32, is64), dst, 0, src)]),
                AluOp::Neg => Ok(seq![enc_rrr(sized(0xCB000000u32, is64), dst, 31, dst)]),
                _ => alu_reg_words(op, dst, src, is64),
            }
        },
    }
}

/// The test before a conditional branch: TST (ANDS XZR, Xn, Xm) for JSET,
/// CMP for the others.
pub open spec fn test_word(op: JmpOp, rn: u8, rm: u8) -> u32 {
    if op is Jset {
        enc_rrr(0xEA000000u32, 31, rn, rm)
    } else {
        enc_compare(rn, rm)
    }
}

/// The condition code of a conditional jump (JSET branches when the test
/// is not zero); none for the operations that are no conditional jumps.
pub open spec fn cond_code(op: JmpOp) -> Option<u8> {
    match op {
        JmpOp::Jeq => Some(0u8),
        JmpOp::Jne => Some(1u8),
        JmpOp::Jset => Some(1u8),
        JmpOp::Jgt => Some(8u8),
        JmpOp::Jge => Some(2u8),
        JmpOp::Jlt => Some(3u8),
        JmpOp::Jle => Some(9u8),
        JmpOp::Jsgt => Some(12u8),
        JmpOp::Jsge => Some(10u8),
        JmpOp::Jslt => Some(11u8),
        JmpOp::Jsle => Some(13u8),
        _ => None,
    }
}

/// The epilogue, for a stack of `stack_size` bytes.
pub open spec fn epilogue_words(stack_size: usize) -> Seq<u32> {
    let alloc = ((stack_size + 15) as usize & !15usize) as u16;
    seq![
        enc_rri(0x91000000u32, SP, SP, (alloc + 64) as u16),
        enc_pair(0xA9400000u32, X25, X25, SP, -56i16),
        enc_pair(0xA9400000u32, X21, X22, SP, -48i16),
        enc_pair(0xA9400000u32, X19, X20, SP, -32i16),
        enc_pair(0xA9400000u32, X29, X30, SP, -16i16),
        0xD65F03C0u32,
    ]
}

/// The prologue, for a stack of `stack_size` bytes.
pub open spec fn prologue_words(stack_size: usize) -> Seq<u32> {
    let alloc = ((stack_size + 15) as usize & !15usize) as u16;
    seq![
        enc_pair(0xA9000000u32, X29, X30, SP, -16i16),
        enc_mov_reg(X29, SP),
        enc_pair(0xA9000000u32, X19, X20, SP, -32i16),
        enc_pair(0xA9000000u32, X21, X22, SP, -48i16),
        enc_pair(0xA9000000u32, X25, X25, SP, -56i16),
        enc_rri(0xD1000000u32, SP, SP, (alloc + 64) as u16),
        enc_mov_reg(X25, SP),
        enc_rri(0x91000000u32, X25, X25, alloc),
    ]
}

/// The instruction index a jump at `idx` with `offset` targets, as the
/// compiler computes it (wrapping).
pub open spec fn jump_target(offset: i16, idx: usize) -> usize {
    (offset as usize).wrapping_add(idx).wrapping_add(1)
}

/// The code of a jump-class instruction, and the target it records.
pub open spec fn jmp_words(insn: BpfInsn, idx: usize, stack_size: usize) -> Result<(Seq<u32>, Option<usize>), Arm64JitError> {
    if insn.spec_is_exit() {
        Ok((seq![enc_mov_reg(X0, X7)] + epilogue_words(stack_size), None))
    } else {
        match insn.spec_jmp_op() {
            None => Err(Arm64JitError::UnsupportedInstruction),
            Some(op) => if op.spec_is_unconditional() {
                Ok((seq![enc_b((insn.offset * 4) as i32)], Some(jump_target(insn.offset, idx))))
            } else {
                let dst = arm_reg(insn.spec_dst_reg());
                let compare = if insn.spec_source_type() is Imm {
                    mov64_words(X9, insn.imm as i64) + seq![test_word(op, dst, X9)]
                } else {
                    seq![test_word(op, dst, arm_reg(insn.spec_src_reg()))]
                };
                match cond_code(op) {
                    None => Err(Arm64JitError::UnsupportedInstruction),
                    Some(c) => Ok(
                        (
                            compare + seq![enc_b_cond(c, (insn.offset * 4) as i32)],
                            Some(jump_target(insn.offset, idx)),
                        ),
                    ),
                }
            },
        }
    }
}

/// The code of any instruction, and the jump target it records.
pub open spec fn insn_words(insn: BpfInsn, idx: usize, stack_size: usize) -> Result<(Seq<u32>, Option<usize>), Arm64JitError> {
    let dst = arm_reg(insn.spec_dst_reg());
    let size = mem_size_of(insn.opcode & 0x18);
    match insn.spec_class() {
        OpcodeClass::Alu64 | OpcodeClass::Alu32 => match alu_words(insn) {
            Ok(ws) => Ok((ws, None)),
            Err(e) => Err(e),
        },
        OpcodeClass::Jmp | OpcodeClass::Jmp32 => jmp_words(insn, idx, stack_size),
        OpcodeClass::Ldx => Ok(
            (
                seq![
                    enc_mem(
                        0x38400000u32,
                        0x39400000u32,
                        dst,
                        arm_reg(insn.spec_src_reg()),
                        insn.offset,
                        size,
                    ),
                ],
                None,
            ),
        ),
        OpcodeClass::Stx => Ok(
            (
                seq![
                    enc_mem(
                        0x38000000u32,
                        0x39000000u32,
                        arm_reg(insn.spec_src_reg()),
                        dst,
                        insn.offset,
                        size,
                    ),
                ],
                None,
            ),
        ),
        OpcodeClass::St => Ok(
            (
                mov64_words(X9, insn.imm as i64) + seq![
                    enc_mem(0x38000000u32, 0x39000000u32, X9, dst, insn.offset, size),
                ],
                None,
            ),
        ),
        OpcodeClass::Ld => Ok((mov64_words(dst, insn.imm as i64), None)),
    }
}

/// Compiling `insn` would index the register table out of range.
pub open spec fn jit_panics(insn: BpfInsn) -> bool {
    let dst_bad = insn.spec_dst_reg() >= 11;
    let src_bad = insn.spec_src_reg() >= 11;
    match insn.spec_class() {
        OpcodeClass::Alu64 | OpcodeClass::Alu32 => dst_bad || (insn.spec_alu_op() is Some
            && insn.spec_source_type() is Reg && src_bad),
        OpcodeClass::Jmp | OpcodeClass::Jmp32 => !insn.spec_is_exit() && insn.spec_jmp_op() is Some
            && !insn.spec_jmp_op().unwrap().spec_is_unconditional() && (dst_bad || (
        insn.spec_source_type() is Reg && src_bad)),
        OpcodeClass::Ldx => dst_bad || src_bad,
        OpcodeClass::Stx => dst_bad || src_bad,
        OpcodeClass::St | OpcodeClass::Ld => dst_bad,
    }
}

} // verus!

verus! {

/// The body after a prologue of `pro` words: the words of the first `n`
/// instructions, each instruction's byte offset, and the jumps to patch
/// (byte offset of the branch, target instruction). Stops at the first
/// instruction that cannot be compiled.
#[verifier::opaque]
pub open spec fn body(insns: Seq<BpfInsn>, n: int, pro: nat, stack_size: usize) -> Result<
    (Seq<u32>, Seq<usize>, Seq<(usize, usize)>),
    Arm64JitError,
>
    decreases n,
{
    if n <= 0 {
        Ok((Seq::empty(), Seq::empty(), Seq::empty()))
    } else {
        match body(insns, n - 1, pro, stack_size) {
            Err(e) => Err(e),
            Ok((ws, offs, patches)) => match insn_words(insns[n - 1], (n - 1) as usize, stack_size) {
                Err(e) => Err(e),
                Ok((iw, jump)) => Ok(
                    (
                        ws + iw,
                        offs.push((4 * (pro + ws.len())) as usize),
                        match jump {
                            Some(t) => patches.push(
                                ((4 * (pro + ws.len() + iw.len()) - 4) as usize, t),
                            ),
                            None => patches,
                        },
                    ),
                ),
            },
        }
    }
}

/// A branch word with its offset replaced by `delta` bytes.
pub open spec fn patched_word(w: u32, delta: i32) -> u32 {
    if w & 0xFC000000u32 == 0x14000000u32 {
        0x14000000u32 | (((delta >> 2i32) as u32) & 0x3ffffff)
    } else {
        (w & 0xFF00001Fu32) | ((((delta >> 2i32) as u32) & 0x7ffff) << 5u32)
    }
}

/// The words after applying the first `k` patches: each branch gets the
/// distance from itself to its target's first word; a target out of the
/// program is an error.
pub open spec fn patch(words: Seq<u32>, offs: Seq<usize>, patches: Seq<(usize, usize)>, k: int) -> Result<
    Seq<u32>,
    Arm64JitError,
>
    decreases k,
{
    if k <= 0 {
        Ok(words)
    } else {
        match patch(words, offs, patches, k - 1) {
            Err(e) => Err(e),
            Ok(ws) => {
                let (co, t) = patches[k - 1];
                if t >= offs.len() {
                    Err(Arm64JitError::UnsupportedInstruction)
                } else {
                    let delta = (offs[t as int] as i32) - (co as i32);
                    Ok(ws.update((co / 4) as int, patched_word(ws[(co / 4) as int], delta as i32)))
                }
            },
        }
    }
}

/// The compiled code of `insns` for a stack of `stack_size` bytes.
pub open spec fn compiled(insns: Seq<BpfInsn>, stack_size: usize) -> Result<Seq<u32>, Arm64JitError> {
    let pro = prologue_words(stack_size);
    match body(insns, insns.len() as int, pro.len(), stack_size) {
        Err(e) => Err(e),
        Ok((ws, offs, patches)) => patch(pro + ws, offs, patches, patches.len() as int),
    }
}

/// No instruction reached before the first failing one panics.
pub open spec fn compiles_safely(insns: Seq<BpfInsn>, stack_size: usize) -> bool {
    forall|i: int|
        0 <= i < insns.len() && (forall|j: int|
            0 <= j < i ==> #[trigger] insn_words(insns[j], j as usize, stack_size) is Ok) ==> !jit_panics(
            #[trigger] insns[i],
        )
}

} // verus!

verus! {

/// One word's bytes.
pub proof fn lemma_one_word(w: u32)
    ensures
        words_bytes(seq![w]) == word_bytes(w),
{
    lemma_words_bytes_push(Seq::empty(), w);
    assert(Seq::<u32>::empty().push(w) =~= seq![w]);
    assert(words_bytes(Seq::<u32>::empty()) =~= Seq::<u8>::empty());
    assert(Seq::<u8>::empty() + word_bytes(w) =~= word_bytes(w));
}

/// Appending a word's bytes to code that holds `ws` after `c0`.
proof fn lemma_emit_step(c0: Seq<u8>, ws: Seq<u32>, w: u32)
    ensures
        c0 + words_bytes(ws) + word_bytes(w) == c0 + words_bytes(ws.push(w)),
{
    lemma_words_bytes_push(ws, w);
    assert(c0 + words_bytes(ws) + word_bytes(w) =~= c0 + (words_bytes(ws) + word_bytes(w)));
}

/// Appending the bytes of `b` to code that holds `a` after `c0`.
proof fn lemma_emit_words(c0: Seq<u8>, a: Seq<u32>, b: Seq<u32>)
    ensures
        c0 + words_bytes(a) + words_bytes(b) == c0 + words_bytes(a + b),
{
    lemma_words_bytes_concat(a, b);
    assert(c0 + words_bytes(a) + words_bytes(b) =~= c0 + (words_bytes(a) + words_bytes(b)));
}

/// No instruction's code is longer than eight words.
proof fn lemma_insn_words_len(insn: BpfInsn, idx: usize, stack_size: usize)
    ensures
        insn_words(insn, idx, stack_size) matches Ok((ws, jump)) ==> ws.len() <= 8 && (jump is Some ==> ws.len()
            >= 1),
{
    lemma_mov64_len(X9, insn.imm as i64 as u64, 0, true);
    lemma_mov64_len(arm_reg(insn.spec_dst_reg()), insn.imm as i64 as u64, 0, true);
    lemma_mov64_len(arm_reg(insn.spec_dst_reg()), insn.imm as u32 as i64 as u64, 0, true);
}

/// What holds of a compiled body: its size, its offsets and its patches.
proof fn lemma_body(insns: Seq<BpfInsn>, n: int, pro: nat, stack_size: usize)
    requires
        0 <= n <= insns.len() <= 0x100_0000,
        pro <= 8,
    ensures
        body(insns, n, pro, stack_size) matches Ok((ws, offs, patches)) ==> {
            &&& ws.len() <= 8 * n
            &&& offs.len() == n
            &&& forall|k: int| 0 <= k < n ==> #[trigger] insn_words(insns[k], k as usize, stack_size) is Ok
            &&& forall|k: int| 0 <= k < n ==> #[trigger] offs[k] <= 4 * (pro + ws.len())
            &&& forall|k: int|
                0 <= k < patches.len() ==> (#[trigger] patches[k]).0 % 4 == 0 && patches[k].0 / 4
                    < pro + ws.len() && patches[k].0 < 4 * (pro + ws.len())
        },
        body(insns, n, pro, stack_size) is Err ==> exists|k: int|
            0 <= k < n && #[trigger] insn_words(insns[k], k as usize, stack_size) is Err,
    decreases n,
{
    reveal(body);
    if n > 0 {
        lemma_body(insns, n - 1, pro, stack_size);
        lemma_insn_words_len(insns[n - 1], (n - 1) as usize, stack_size);
        match body(insns, n - 1, pro, stack_size) {
            Ok((ws, offs, patches)) => {
                match insn_words(insns[n - 1], (n - 1) as usize, stack_size) {
                    Ok((iw, jump)) => {
                        let nws = ws + iw;
                        let noffs = offs.push((4 * (pro + ws.len())) as usize);
                        let np = match jump {
                            Some(t) => patches.push(
                                ((4 * (pro + ws.len() + iw.len()) - 4) as usize, t),
                            ),
                            None => patches,
                        };
                        assert(body(insns, n, pro, stack_size) == Ok::<
                            (Seq<u32>, Seq<usize>, Seq<(usize, usize)>),
                            Arm64JitError,
                        >((nws, noffs, np)));
                        assert forall|k: int| 0 <= k < n implies #[trigger] insn_words(
                            insns[k],
                            k as usize, stack_size,
                        ) is Ok by {
                            if k < n - 1 {
                                assert(insn_words(insns[k], k as usize, stack_size) is Ok);
                            }
                        }
                        assert forall|k: int| 0 <= k < n implies #[trigger] noffs[k] <= 4 * (pro
                            + nws.len()) by {
                            if k < n - 1 {
                                assert(offs[k] <= 4 * (pro + ws.len()));
                            }
                        }
                        assert forall|k: int| 0 <= k < np.len() implies (#[trigger] np[k]).0 % 4
                            == 0 && np[k].0 / 4 < pro + nws.len() && np[k].0 < 4 * (pro
                            + nws.len()) by {
                            if k < patches.len() {
                                assert(np[k] == patches[k]);
                            } else {
                                let x = pro + ws.len() + iw.len();
                                assert((4 * x - 4) % 4 == 0);
                                assert((4 * x - 4) / 4 == x - 1);
                            }
                        }
                    },
                    Err(e) => {},
                }
            },
            Err(e) => {
                let k = choose|k: int|
                    0 <= k < n - 1 && #[trigger] insn_words(insns[k], k as usize, stack_size) is Err;
                assert(insn_words(insns[k], k as usize, stack_size) is Err);
            },
        }
    }
}

/// Once a body fails, every longer one fails the same way.
proof fn lemma_body_err(insns: Seq<BpfInsn>, n: int, m: int, pro: nat, stack_size: usize)
    requires
        0 <= n <= m,
        body(insns, n, pro, stack_size) is Err,
    ensures
        body(insns, m, pro, stack_size) == body(insns, n, pro, stack_size),
    decreases m - n,
{
    reveal(body);
    if m > n {
        lemma_body_err(insns, n, m - 1, pro, stack_size);
    }
}

/// Once patching fails, patching more fails the same way.
proof fn lemma_patch_err(words: Seq<u32>, offs: Seq<usize>, patches: Seq<(usize, usize)>, k: int, m: int)
    requires
        0 <= k <= m,
        patch(words, offs, patches, k) is Err,
    ensures
        patch(words, offs, patches, m) == patch(words, offs, patches, k),
    decreases m - k,
{
    if m > k {
        lemma_patch_err(words, offs, patches, k, m - 1);
    }
}

/// Patching keeps the number of words.
proof fn lemma_patch_len(words: Seq<u32>, offs: Seq<usize>, patches: Seq<(usize, usize)>, k: int)
    requires
        0 <= k <= patches.len(),
        forall|i: int| 0 <= i < patches.len() ==> (#[trigger] patches[i]).0 / 4 < words.len(),
    ensures
        patch(words, offs, patches, k) matches Ok(ws) ==> ws.len() == words.len(),
    decreases k,
{
    if k > 0 {
        lemma_patch_len(words, offs, patches, k - 1);
        match patch(words, offs, patches, k - 1) {
            Ok(ws) => {
                let (co, t) = patches[k - 1];
                if t < offs.len() {
                    let delta = (offs[t as int] as i32) - (co as i32);
                    assert(ws.update((co / 4) as int, patched_word(ws[(co / 4) as int], delta as i32)).len()
                        == ws.len());
                }
            },
            Err(e) => {},
        }
    }
}

/// A program compiled to ARM64 machine code.
pub struct Arm64JitProgram {
    code: Vec<u8>,
    entry: usize,
}

impl Arm64JitProgram {
    /// The machine code.
    pub closed spec fn code(&self) -> Seq<u8> {
        self.code@
    }

    /// The machine code.
    pub fn code_bytes(&self) -> (r: &[u8])
        ensures
            r@ == self.code(),
    {
        self.code.as_slice()
    }
}

/// The ARM64 JIT compiler.
pub struct Arm64JitCompiler<P: PhysicalProfile> {
    _profile: PhantomData<P>,
}

} // verus!

verus! {

impl<P: PhysicalProfile> Arm64JitCompiler<P> {
    /// Create a compiler.
    pub fn new() -> (r: Self) {
        Arm64JitCompiler { _profile: PhantomData }
    }

    /// Emit the prologue: save the frame pointer, link register and
    /// callee-saved registers, allocate the 16-byte aligned stack, and
    /// point X25 (BPF R10) at its top.
    fn emit_prologue(&self, emitter: &mut Arm64Emitter, stack_size: usize)
        requires
            stack_size <= 0x1000_0000,
            (((stack_size + 15) as usize & !15usize) as u16) + 64 <= 0xffff,
        ensures
            final(emitter).code@ == old(emitter).code@ + words_bytes(prologue_words(stack_size)),
            final(emitter).jump_patches == old(emitter).jump_patches,
            final(emitter).insn_offsets == old(emitter).insn_offsets,
    {
        let ghost c0 = emitter.code@;
        let ghost mut ws: Seq<u32> = Seq::empty();
        assert(c0 + words_bytes(ws) =~= c0);
        emitter.emit_stp(X29, X30, SP, -16i16);
        proof {
            lemma_emit_step(c0, ws, enc_pair(0xA9000000u32, X29, X30, SP, -16i16));
            ws = ws.push(enc_pair(0xA9000000u32, X29, X30, SP, -16i16));
        }
        emitter.emit_mov_reg(X29, SP);
        proof {
            lemma_emit_step(c0, ws, enc_mov_reg(X29, SP));
            ws = ws.push(enc_mov_reg(X29, SP));
        }
        emitter.emit_stp(X19, X20, SP, -32i16);
        proof {
            lemma_emit_step(c0, ws, enc_pair(0xA9000000u32, X19, X20, SP, -32i16));
            ws = ws.push(enc_pair(0xA9000000u32, X19, X20, SP, -32i16));
        }
        emitter.emit_stp(X21, X22, SP, -48i16);
        proof {
            lemma_emit_step(c0, ws, enc_pair(0xA9000000u32, X21, X22, SP, -48i16));
            ws = ws.push(enc_pair(0xA9000000u32, X21, X22, SP, -48i16));
        }
        emitter.emit_stp(X25, X25, SP, -56i16);
        proof {
            lemma_emit_step(c0, ws, enc_pair(0xA9000000u32, X25, X25, SP, -56i16));
            ws = ws.push(enc_pair(0xA9000000u32, X25, X25, SP, -56i16));
        }
        let stack_alloc = ((stack_size + 15) & !15usize) as u16;
        emitter.emit_sub_imm(SP, SP, stack_alloc + 64);
        proof {
            lemma_emit_step(c0, ws, enc_rri(0xD1000000u32, SP, SP, (stack_alloc + 64) as u16));
            ws = ws.push(enc_rri(0xD1000000u32, SP, SP, (stack_alloc + 64) as u16));
        }
        emitter.emit_mov_reg(X25, SP);
        proof {
            lemma_emit_step(c0, ws, enc_mov_reg(X25, SP));
            ws = ws.push(enc_mov_reg(X25, SP));
        }
        emitter.emit_add_imm(X25, X25, stack_alloc);
        proof {
            lemma_emit_step(c0, ws, enc_rri(0x91000000u32, X25, X25, stack_alloc));
            ws = ws.push(enc_rri(0x91000000u32, X25, X25, stack_alloc));
            assert(ws =~= prologue_words(stack_size));
        }
    }

    /// Emit the epilogue: free the stack, restore the saved registers and
    /// return.
    fn emit_epilogue(&self, emitter: &mut Arm64Emitter, stack_size: usize)
        requires
            stack_size <= 0x1000_0000,
            (((stack_size + 15) as usize & !15usize) as u16) + 64 <= 0xffff,
        ensures
            final(emitter).code@ == old(emitter).code@ + words_bytes(epilogue_words(stack_size)),
            final(emitter).jump_patches == old(emitter).jump_patches,
            final(emitter).insn_offsets == old(emitter).insn_offsets,
    {
        let ghost c0 = emitter.code@;
        let ghost mut ws: Seq<u32> = Seq::empty();
        assert(c0 + words_bytes(ws) =~= c0);
        let stack_alloc = ((stack_size + 15) & !15usize) as u16;
        emitter.emit_add_imm(SP, SP, stack_alloc + 64);
        proof {
            lemma_emit_step(c0, ws, enc_rri(0x91000000u32, SP, SP, (stack_alloc + 64) as u16));
            ws = ws.push(enc_rri(0x91000000u32, SP, SP, (stack_alloc + 64) as u16));
        }
        emitter.emit_ldp(X25, X25, SP, -56i16);
        proof {
            lemma_emit_step(c0, ws, enc_pair(0xA9400000u32, X25, X25, SP, -56i16));
            ws = ws.push(enc_pair(0xA9400000u32, X25, X25, SP, -56i16));
        }
        emitter.emit_ldp(X21, X22, SP, -48i16);
        proof {
            lemma_emit_step(c0, ws, enc_pair(0xA9400000u32, X21, X22, SP, -48i16));
            ws = ws.push(enc_pair(0xA9400000u32, X21, X22, SP, -48i16));
        }
        emitter.emit_ldp(X19, X20, SP, -32i16);
        proof {
            lemma_emit_step(c0, ws, enc_pair(0xA9400000u32, X19, X20, SP, -32i16));
            ws = ws.push(enc_pair(0xA9400000u32, X19, X20, SP, -32i16));
        }
        emitter.emit_ldp(X29, X30, SP, -16i16);
        proof {
            lemma_emit_step(c0, ws, enc_pair(0xA9400000u32, X29, X30, SP, -16i16));
            ws = ws.push(enc_pair(0xA9400000u32, X29, X30, SP, -16i16));
        }
        emitter.emit_ret();
        proof {
            lemma_emit_step(c0, ws, 0xD65F03C0u32);
            ws = ws.push(0xD65F03C0u32);
            assert(ws =~= epilogue_words(stack_size));
        }
    }

    /// Emit the register-register ALU operation `op`, on 64 or 32 bits.
    fn emit_alu_reg(&self, emitter: &mut Arm64Emitter, op: AluOp, dst: u8, src: u8, is64: bool) -> (r: Result<
        (),
        Arm64JitError,
    >)
        ensures
            match alu_reg_words(op, dst, src, is64) {
                Ok(ws) => r is Ok && final(emitter).code@ == old(emitter).code@ + words_bytes(ws),
                Err(e) => r == Err::<(), Arm64JitError>(e) && final(emitter).code@ == old(
                    emitter,
                ).code@,
            },
            final(emitter).jump_patches == old(emitter).jump_patches,
            final(emitter).insn_offsets == old(emitter).insn_offsets,
    {
        let ghost c0 = emitter.code@;
        match op {
            AluOp::Add => emitter.emit_rrr(sized_base(0x8B000000u32, is64), dst, dst, src),
            AluOp::Sub => emitter.emit_rrr(sized_base(0xCB000000u32, is64), dst, dst, src),
            AluOp::Mul => emitter.emit_rrr(sized_base(0x9B007C00u32, is64), dst, dst, src),
            AluOp::Div => emitter.emit_rrr(sized_base(0x9AC00800u32, is64), dst, dst, src),
            AluOp::Mod => {
                emitter.emit_rrr(sized_base(0x9AC00800u32, is64), X9, dst, src);
                emitter.emit_rrr(sized_base(0x9B007C00u32, is64), X9, X9, src);
                emitter.emit_rrr(sized_base(0xCB000000u32, is64), dst, dst, X9);
                proof {
                    let w0 = enc_rrr(sized(0x9AC00800u32, is64), X9, dst, src);
                    let w1 = enc_rrr(sized(0x9B007C00u32, is64), X9, X9, src);
                    let w2 = enc_rrr(sized(0xCB000000u32, is64), dst, dst, X9);
                    assert(c0 + words_bytes(Seq::<u32>::empty()) =~= c0);
                    lemma_emit_step(c0, Seq::empty(), w0);
                    lemma_emit_step(c0, seq![w0], w1);
                    lemma_emit_step(c0, seq![w0, w1], w2);
                    assert(Seq::<u32>::empty().push(w0) =~= seq![w0]);
                    assert(seq![w0].push(w1) =~= seq![w0, w1]);
                    assert(seq![w0, w1].push(w2) =~= seq![w0, w1, w2]);
                }
            },
            AluOp::And => emitter.emit_rrr(sized_base(0x8A000000u32, is64), dst, dst, src),
            AluOp::Or => emitter.emit_rrr(sized_base(0xAA000000u32, is64), dst, dst, src),
            AluOp::Xor => emitter.emit_rrr(sized_base(0xCA000000u32, is64), dst, dst, src),
            AluOp::Lsh => emitter.emit_rrr(sized_base(0x9AC02000u32, is64), dst, dst, src),
            AluOp::Rsh => emitter.emit_rrr(sized_base(0x9AC02400u32, is64), dst, dst, src),
            AluOp::Arsh => emitter.emit_rrr(sized_base(0x9AC02800u32, is64), dst, dst, src),
            _ => return Err(Arm64JitError::UnsupportedInstruction),
        }
        proof {
            match alu_reg_words(op, dst, src, is64) {
                Ok(ws) => {
                    if ws.len() == 1 {
                        lemma_one_word(ws[0]);
                        assert(ws =~= seq![ws[0]]);
                    }
                },
                Err(_) => {},
            }
        }
        Ok(())
    }
}

} // verus!

verus! {

impl<P: PhysicalProfile> Arm64JitCompiler<P> {
    /// Emit the byte swap of `dst` that `insn` asks for.
    fn emit_swap(&self, emitter: &mut Arm64Emitter, insn: &BpfInsn, dst: u8) -> (r: Result<(), Arm64JitError>)
        ensures
            match swap_words(*insn, dst) {
                Ok(ws) => r is Ok && final(emitter).code@ == old(emitter).code@ + words_bytes(ws),
                Err(e) => r == Err::<(), Arm64JitError>(e),
            },
            final(emitter).jump_patches == old(emitter).jump_patches,
            final(emitter).insn_offsets == old(emitter).insn_offsets,
    {
        let ghost c0 = emitter.code@;
        if insn.imm == 16 {
            emitter.emit_rrr(0x5AC00400u32, dst, dst, 0);
            emitter.emit_rrr(0x53003C00u32, dst, dst, 0);
            proof {
                let w0 = enc_rrr(0x5AC00400u32, dst, dst, 0);
                let w1 = enc_rrr(0x53003C00u32, dst, dst, 0);
                lemma_one_word(w0);
                lemma_emit_words(c0, seq![w0], seq![w1]);
                lemma_one_word(w1);
                assert(seq![w0] + seq![w1] =~= seq![w0, w1]);
            }
            Ok(())
        } else if insn.imm == 32 {
            emitter.emit_rrr(0x5AC00800u32, dst, dst, 0);
            proof {
                lemma_one_word(enc_rrr(0x5AC00800u32, dst, dst, 0));
            }
            Ok(())
        } else if insn.imm == 64 {
            emitter.emit_rrr(0xDAC00C00u32, dst, dst, 0);
            let w0 = Ghost(enc_rrr(0xDAC00C00u32, dst, dst, 0));
            proof {
                lemma_one_word(w0@);
            }
            if matches!(insn.class(), Some(OpcodeClass::Alu32)) {
                emitter.emit_rrr(0x2A0003E0u32, dst, 0, dst);
                proof {
                    let w1 = enc_rrr(0x2A0003E0u32, dst, 0, dst);
                    lemma_emit_words(c0, seq![w0@], seq![w1]);
                    lemma_one_word(w1);
                    assert(seq![w0@] + seq![w1] =~= seq![w0@, w1]);
                }
            }
            Ok(())
        } else {
            Err(Arm64JitError::UnsupportedInstruction)
        }
    }

    /// Compile an ALU instruction: an immediate goes through X9 unless a
    /// 12-bit ADD or SUB immediate takes it.
    fn compile_alu(&self, emitter: &mut Arm64Emitter, insn: &BpfInsn) -> (r: Result<(), Arm64JitError>)
        requires
            insn.spec_dst_reg() <= 10,
            insn.spec_alu_op() is Some && insn.spec_source_type() is Reg ==> insn.spec_src_reg()
                <= 10,
        ensures
            match alu_words(*insn) {
                Ok(ws) => r is Ok && final(emitter).code@ == old(emitter).code@ + words_bytes(ws),
                Err(e) => r == Err::<(), Arm64JitError>(e),
            },
            final(emitter).jump_patches == old(emitter).jump_patches,
            final(emitter).insn_offsets == old(emitter).insn_offsets,
    {
        let ghost c0 = emitter.code@;
        let dst = map_reg(insn.dst_reg());
        let alu_op = match insn.alu_op() {
            Some(op) => op,
            None => return Err(Arm64JitError::UnsupportedInstruction),
        };
        if alu_op == AluOp::End {
            return self.emit_swap(emitter, insn, dst);
        }
        let is64 = matches!(insn.class(), Some(OpcodeClass::Alu64));
        match insn.source_type() {
            SourceType::Imm => {
                match alu_op {
                    AluOp::Add | AluOp::Sub => {
                        if insn.imm >= 0 && insn.imm < 4096 {
                            let base = if alu_op == AluOp::Add {
                                sized_base(0x91000000u32, is64)
                            } else {
                                sized_base(0xD1000000u32, is64)
                            };
                            emitter.emit_rri(base, dst, dst, insn.imm as u16);
                            proof {
                                lemma_one_word(enc_rri(base, dst, dst, insn.imm as u16));
                            }
                        } else {
                            let base = if alu_op == AluOp::Add {
                                sized_base(0x8B000000u32, is64)
                            } else {
                                sized_base(0xCB000000u32, is64)
                            };
                            emitter.emit_mov64_imm(X9, insn.imm as i64);
                            emitter.emit_rrr(base, dst, dst, X9);
                            proof {
                                let m = mov64_words(X9, insn.imm as i64);
                                let w = enc_rrr(base, dst, dst, X9);
                                lemma_emit_step(c0, m, w);
                                assert(m.push(w) =~= m + seq![w]);
                            }
                        }
                    },
                    AluOp::Mov => {
                        if is64 {
                            emitter.emit_mov64_imm(dst, insn.imm as i64);
                        } else {
                            emitter.emit_mov64_imm(dst, insn.imm as u32 as i64);
                        }
                    },
                    AluOp::Mul | AluOp::Div | AluOp::Mod | AluOp::And | AluOp::Or | AluOp::Xor
                    | AluOp::Lsh | AluOp::Rsh | AluOp::Arsh => {
                        emitter.emit_mov64_imm(X9, insn.imm as i64);
                        let r = self.emit_alu_reg(emitter, alu_op, dst, X9, is64);
                        proof {
                            match alu_reg_words(alu_op, dst, X9, is64) {
                                Ok(ws) => {
                                    lemma_emit_words(c0, mov64_words(X9, insn.imm as i64), ws);
                                },
                                Err(_) => {},
                            }
                        }
                        match r {
                            Ok(()) => {},
                            Err(e) => return Err(e),
                        }
                    },
                    AluOp::Neg => {
                        let base = sized_base(0xCB000000u32, is64);
                        emitter.emit_rrr(base, dst, 31, dst);
                        proof {
                            lemma_one_word(enc_rrr(base, dst, 31, dst));
                        }
                    },
                    AluOp::End => {},
                }
            },
            SourceType::Reg => {
                let src = map_reg(insn.src_reg());
                match alu_op {
                    AluOp::Mov => {
                        let base = sized_base(0xAA0003E0u32, is64);
                        emitter.emit_rrr(base, dst, 0, src);
                        proof {
                            lemma_one_word(enc_rrr(base, dst, 0, src));
                        }
                    },
                    AluOp::Neg => {
                        let base = sized_base(0xCB000000u32, is64);
                        emitter.emit_rrr(base, dst, 31, dst);
                        proof {
                            lemma_one_word(enc_rrr(base, dst, 31, dst));
                        }
                    },
                    _ => {
                        match self.emit_alu_reg(emitter, alu_op, dst, src, is64) {
                            Ok(()) => {},
                            Err(e) => return Err(e),
                        }
                    },
                }
            },
        }
        Ok(())
    }

    /// Compile a jump-class instruction: exit moves R0 to X0 and returns;
    /// a jump emits a placeholder branch (after a compare for a
    /// conditional one) and records its target for patching.
    fn compile_jmp(&self, emitter: &mut Arm64Emitter, insn: &BpfInsn, idx: usize, stack_size: usize) -> (r: Result<
        (),
        Arm64JitError,
    >)
        requires
            stack_size <= 0x1000_0000,
            (((stack_size + 15) as usize & !15usize) as u16) + 64 <= 0xffff,
            !insn.spec_is_exit() && insn.spec_jmp_op() is Some
                && !insn.spec_jmp_op().unwrap().spec_is_unconditional() ==> insn.spec_dst_reg()
                <= 10 && (insn.spec_source_type() is Reg ==> insn.spec_src_reg() <= 10),
        ensures
            match jmp_words(*insn, idx, stack_size) {
                Ok((ws, jump)) => r is Ok && final(emitter).code@ == old(emitter).code@
                    + words_bytes(ws) && final(emitter).jump_patches@ == match jump {
                    Some(t) => old(emitter).jump_patches@.push(
                        ((old(emitter).code@.len() + 4 * ws.len() - 4) as usize, t),
                    ),
                    None => old(emitter).jump_patches@,
                },
                Err(e) => r == Err::<(), Arm64JitError>(e),
            },
            final(emitter).insn_offsets == old(emitter).insn_offsets,
    {
        let ghost c0 = emitter.code@;
        if insn.is_exit() {
            emitter.emit_mov_reg(X0, X7);
            self.emit_epilogue(emitter, stack_size);
            proof {
                lemma_one_word(enc_mov_reg(X0, X7));
                lemma_emit_words(c0, seq![enc_mov_reg(X0, X7)], epilogue_words(stack_size));
            }
            return Ok(());
        }
        let jmp_op = match insn.jmp_op() {
            Some(op) => op,
            None => return Err(Arm64JitError::UnsupportedInstruction),
        };
        let target = insn.offset;
        if jmp_op.is_unconditional() {
            emitter.emit_b(target as i32 * 4);
            emitter.record_jump((insn.offset as usize).wrapping_add(idx).wrapping_add(1));
            proof {
                lemma_one_word(enc_b((insn.offset * 4) as i32));
            }
        } else {
            let dst = map_reg(insn.dst_reg());
            match insn.source_type() {
                SourceType::Imm => {
                    emitter.emit_mov64_imm(X9, insn.imm as i64);
                    if jmp_op == JmpOp::Jset {
                        emitter.emit_rrr(0xEA000000u32, 31, dst, X9);
                    } else {
                        emitter.emit_compare_reg(dst, X9);
                    }
                    proof {
                        lemma_emit_step(c0, mov64_words(X9, insn.imm as i64), test_word(jmp_op, dst, X9));
                        assert(mov64_words(X9, insn.imm as i64).push(test_word(jmp_op, dst, X9))
                            =~= mov64_words(X9, insn.imm as i64) + seq![test_word(jmp_op, dst, X9)]);
                    }
                },
                SourceType::Reg => {
                    let src = map_reg(insn.src_reg());
                    if jmp_op == JmpOp::Jset {
                        emitter.emit_rrr(0xEA000000u32, 31, dst, src);
                    } else {
                        emitter.emit_compare_reg(dst, src);
                    }
                    proof {
                        lemma_one_word(test_word(jmp_op, dst, src));
                    }
                },
            }
            let ghost compare = if insn.spec_source_type() is Imm {
                mov64_words(X9, insn.imm as i64) + seq![test_word(jmp_op, dst, X9)]
            } else {
                seq![test_word(jmp_op, dst, arm_reg(insn.spec_src_reg()))]
            };
            let cond: u8 = match jmp_op {
                JmpOp::Jeq => 0,
                JmpOp::Jne => 1,
                JmpOp::Jgt => 8,
                JmpOp::Jge => 2,
                JmpOp::Jlt => 3,
                JmpOp::Jle => 9,
                JmpOp::Jsgt => 12,
                JmpOp::Jsge => 10,
                JmpOp::Jslt => 11,
                JmpOp::Jsle => 13,
                JmpOp::Jset => 1,
                _ => return Err(Arm64JitError::UnsupportedInstruction),
            };
            emitter.emit_b_cond(cond, target as i32 * 4);
            proof {
                lemma_emit_step(c0, compare, enc_b_cond(cond, (insn.offset * 4) as i32));
                assert(compare.push(enc_b_cond(cond, (insn.offset * 4) as i32)) =~= compare + seq![
                    enc_b_cond(cond, (insn.offset * 4) as i32),
                ]);
                lemma_words_bytes_index(compare + seq![enc_b_cond(cond, (insn.offset * 4) as i32)]);
            }
            emitter.record_jump((insn.offset as usize).wrapping_add(idx).wrapping_add(1));
        }
        Ok(())
    }

    /// Compile a load.
    fn compile_ldx(&self, emitter: &mut Arm64Emitter, insn: &BpfInsn) -> (r: Result<(), Arm64JitError>)
        requires
            insn.spec_dst_reg() <= 10,
            insn.spec_src_reg() <= 10,
        ensures
            r is Ok,
            final(emitter).code@ == old(emitter).code@ + word_bytes(
                enc_mem(
                    0x38400000u32,
                    0x39400000u32,
                    arm_reg(insn.spec_dst_reg()),
                    arm_reg(insn.spec_src_reg()),
                    insn.offset,
                    mem_size_of(insn.opcode & 0x18),
                ),
            ),
            final(emitter).jump_patches == old(emitter).jump_patches,
            final(emitter).insn_offsets == old(emitter).insn_offsets,
    {
        let dst = map_reg(insn.dst_reg());
        let src = map_reg(insn.src_reg());
        let size = match insn.mem_size() {
            Some(s) => s,
            None => return Err(Arm64JitError::UnsupportedInstruction),
        };
        emitter.emit_ldr(dst, src, insn.offset, size);
        Ok(())
    }

    /// Compile a store; an immediate goes through X9.
    fn compile_st(&self, emitter: &mut Arm64Emitter, insn: &BpfInsn) -> (r: Result<(), Arm64JitError>)
        requires
            insn.spec_class() is St || insn.spec_class() is Stx,
            insn.spec_dst_reg() <= 10,
            insn.spec_class() is Stx ==> insn.spec_src_reg() <= 10,
        ensures
            r is Ok,
            insn_words(*insn, 0, 0) matches Ok((ws, _)) && final(emitter).code@ == old(emitter).code@
                + words_bytes(ws),
            final(emitter).jump_patches == old(emitter).jump_patches,
            final(emitter).insn_offsets == old(emitter).insn_offsets,
    {
        let ghost c0 = emitter.code@;
        let dst = map_reg(insn.dst_reg());
        let size = match insn.mem_size() {
            Some(s) => s,
            None => return Err(Arm64JitError::UnsupportedInstruction),
        };
        match insn.class() {
            Some(OpcodeClass::Stx) => {
                let src = map_reg(insn.src_reg());
                emitter.emit_str(src, dst, insn.offset, size);
                proof {
                    lemma_one_word(enc_mem(0x38000000u32, 0x39000000u32, src, dst, insn.offset, size));
                }
            },
            Some(OpcodeClass::St) => {
                emitter.emit_mov64_imm(X9, insn.imm as i64);
                emitter.emit_str(X9, dst, insn.offset, size);
                proof {
                    let m = mov64_words(X9, insn.imm as i64);
                    let w = enc_mem(0x38000000u32, 0x39000000u32, X9, dst, insn.offset, size);
                    lemma_emit_step(c0, m, w);
                    assert(m.push(w) =~= m + seq![w]);
                }
            },
            _ => return Err(Arm64JitError::UnsupportedInstruction),
        }
        Ok(())
    }

    /// Compile the 64-bit immediate load: only the low 32 bits, sign-extended, are loaded.
    fn compile_ld(&self, emitter: &mut Arm64Emitter, insn: &BpfInsn) -> (r: Result<(), Arm64JitError>)
        requires
            insn.spec_dst_reg() <= 10,
        ensures
            r is Ok,
            final(emitter).code@ == old(emitter).code@ + words_bytes(
                mov64_words(arm_reg(insn.spec_dst_reg()), insn.imm as i64),
            ),
            final(emitter).jump_patches == old(emitter).jump_patches,
            final(emitter).insn_offsets == old(emitter).insn_offsets,
    {
        let dst = map_reg(insn.dst_reg());
        emitter.emit_mov64_imm(dst, insn.imm as i64);
        Ok(())
    }

    /// Compile one instruction.
    fn compile_insn(&self, emitter: &mut Arm64Emitter, insn: &BpfInsn, idx: usize, stack_size: usize) -> (r: Result<
        (),
        Arm64JitError,
    >)
        requires
            !jit_panics(*insn),
            stack_size <= 0x1000_0000,
            (((stack_size + 15) as usize & !15usize) as u16) + 64 <= 0xffff,
        ensures
            match insn_words(*insn, idx, stack_size) {
                Ok((ws, jump)) => r is Ok && final(emitter).code@ == old(emitter).code@
                    + words_bytes(ws) && final(emitter).jump_patches@ == match jump {
                    Some(t) => old(emitter).jump_patches@.push(
                        ((old(emitter).code@.len() + 4 * ws.len() - 4) as usize, t),
                    ),
                    None => old(emitter).jump_patches@,
                },
                Err(e) => r == Err::<(), Arm64JitError>(e),
            },
            final(emitter).insn_offsets == old(emitter).insn_offsets,
    {
        let class = match insn.class() {
            Some(c) => c,
            None => return Err(Arm64JitError::UnsupportedInstruction),
        };
        match class {
            OpcodeClass::Alu64 | OpcodeClass::Alu32 => {
                match self.compile_alu(emitter, insn) {
                    Ok(()) => {},
                    Err(e) => return Err(e),
                }
            },
            OpcodeClass::Jmp | OpcodeClass::Jmp32 => {
                match self.compile_jmp(emitter, insn, idx, stack_size) {
                    Ok(()) => {},
                    Err(e) => return Err(e),
                }
            },
            OpcodeClass::Ldx => {
                let _ = self.compile_ldx(emitter, insn);
                proof {
                    lemma_one_word(
                        enc_mem(
                            0x38400000u32,
                            0x39400000u32,
                            arm_reg(insn.spec_dst_reg()),
                            arm_reg(insn.spec_src_reg()),
                            insn.offset,
                            mem_size_of(insn.opcode & 0x18),
                        ),
                    );
                }
            },
            OpcodeClass::Stx | OpcodeClass::St => {
                let _ = self.compile_st(emitter, insn);
            },
            OpcodeClass::Ld => {
                let _ = self.compile_ld(emitter, insn);
            },
        }
        Ok(())
    }
}

} // verus!

verus! {

impl<P: PhysicalProfile> Arm64JitCompiler<P> {
    /// Patch every recorded jump with the distance to its target's code.
    fn patch_jumps(&self, emitter: &mut Arm64Emitter, Ghost(words): Ghost<Seq<u32>>) -> (r: Result<
        (),
        Arm64JitError,
    >)
        requires
            old(emitter).code@ == words_bytes(words),
            4 * words.len() < 0x7fff_ffff,
            forall|k: int|
                0 <= k < old(emitter).insn_offsets@.len() ==> #[trigger] old(
                    emitter,
                ).insn_offsets@[k] <= 4 * words.len(),
            forall|k: int|
                0 <= k < old(emitter).jump_patches@.len() ==> (#[trigger] old(
                    emitter,
                ).jump_patches@[k]).0 % 4 == 0 && old(emitter).jump_patches@[k].0 / 4 < words.len(),
        ensures
            match patch(
                words,
                old(emitter).insn_offsets@,
                old(emitter).jump_patches@,
                old(emitter).jump_patches@.len() as int,
            ) {
                Ok(ws) => r is Ok && final(emitter).code@ == words_bytes(ws),
                Err(e) => r == Err::<(), Arm64JitError>(e),
            },
    {
        let ghost offs = emitter.insn_offsets@;
        let ghost patches = emitter.jump_patches@;
        let ghost mut cur = words;
        let mut k: usize = 0;
        while k < emitter.jump_patches.len()
            invariant
                k <= patches.len(),
                patches == old(emitter).jump_patches@,
                offs == old(emitter).insn_offsets@,
                emitter.insn_offsets@ == offs,
                emitter.jump_patches@ == patches,
                4 * words.len() < 0x7fff_ffff,
                forall|i: int| 0 <= i < offs.len() ==> #[trigger] offs[i] <= 4 * words.len(),
                forall|i: int|
                    0 <= i < patches.len() ==> (#[trigger] patches[i]).0 % 4 == 0 && patches[i].0 / 4
                        < words.len(),
                patch(words, offs, patches, k as int) == Ok::<Seq<u32>, Arm64JitError>(cur),
                cur.len() == words.len(),
                emitter.code@ == words_bytes(cur),
            decreases patches.len() - k,
        {
            let (code_offset, target_insn) = emitter.jump_patches[k];
            if target_insn >= emitter.insn_offsets.len() {
                proof {
                    assert(patch(words, offs, patches, k + 1) == Err::<Seq<u32>, Arm64JitError>(
                        Arm64JitError::UnsupportedInstruction,
                    ));
                    lemma_patch_err(words, offs, patches, k + 1, patches.len() as int);
                }
                return Err(Arm64JitError::UnsupportedInstruction);
            }
            let target_offset = emitter.insn_offsets[target_insn];
            let branch_offset = (target_offset as i32) - (code_offset as i32);
            proof {
                lemma_words_bytes_index(cur);
                assert(code_offset + 3 < 4 * cur.len());
            }
            let ghost wi = code_offset as int / 4;
            proof {
                assert(code_offset == 4 * wi);
                assert(emitter.code@[4 * wi + 0] == word_bytes(cur[wi])[0]);
                assert(emitter.code@[4 * wi + 1] == word_bytes(cur[wi])[1]);
                assert(emitter.code@[4 * wi + 2] == word_bytes(cur[wi])[2]);
                assert(emitter.code@[4 * wi + 3] == word_bytes(cur[wi])[3]);
                lemma_word_roundtrip(cur[wi]);
            }
            let b0 = emitter.code[code_offset];
            let b1 = emitter.code[code_offset + 1];
            let b2 = emitter.code[code_offset + 2];
            let b3 = emitter.code[code_offset + 3];
            let insn = (b0 as u32) | ((b1 as u32) << 8u32) | ((b2 as u32) << 16u32) | ((b3 as u32)
                << 24u32);
            assert(insn == cur[wi]);
            let patched = if insn & 0xFC000000u32 == 0x14000000u32 {
                let imm26 = ((branch_offset >> 2i32) as u32) & 0x3ffffff;
                0x14000000u32 | imm26
            } else {
                let imm19 = ((branch_offset >> 2i32) as u32) & 0x7ffff;
                (insn & 0xFF00001Fu32) | (imm19 << 5u32)
            };
            emitter.code.set(code_offset, (patched & 0xff) as u8);
            emitter.code.set(code_offset + 1, ((patched >> 8u32) & 0xff) as u8);
            emitter.code.set(code_offset + 2, ((patched >> 16u32) & 0xff) as u8);
            emitter.code.set(code_offset + 3, ((patched >> 24u32) & 0xff) as u8);
            proof {
                let next = cur.update(wi, patched);
                assert(patched == patched_word(cur[wi], branch_offset));
                lemma_words_bytes_index(next);
                assert forall|i: int| 0 <= i < emitter.code@.len() implies emitter.code@[i]
                    == words_bytes(next)[i] by {
                    let q = i / 4;
                    let j = i % 4;
                    assert(i == 4 * q + j);
                    assert(words_bytes(next)[4 * q + j] == word_bytes(next[q])[j]);
                    assert(words_bytes(cur)[4 * q + j] == word_bytes(cur[q])[j]);
                }
                assert(emitter.code@ =~= words_bytes(next));
                cur = next;
            }
            k = k + 1;
        }
        Ok(())
    }

    /// Compile a program to ARM64 machine code: the prologue, then each
    /// instruction's code, then the jumps patched.
    #[verifier::rlimit(50)]
    pub fn compile(&self, program: &BpfProgram<P>) -> (r: Result<Arm64JitProgram, Arm64JitError>)
        requires
            compiles_safely(program.insns(), P::MAX_STACK_SIZE),
            (((P::MAX_STACK_SIZE + 15) as usize & !15usize) as u16) + 64 <= 0xffff,
        ensures
            match compiled(program.insns(), P::MAX_STACK_SIZE) {
                Ok(ws) => r matches Ok(p) && p.code() == words_bytes(ws),
                Err(e) => r matches Err(e2) && e2 == e,
            },
    {
        let insns = program.instructions();
        proof {
            use_type_invariant(program);
            program.lemma_wf_bounds();
            P::lemma_limits();
        }
        let estimated_size = insns.len() * 16 + 256;
        let mut emitter = Arm64Emitter::new(estimated_size);
        self.emit_prologue(&mut emitter, P::MAX_STACK_SIZE);
        let ghost pro = prologue_words(P::MAX_STACK_SIZE);
        let ghost mut ws: Seq<u32> = Seq::empty();
        proof {
            reveal(body);
            assert(body(insns@, 0, pro.len(), P::MAX_STACK_SIZE) == Ok::<
                (Seq<u32>, Seq<usize>, Seq<(usize, usize)>),
                Arm64JitError,
            >((Seq::empty(), Seq::empty(), Seq::empty())));
            assert(emitter.insn_offsets@ =~= Seq::<usize>::empty());
            assert(emitter.jump_patches@ =~= Seq::<(usize, usize)>::empty());
            lemma_words_bytes_concat(pro, ws);
            assert(pro + ws =~= pro);
            assert(Seq::<u8>::empty() + words_bytes(pro) =~= words_bytes(pro));
        }
        let mut idx: usize = 0;
        while idx < insns.len()
            invariant
                idx <= insns@.len(),
                insns@ == program.insns(),
                0 < insns@.len() <= 0x100_0000,
                compiles_safely(insns@, P::MAX_STACK_SIZE),
                P::MAX_STACK_SIZE <= 0x1000_0000,
                (((P::MAX_STACK_SIZE + 15) as usize & !15usize) as u16) + 64 <= 0xffff,
                pro == prologue_words(P::MAX_STACK_SIZE),
                body(insns@, idx as int, pro.len(), P::MAX_STACK_SIZE) == Ok::<
                    (Seq<u32>, Seq<usize>, Seq<(usize, usize)>),
                    Arm64JitError,
                >((ws, emitter.insn_offsets@, emitter.jump_patches@)),
                emitter.code@ == words_bytes(pro + ws),
                ws.len() <= 8 * idx,
            decreases insns@.len() - idx,
        {
            proof {
                lemma_body(insns@, idx as int, pro.len(), P::MAX_STACK_SIZE);
                lemma_words_bytes_index(pro + ws);
            }
            let ghost old_offs = emitter.insn_offsets@;
            let ghost old_patches = emitter.jump_patches@;
            emitter.mark_insn();
            let res = self.compile_insn(&mut emitter, &insns[idx], idx, P::MAX_STACK_SIZE);
            match res {
                Err(e) => {
                    proof {
                        reveal(body);
                        assert(body(insns@, idx + 1, pro.len(), P::MAX_STACK_SIZE) == Err::<
                            (Seq<u32>, Seq<usize>, Seq<(usize, usize)>),
                            Arm64JitError,
                        >(e));
                        lemma_body_err(insns@, idx + 1, insns@.len() as int, pro.len(), P::MAX_STACK_SIZE);
                        lemma_compiled(insns@, P::MAX_STACK_SIZE);
                    }
                    return Err(e);
                },
                Ok(()) => {},
            }
            proof {
                let (iw, jump) = insn_words(insns@[idx as int], idx, P::MAX_STACK_SIZE).unwrap();
                lemma_compile_step(
                    insns@,
                    idx as int,
                    pro,
                    ws,
                    old_offs,
                    old_patches,
                    iw,
                    jump, P::MAX_STACK_SIZE,
                );
                ws = ws + iw;
            }
            idx = idx + 1;
        }
        proof {
            lemma_body(insns@, insns@.len() as int, pro.len(), P::MAX_STACK_SIZE);
            lemma_words_bytes_index(pro + ws);
            lemma_compiled(insns@, P::MAX_STACK_SIZE);
        }
        let res = self.patch_jumps(&mut emitter, Ghost(pro + ws));
        match res {
            Ok(()) => Ok(Arm64JitProgram { code: emitter.code, entry: 0 }),
            Err(e) => Err(e),
        }
    }
}

/// One more instruction compiled: its words follow the body's, its
/// offset and its jump are recorded.
proof fn lemma_compile_step(
    insns: Seq<BpfInsn>,
    n: int,
    pro: Seq<u32>,
    ws: Seq<u32>,
    offs: Seq<usize>,
    patches: Seq<(usize, usize)>,
    iw: Seq<u32>,
    jump: Option<usize>, stack_size: usize
)
    requires
        0 <= n < insns.len(),
        insn_words(insns[n], n as usize, stack_size) == Ok::<(Seq<u32>, Option<usize>), Arm64JitError>((iw, jump)),
        body(insns, n, pro.len(), stack_size) == Ok::<
            (Seq<u32>, Seq<usize>, Seq<(usize, usize)>),
            Arm64JitError,
        >((ws, offs, patches)),
    ensures
        words_bytes(pro + ws) + words_bytes(iw) == words_bytes(pro + (ws + iw)),
        ws.len() <= 8 * n ==> (ws + iw).len() <= 8 * (n + 1),
        body(insns, n + 1, pro.len(), stack_size) == Ok::<
            (Seq<u32>, Seq<usize>, Seq<(usize, usize)>),
            Arm64JitError,
        >(
            (
                ws + iw,
                offs.push((4 * (pro.len() + ws.len())) as usize),
                match jump {
                    Some(t) => patches.push(((4 * (pro.len() + ws.len() + iw.len()) - 4) as usize, t)),
                    None => patches,
                },
            ),
        ),
{
    reveal(body);
    lemma_insn_words_len(insns[n], n as usize, stack_size);
    lemma_words_bytes_concat(pro + ws, iw);
    assert((pro + ws) + iw =~= pro + (ws + iw));
}

/// The words of a compiled program's prologue and body.
proof fn lemma_compiled(insns: Seq<BpfInsn>, stack_size: usize)
    ensures
        body(insns, insns.len() as int, prologue_words(stack_size).len(), stack_size) matches Ok((ws, offs, patches))
            ==> compiled(insns, stack_size) == patch(
            prologue_words(stack_size) + ws,
            offs,
            patches,
            patches.len() as int,
        ),
        body(insns, insns.len() as int, prologue_words(stack_size).len(), stack_size) matches Err(e)
            ==> compiled(insns, stack_size) == Err::<Seq<u32>, Arm64JitError>(e),
{
}

impl<P: PhysicalProfile> Default for Arm64JitCompiler<P> {
    fn default() -> (r: Self) {
        Arm64JitCompiler::new()
    }
}

} // verus!

verus! {

/// Whether compiling `insn` would index the register table out of range.
pub fn jit_would_panic(insn: &BpfInsn) -> (r: bool)
    ensures
        r == jit_panics(*insn),
{
    let dst_bad = insn.dst_reg() >= 11;
    let src_bad = insn.src_reg() >= 11;
    let class = insn.class().unwrap();
    match class {
        OpcodeClass::Alu64 | OpcodeClass::Alu32 => dst_bad || (insn.alu_op().is_some()
            && insn.source_type() == SourceType::Reg && src_bad),
        OpcodeClass::Jmp | OpcodeClass::Jmp32 => {
            if insn.is_exit() {
                return false;
            }
            match insn.jmp_op() {
                Some(op) => !op.is_unconditional() && (dst_bad || (insn.source_type()
                    == SourceType::Reg && src_bad)),
                None => false,
            }
        },
        OpcodeClass::Ldx | OpcodeClass::Stx => dst_bad || src_bad,
        OpcodeClass::St | OpcodeClass::Ld => dst_bad,
    }
}

/// The ARM64 JIT executor.
pub struct Arm64JitExecutor<P: PhysicalProfile> {
    compiler: Arm64JitCompiler<P>,
}

impl<P: PhysicalProfile> Arm64JitExecutor<P> {
    /// Create an executor.
    pub fn new() -> (r: Self) {
        Arm64JitExecutor { compiler: Arm64JitCompiler::new() }
    }

    /// Compile a program.
    pub fn compile(&self, program: &BpfProgram<P>) -> (r: Result<Arm64JitProgram, Arm64JitError>)
        requires
            compiles_safely(program.insns(), P::MAX_STACK_SIZE),
            (((P::MAX_STACK_SIZE + 15) as usize & !15usize) as u16) + 64 <= 0xffff,
        ensures
            match compiled(program.insns(), P::MAX_STACK_SIZE) {
                Ok(ws) => r matches Ok(p) && p.code() == words_bytes(ws),
                Err(e) => r matches Err(e2) && e2 == e,
            },
    {
        self.compiler.compile(program)
    }
}

impl<P: PhysicalProfile> Default for Arm64JitExecutor<P> {
    fn default() -> (r: Self) {
        Arm64JitExecutor::new()
    }
}

impl<P: PhysicalProfile> BpfExecutor<P> for Arm64JitExecutor<P> {
    /// Run a program: it is compiled, where compiling cannot fault, and in
    /// any case run by the interpreter, since compiled code is not mapped
    /// for execution yet.
    fn execute<E: BpfEnvironment>(&self, program: &BpfProgram<P>, ctx: &BpfContext, env: &E) -> (r:
        BpfResult)
        ensures
            exists|ctx_addr: u64, stack_addr: u64, answers: Seq<u64>|
                r == #[trigger] program_result(
                    program.insns(),
                    *ctx,
                    P::MAX_INSN_COUNT,
                    P::MAX_STACK_SIZE,
                    ctx_addr,
                    stack_addr,
                    answers,
                ) && program_answered(
                    env,
                    program.insns(),
                    *ctx,
                    P::MAX_INSN_COUNT,
                    P::MAX_STACK_SIZE,
                    ctx_addr,
                    stack_addr,
                    answers,
                ),
    {
        let insns = program.instructions();
        proof {
            use_type_invariant(program);
            program.lemma_wf_bounds();
            P::lemma_limits();
        }
        let mut safe = true;
        let mut i: usize = 0;
        while i < insns.len()
            invariant
                i <= insns@.len(),
                insns@ == program.insns(),
                safe ==> forall|j: int| 0 <= j < i ==> !jit_panics(#[trigger] insns@[j]),
            decreases insns@.len() - i,
        {
            if jit_would_panic(&insns[i]) {
                safe = false;
            }
            i = i + 1;
        }
        let alloc = ((P::MAX_STACK_SIZE + 15) & !15usize) as u16;
        if safe && (alloc as u32) + 64 <= 0xffff {
            let _ = self.compile(program);
        }
        let interp = Interpreter::<P>::new();
        interp.execute(program, ctx, env)
    }
}

} // verus!

verus! {

/// The value that a 64-bit MOVZ or MOVK word, or a move from the zero
/// register, leaves in its destination register, which held `x` before;
/// any other word leaves `x`. MOVZ writes its 16-bit immediate at the shift
/// it names and zeroes the rest; MOVK replaces only those 16 bits; ORR Xd,
/// XZR, XZR writes zero.
pub open spec fn a64_wide_move(w: u32, x: u64) -> u64 {
    let sh = (((w >> 21u32) & 3u32) * 16u32) as u64;
    let imm = ((w >> 5u32) & 0xFFFFu32) as u64;
    if w & 0xFFFFFFE0u32 == 0xAA1F03E0u32 {
        0
    } else if w & 0xFF800000u32 == 0xD2800000u32 {
        imm << sh
    } else if w & 0xFF800000u32 == 0xF2800000u32 {
        (x & !(0xFFFFu64 << sh)) | (imm << sh)
    } else {
        x
    }
}

/// The destination's value after the words `ws` run in order from `x`.
pub open spec fn a64_run(ws: Seq<u32>, x: u64) -> u64
    decreases ws.len(),
{
    if ws.len() == 0 {
        x
    } else {
        a64_run(ws.drop_first(), a64_wide_move(ws[0], x))
    }
}

/// The low `n` bits set.
pub open spec fn low_bits(n: u64) -> u64 {
    if n >= 64 {
        0xFFFF_FFFF_FFFF_FFFFu64
    } else {
        ((1u64 << n) - 1) as u64
    }
}

/// The bit-level facts behind the immediate loads: what MOVZ and MOVK
/// words do, and how one 16-bit part extends the bits loaded so far.
proof fn lemma_wide_move_bits()
    by (bit_vector)
    ensures
        forall|rd: u8, p: u16, x: u64, s: u8|
            #![trigger a64_wide_move(enc_movz(rd, p, s), x)]
            (s == 0 || s == 16 || s == 32 || s == 48) ==> a64_wide_move(enc_movz(rd, p, s), x) == (p as u64)
                << (s as u64),
        forall|rd: u8, p: u16, x: u64, s: u8|
            #![trigger a64_wide_move(enc_movk(rd, p, s), x)]
            (s == 0 || s == 16 || s == 32 || s == 48) ==> a64_wide_move(enc_movk(rd, p, s), x) == (x & !(
            0xFFFFu64 << (s as u64))) | ((p as u64) << (s as u64)),
        forall|imm: u64, s: u64|
            #![trigger imm & low_bits(s), imm >> s]
            (s == 0 || s == 16 || s == 32 || s == 48) ==> {
                &&& (imm & low_bits(s)) == 0 ==> ((((imm >> s) & 0xffff) as u16) as u64) << s == imm & low_bits(
                    (s + 16) as u64,
                )
                &&& ((imm & low_bits(s)) & !(0xFFFFu64 << s)) | (((((imm >> s) & 0xffff) as u16) as u64) << s)
                    == imm & low_bits((s + 16) as u64)
                &&& (((imm >> s) & 0xffff) as u16) == 0 ==> imm & low_bits(s) == imm & low_bits((s + 16) as u64)
            },
        forall|imm: u64| #![trigger imm & low_bits(64)] imm & low_bits(64) == imm,
        forall|imm: u64| #![trigger imm & low_bits(0)] imm & low_bits(0) == 0,
        forall|imm: i64| #![trigger imm as u64] imm != 0 ==> imm as u64 != 0,
        forall|rd: u8, x: u64| #![trigger a64_wide_move(enc_mov_reg(rd, 31), x)] a64_wide_move(enc_mov_reg(rd, 31), x) == 0,
{
}

/// Running the words of `mov64_words_from` from part `i` loads `imm`: with
/// no part emitted yet the parts below `i` are zero; once one is emitted the
/// register holds the parts of `imm` below `i`.
proof fn lemma_mov64_from(rd: u8, imm: u64, i: int, first: bool, x: u64)
    requires
        0 <= i <= 4,
        imm != 0,
        first ==> imm & low_bits((16 * i) as u64) == 0,
        !first ==> x == imm & low_bits((16 * i) as u64),
    ensures
        a64_run(mov64_words_from(rd, imm, i, first), x) == imm,
    decreases 4 - i,
{
    lemma_wide_move_bits();
    if i >= 4 {
        assert(imm & low_bits(64) == imm);
    } else {
        let s = (16 * i) as u64;
        let p = imm_part(imm, i);
        assert((i * 16) as u8 as u64 == s);
        assert((s + 16) as u64 == (16 * (i + 1)) as u64);
        assert(imm & low_bits(s) == imm & low_bits((16 * i) as u64));
        assert((imm >> s) == (imm >> s));
        if p != 0 {
            let w = if first {
                enc_movz(rd, p, (i * 16) as u8)
            } else {
                enc_movk(rd, p, (i * 16) as u8)
            };
            let next = a64_wide_move(w, x);
            assert(next == imm & low_bits((16 * (i + 1)) as u64));
            lemma_mov64_from(rd, imm, i + 1, false, next);
            assert((seq![w] + mov64_words_from(rd, imm, i + 1, false)).drop_first() =~= mov64_words_from(
                rd,
                imm,
                i + 1,
                false,
            ));
        } else {
            lemma_mov64_from(rd, imm, i + 1, first, x);
        }
    }
}

/// The words that load an immediate leave exactly that value in the
/// destination register, whatever it held before.
pub proof fn lemma_mov64_loads_immediate(rd: u8, imm: i64, x: u64)
    ensures
        a64_run(mov64_words(rd, imm), x) == imm as u64,
{
    lemma_wide_move_bits();
    if imm as u64 == 0 {
        let ws = seq![enc_mov_reg(rd, 31)];
        assert(ws.drop_first() =~= Seq::<u32>::empty());
        assert(a64_run(ws, x) == a64_run(ws.drop_first(), a64_wide_move(ws[0], x)));
    } else {
        assert(imm as u64 & low_bits(0) == 0);
        lemma_mov64_from(rd, imm as u64, 0, true, x);
    }
}

} // verus!
