//! A single 64-bit BPF instruction.
use vstd::prelude::*;

use crate::bytecode::opcode::{
    alu_op_of, class_of_bits, jmp_op_of, mem_size_of, AluOp, JmpOp, MemSize, OpcodeClass,
    SourceType,
};
use crate::bytecode::registers::{reg_of, Register};

verus! {

/// Opcode of the program exit instruction (JMP class, EXIT operation).
pub const OPCODE_EXIT: u8 = 0x95;

/// Opcode of the helper call instruction (JMP class, CALL operation).
pub const OPCODE_CALL: u8 = 0x85;

/// Opcode of the 64-bit immediate load (LD class, DW size, IMM mode),
/// which spans two instruction slots.
pub const OPCODE_LD_IMM64: u8 = 0x18;

/// A BPF instruction: opcode, destination and source register nibbles,
/// signed 16-bit offset and signed 32-bit immediate.
#[derive(Debug, Clone, Copy, PartialEq, Eq, Structural)]
pub struct BpfInsn {
    /// Opcode byte
    pub opcode: u8,
    /// Destination register (low nibble) and source register (high nibble)
    pub regs: u8,
    /// Signed offset
    pub offset: i16,
    /// Signed immediate
    pub imm: i32,
}

impl BpfInsn {
    /// Destination register number (low nibble of `regs`).
    pub open spec fn spec_dst_reg(&self) -> u8 {
        self.regs & 0x0f
    }

    /// Source register number (high nibble of `regs`).
    pub open spec fn spec_src_reg(&self) -> u8 {
        self.regs >> 4
    }

    pub open spec fn spec_class(&self) -> OpcodeClass {
        class_of_bits(self.opcode & 0x07)
    }

    pub open spec fn spec_is_exit(&self) -> bool {
        self.opcode == OPCODE_EXIT
    }

    pub open spec fn spec_is_call(&self) -> bool {
        self.opcode == OPCODE_CALL
    }

    pub open spec fn spec_is_wide(&self) -> bool {
        self.opcode == OPCODE_LD_IMM64
    }

    pub open spec fn spec_is_alu(&self) -> bool {
        self.spec_class() is Alu32 || self.spec_class() is Alu64
    }

    pub open spec fn spec_is_jump(&self) -> bool {
        self.spec_class() is Jmp || self.spec_class() is Jmp32
    }

    pub open spec fn spec_is_memory(&self) -> bool {
        (self.spec_class() is Ldx || self.spec_class() is St || self.spec_class() is Stx
            || self.spec_class() is Ld) && !self.spec_is_wide()
    }

    pub open spec fn spec_alu_op(&self) -> Option<AluOp> {
        if self.spec_is_alu() {
            alu_op_of(self.opcode & 0xf0)
        } else {
            None
        }
    }

    pub open spec fn spec_jmp_op(&self) -> Option<JmpOp> {
        if self.spec_is_jump() {
            jmp_op_of(self.opcode & 0xf0)
        } else {
            None
        }
    }

    pub open spec fn spec_mem_size(&self) -> MemSize {
        mem_size_of(self.opcode & 0x18)
    }

    pub open spec fn spec_source_type(&self) -> SourceType {
        if self.opcode & 0x08 != 0 {
            SourceType::Reg
        } else {
            SourceType::Imm
        }
    }

    /// Build an instruction from its fields; register numbers are truncated to 4 bits.
    pub fn new(opcode: u8, dst: u8, src: u8, offset: i16, imm: i32) -> (r: Self)
        ensures
            r.opcode == opcode,
            r.regs == ((src & 0x0f) << 4) | (dst & 0x0f),
            r.offset == offset,
            r.imm == imm,
    {
        BpfInsn { opcode, regs: ((src & 0x0f) << 4) | (dst & 0x0f), offset, imm }
    }

    /// Destination register number.
    #[verifier::when_used_as_spec(spec_dst_reg)]
    pub fn dst_reg(&self) -> (r: u8)
        ensures
            r == self.regs & 0x0f,
            r < 16,
    {
        let regs = self.regs;
        let r = regs & 0x0f;
        assert(r < 16) by (bit_vector)
            requires
                r == regs & 0x0f,
        ;
        r
    }

    /// Source register number.
    #[verifier::when_used_as_spec(spec_src_reg)]
    pub fn src_reg(&self) -> (r: u8)
        ensures
            r == self.regs >> 4,
            r < 16,
    {
        let regs = self.regs;
        let r = regs >> 4;
        assert(r < 16) by (bit_vector)
            requires
                r == regs >> 4,
        ;
        r
    }

    /// Destination register, if its number is valid.
    pub fn dst(&self) -> (r: Option<Register>)
        ensures
            self.spec_dst_reg() < 11 ==> r == Some(reg_of(self.spec_dst_reg()))
                && r.unwrap().index() == self.spec_dst_reg(),
            self.spec_dst_reg() >= 11 ==> r is None,
    {
        Register::from_raw(self.dst_reg())
    }

    /// Source register, if its number is valid.
    pub fn src(&self) -> (r: Option<Register>)
        ensures
            self.spec_src_reg() < 11 ==> r == Some(reg_of(self.spec_src_reg()))
                && r.unwrap().index() == self.spec_src_reg(),
            self.spec_src_reg() >= 11 ==> r is None,
    {
        Register::from_raw(self.src_reg())
    }

    /// Instruction class; every opcode has one.
    pub fn class(&self) -> (r: Option<OpcodeClass>)
        ensures
            r == Some(self.spec_class()),
    {
        OpcodeClass::from_opcode(self.opcode)
    }

    /// Source type of the instruction.
    #[verifier::when_used_as_spec(spec_source_type)]
    pub fn source_type(&self) -> (r: SourceType)
        ensures
            r == self.spec_source_type(),
    {
        SourceType::from_opcode(self.opcode)
    }

    /// Check whether this is the exit instruction.
    #[verifier::when_used_as_spec(spec_is_exit)]
    pub fn is_exit(&self) -> (r: bool)
        ensures
            r == self.spec_is_exit(),
    {
        self.opcode == OPCODE_EXIT
    }

    /// Check whether this is a helper call.
    #[verifier::when_used_as_spec(spec_is_call)]
    pub fn is_call(&self) -> (r: bool)
        ensures
            r == self.spec_is_call(),
    {
        self.opcode == OPCODE_CALL
    }

    /// Check whether this is the first slot of a 64-bit immediate load.
    #[verifier::when_used_as_spec(spec_is_wide)]
    pub fn is_wide(&self) -> (r: bool)
        ensures
            r == self.spec_is_wide(),
    {
        self.opcode == OPCODE_LD_IMM64
    }

    /// Check whether this is an ALU instruction.
    #[verifier::when_used_as_spec(spec_is_alu)]
    pub fn is_alu(&self) -> (r: bool)
        ensures
            r == self.spec_is_alu(),
    {
        let c = OpcodeClass::from_opcode(self.opcode).unwrap();
        c.is_alu()
    }

    /// Check whether this is a jump-class instruction.
    #[verifier::when_used_as_spec(spec_is_jump)]
    pub fn is_jump(&self) -> (r: bool)
        ensures
            r == self.spec_is_jump(),
    {
        let c = OpcodeClass::from_opcode(self.opcode).unwrap();
        c.is_jump()
    }

    /// Check whether this is a load or store (the wide immediate load excluded).
    #[verifier::when_used_as_spec(spec_is_memory)]
    pub fn is_memory(&self) -> (r: bool)
        ensures
            r == self.spec_is_memory(),
    {
        let c = OpcodeClass::from_opcode(self.opcode).unwrap();
        c.is_memory() && !self.is_wide()
    }

    /// ALU operation of an ALU-class instruction.
    #[verifier::when_used_as_spec(spec_alu_op)]
    pub fn alu_op(&self) -> (r: Option<AluOp>)
        ensures
            r == self.spec_alu_op(),
    {
        if self.is_alu() {
            AluOp::from_opcode(self.opcode)
        } else {
            None
        }
    }

    /// Jump operation of a jump-class instruction.
    #[verifier::when_used_as_spec(spec_jmp_op)]
    pub fn jmp_op(&self) -> (r: Option<JmpOp>)
        ensures
            r == self.spec_jmp_op(),
    {
        if self.is_jump() {
            JmpOp::from_opcode(self.opcode)
        } else {
            None
        }
    }

    /// Memory access size named by the opcode.
    pub fn mem_size(&self) -> (r: Option<MemSize>)
        ensures
            r == Some(mem_size_of(self.opcode & 0x18)),
    {
        MemSize::from_opcode(self.opcode)
    }

    /// `dst = imm` (64-bit).
    pub fn mov64_imm(dst: u8, imm: i32) -> (r: Self)
        ensures
            r.opcode == 0xb7,
            r.regs == dst & 0x0f,
            r.offset == 0,
            r.imm == imm,
    {
        let r = BpfInsn::new(0xb7, dst, 0, 0, imm);
        assert(((0u8 & 0x0f) << 4u8) | (dst & 0x0f) == dst & 0x0f) by (bit_vector);
        r
    }

    /// `dst = src` (64-bit).
    pub fn mov64_reg(dst: u8, src: u8) -> (r: Self)
        ensures
            r.opcode == 0xbf,
            r.regs == ((src & 0x0f) << 4) | (dst & 0x0f),
            r.offset == 0,
            r.imm == 0,
    {
        BpfInsn::new(0xbf, dst, src, 0, 0)
    }

    /// `dst += imm` (64-bit).
    pub fn add64_imm(dst: u8, imm: i32) -> (r: Self)
        ensures
            r.opcode == 0x07,
            r.regs == dst & 0x0f,
            r.offset == 0,
            r.imm == imm,
    {
        let r = BpfInsn::new(0x07, dst, 0, 0, imm);
        assert(((0u8 & 0x0f) << 4u8) | (dst & 0x0f) == dst & 0x0f) by (bit_vector);
        r
    }

    /// `dst += src` (64-bit).
    pub fn add64_reg(dst: u8, src: u8) -> (r: Self)
        ensures
            r.opcode == 0x0f,
            r.regs == ((src & 0x0f) << 4) | (dst & 0x0f),
            r.offset == 0,
            r.imm == 0,
    {
        BpfInsn::new(0x0f, dst, src, 0, 0)
    }

    /// `if dst == imm goto +offset`.
    pub fn jeq_imm(dst: u8, imm: i32, offset: i16) -> (r: Self)
        ensures
            r.opcode == 0x15,
            r.regs == dst & 0x0f,
            r.offset == offset,
            r.imm == imm,
    {
        let r = BpfInsn::new(0x15, dst, 0, offset, imm);
        assert(((0u8 & 0x0f) << 4u8) | (dst & 0x0f) == dst & 0x0f) by (bit_vector);
        r
    }

    /// `goto +offset`.
    pub fn ja(offset: i16) -> (r: Self)
        ensures
            r.opcode == 0x05,
            r.regs == 0,
            r.offset == offset,
            r.imm == 0,
    {
        BpfInsn { opcode: 0x05, regs: 0, offset, imm: 0 }
    }

    /// Call helper number `helper_id`.
    pub fn call(helper_id: i32) -> (r: Self)
        ensures
            r.opcode == OPCODE_CALL,
            r.regs == 0,
            r.offset == 0,
            r.imm == helper_id,
    {
        BpfInsn { opcode: OPCODE_CALL, regs: 0, offset: 0, imm: helper_id }
    }

    /// Program exit.
    pub fn exit() -> (r: Self)
        ensures
            r.opcode == OPCODE_EXIT,
            r.regs == 0,
            r.offset == 0,
            r.imm == 0,
    {
        BpfInsn { opcode: OPCODE_EXIT, regs: 0, offset: 0, imm: 0 }
    }

    /// No operation: a jump to the next instruction.
    pub fn nop() -> (r: Self)
        ensures
            r.opcode == 0x05,
            r.regs == 0,
            r.offset == 0,
            r.imm == 0,
    {
        BpfInsn { opcode: 0x05, regs: 0, offset: 0, imm: 0 }
    }
}

} // verus!
