//! BPF opcode decoding.
//!
//! An eBPF opcode byte is laid out as:
//!
//! ```text
//! +----------------+--------+--------------------+
//! |    4 bits      | 1 bit  |      3 bits        |
//! |   operation    | source |   instruction      |
//! |    code        |  type  |     class          |
//! +----------------+--------+--------------------+
//! ```
use vstd::prelude::*;

verus! {

/// Instruction class (bits 0-2 of the opcode).
#[derive(Debug, Clone, Copy, PartialEq, Eq, Hash, Structural)]
pub enum OpcodeClass {
    /// Load double word (legacy LD class)
    Ld,
    /// Load from memory
    Ldx,
    /// Store immediate
    St,
    /// Store from register
    Stx,
    /// 32-bit ALU operations
    Alu32,
    /// 64-bit jumps
    Jmp,
    /// 32-bit jumps
    Jmp32,
    /// 64-bit ALU operations
    Alu64,
}

/// The class encoded by the low three bits of an opcode.
pub open spec fn class_of_bits(bits: u8) -> OpcodeClass {
    if bits == 0 {
        OpcodeClass::Ld
    } else if bits == 1 {
        OpcodeClass::Ldx
    } else if bits == 2 {
        OpcodeClass::St
    } else if bits == 3 {
        OpcodeClass::Stx
    } else if bits == 4 {
        OpcodeClass::Alu32
    } else if bits == 5 {
        OpcodeClass::Jmp
    } else if bits == 6 {
        OpcodeClass::Jmp32
    } else {
        OpcodeClass::Alu64
    }
}

impl OpcodeClass {
    /// The three-bit class code of this class.
    pub open spec fn code(self) -> u8 {
        match self {
            OpcodeClass::Ld => 0,
            OpcodeClass::Ldx => 1,
            OpcodeClass::St => 2,
            OpcodeClass::Stx => 3,
            OpcodeClass::Alu32 => 4,
            OpcodeClass::Jmp => 5,
            OpcodeClass::Jmp32 => 6,
            OpcodeClass::Alu64 => 7,
        }
    }

    /// Extract the instruction class from an opcode.
    ///
    /// Every opcode has a class, since all eight three-bit codes are assigned.
    pub fn from_opcode(opcode: u8) -> (r: Option<Self>)
        ensures
            r == Some(class_of_bits(opcode & 0x07)),
            r.unwrap().code() == opcode & 0x07,
    {
        let bits = opcode & 0x07;
        assert(bits < 8) by (bit_vector)
            requires
                bits == opcode & 0x07,
        ;
        if bits == 0 {
            Some(OpcodeClass::Ld)
        } else if bits == 1 {
            Some(OpcodeClass::Ldx)
        } else if bits == 2 {
            Some(OpcodeClass::St)
        } else if bits == 3 {
            Some(OpcodeClass::Stx)
        } else if bits == 4 {
            Some(OpcodeClass::Alu32)
        } else if bits == 5 {
            Some(OpcodeClass::Jmp)
        } else if bits == 6 {
            Some(OpcodeClass::Jmp32)
        } else {
            Some(OpcodeClass::Alu64)
        }
    }

    /// The numeric class code.
    pub fn as_u8(self) -> (r: u8)
        ensures
            r == self.code(),
    {
        match self {
            OpcodeClass::Ld => 0,
            OpcodeClass::Ldx => 1,
            OpcodeClass::St => 2,
            OpcodeClass::Stx => 3,
            OpcodeClass::Alu32 => 4,
            OpcodeClass::Jmp => 5,
            OpcodeClass::Jmp32 => 6,
            OpcodeClass::Alu64 => 7,
        }
    }

    pub open spec fn spec_is_load(self) -> bool {
        self is Ld || self is Ldx
    }

    pub open spec fn spec_is_store(self) -> bool {
        self is St || self is Stx
    }

    /// Check if this is a memory load class.
    #[verifier::when_used_as_spec(spec_is_load)]
    pub fn is_load(self) -> (r: bool)
        ensures
            r == (self is Ld || self is Ldx),
    {
        matches!(self, OpcodeClass::Ld | OpcodeClass::Ldx)
    }

    /// Check if this is a memory store class.
    #[verifier::when_used_as_spec(spec_is_store)]
    pub fn is_store(self) -> (r: bool)
        ensures
            r == (self is St || self is Stx),
    {
        matches!(self, OpcodeClass::St | OpcodeClass::Stx)
    }

    /// Check if this is a memory operation class (load or store).
    pub fn is_memory(self) -> (r: bool)
        ensures
            r == (self.spec_is_load() || self.spec_is_store()),
    {
        self.is_load() || self.is_store()
    }

    /// Check if this is an ALU class.
    pub fn is_alu(self) -> (r: bool)
        ensures
            r == (self is Alu32 || self is Alu64),
    {
        matches!(self, OpcodeClass::Alu32 | OpcodeClass::Alu64)
    }

    /// Check if this is a jump class.
    pub fn is_jump(self) -> (r: bool)
        ensures
            r == (self is Jmp || self is Jmp32),
    {
        matches!(self, OpcodeClass::Jmp | OpcodeClass::Jmp32)
    }
}

/// Source type (bit 3 of the opcode).
#[derive(Debug, Clone, Copy, PartialEq, Eq, Hash, Structural)]
pub enum SourceType {
    /// Source is the immediate value of the instruction
    Imm,
    /// Source is a register
    Reg,
}

impl SourceType {
    /// Extract the source type from an opcode.
    pub fn from_opcode(opcode: u8) -> (r: Self)
        ensures
            r == (if opcode & 0x08 != 0 { SourceType::Reg } else { SourceType::Imm }),
    {
        if opcode & 0x08 != 0 {
            SourceType::Reg
        } else {
            SourceType::Imm
        }
    }
}

/// ALU operation codes (bits 4-7 of the opcode for the ALU classes).
#[derive(Debug, Clone, Copy, PartialEq, Eq, Hash, Structural)]
pub enum AluOp {
    Add,
    Sub,
    Mul,
    Div,
    Or,
    And,
    Lsh,
    Rsh,
    Neg,
    Mod,
    Xor,
    Mov,
    Arsh,
    End,
}

/// The ALU operation named by the high nibble `hi` (already masked with 0xf0).
pub open spec fn alu_op_of(hi: u8) -> Option<AluOp> {
    if hi == 0x00 {
        Some(AluOp::Add)
    } else if hi == 0x10 {
        Some(AluOp::Sub)
    } else if hi == 0x20 {
        Some(AluOp::Mul)
    } else if hi == 0x30 {
        Some(AluOp::Div)
    } else if hi == 0x40 {
        Some(AluOp::Or)
    } else if hi == 0x50 {
        Some(AluOp::And)
    } else if hi == 0x60 {
        Some(AluOp::Lsh)
    } else if hi == 0x70 {
        Some(AluOp::Rsh)
    } else if hi == 0x80 {
        Some(AluOp::Neg)
    } else if hi == 0x90 {
        Some(AluOp::Mod)
    } else if hi == 0xa0 {
        Some(AluOp::Xor)
    } else if hi == 0xb0 {
        Some(AluOp::Mov)
    } else if hi == 0xc0 {
        Some(AluOp::Arsh)
    } else if hi == 0xd0 {
        Some(AluOp::End)
    } else {
        None
    }
}

impl AluOp {
    /// Extract the ALU operation from an opcode.
    pub fn from_opcode(opcode: u8) -> (r: Option<Self>)
        ensures
            r == alu_op_of(opcode & 0xf0),
    {
        let hi = opcode & 0xf0;
        if hi == 0x00 {
            Some(AluOp::Add)
        } else if hi == 0x10 {
            Some(AluOp::Sub)
        } else if hi == 0x20 {
            Some(AluOp::Mul)
        } else if hi == 0x30 {
            Some(AluOp::Div)
        } else if hi == 0x40 {
            Some(AluOp::Or)
        } else if hi == 0x50 {
            Some(AluOp::And)
        } else if hi == 0x60 {
            Some(AluOp::Lsh)
        } else if hi == 0x70 {
            Some(AluOp::Rsh)
        } else if hi == 0x80 {
            Some(AluOp::Neg)
        } else if hi == 0x90 {
            Some(AluOp::Mod)
        } else if hi == 0xa0 {
            Some(AluOp::Xor)
        } else if hi == 0xb0 {
            Some(AluOp::Mov)
        } else if hi == 0xc0 {
            Some(AluOp::Arsh)
        } else if hi == 0xd0 {
            Some(AluOp::End)
        } else {
            None
        }
    }

    pub open spec fn spec_can_divide_by_zero(self) -> bool {
        self is Div || self is Mod
    }

    pub open spec fn spec_is_unary(self) -> bool {
        self is Neg || self is End
    }

    /// Check if this operation can divide by zero.
    #[verifier::when_used_as_spec(spec_can_divide_by_zero)]
    pub fn can_divide_by_zero(self) -> (r: bool)
        ensures
            r == (self is Div || self is Mod),
    {
        matches!(self, AluOp::Div | AluOp::Mod)
    }

    /// Check if this is a unary operation.
    #[verifier::when_used_as_spec(spec_is_unary)]
    pub fn is_unary(self) -> (r: bool)
        ensures
            r == (self is Neg || self is End),
    {
        matches!(self, AluOp::Neg | AluOp::End)
    }

    /// Mnemonic of the operation.
    pub fn name(self) -> (r: &'static str)
        ensures
            r == match self {
                AluOp::Add => "add",
                AluOp::Sub => "sub",
                AluOp::Mul => "mul",
                AluOp::Div => "div",
                AluOp::Or => "or",
                AluOp::And => "and",
                AluOp::Lsh => "lsh",
                AluOp::Rsh => "rsh",
                AluOp::Neg => "neg",
                AluOp::Mod => "mod",
                AluOp::Xor => "xor",
                AluOp::Mov => "mov",
                AluOp::Arsh => "arsh",
                AluOp::End => "end",
            },
    {
        match self {
            AluOp::Add => "add",
            AluOp::Sub => "sub",
            AluOp::Mul => "mul",
            AluOp::Div => "div",
            AluOp::Or => "or",
            AluOp::And => "and",
            AluOp::Lsh => "lsh",
            AluOp::Rsh => "rsh",
            AluOp::Neg => "neg",
            AluOp::Mod => "mod",
            AluOp::Xor => "xor",
            AluOp::Mov => "mov",
            AluOp::Arsh => "arsh",
            AluOp::End => "end",
        }
    }
}

/// Jump operation codes (bits 4-7 of the opcode for the jump classes).
#[derive(Debug, Clone, Copy, PartialEq, Eq, Hash, Structural)]
pub enum JmpOp {
    Ja,
    Jeq,
    Jgt,
    Jge,
    Jset,
    Jne,
    Jsgt,
    Jsge,
    Call,
    Exit,
    Jlt,
    Jle,
    Jslt,
    Jsle,
}

/// The jump operation named by the high nibble `hi` (already masked with 0xf0).
pub open spec fn jmp_op_of(hi: u8) -> Option<JmpOp> {
    if hi == 0x00 {
        Some(JmpOp::Ja)
    } else if hi == 0x10 {
        Some(JmpOp::Jeq)
    } else if hi == 0x20 {
        Some(JmpOp::Jgt)
    } else if hi == 0x30 {
        Some(JmpOp::Jge)
    } else if hi == 0x40 {
        Some(JmpOp::Jset)
    } else if hi == 0x50 {
        Some(JmpOp::Jne)
    } else if hi == 0x60 {
        Some(JmpOp::Jsgt)
    } else if hi == 0x70 {
        Some(JmpOp::Jsge)
    } else if hi == 0x80 {
        Some(JmpOp::Call)
    } else if hi == 0x90 {
        Some(JmpOp::Exit)
    } else if hi == 0xa0 {
        Some(JmpOp::Jlt)
    } else if hi == 0xb0 {
        Some(JmpOp::Jle)
    } else if hi == 0xc0 {
        Some(JmpOp::Jslt)
    } else if hi == 0xd0 {
        Some(JmpOp::Jsle)
    } else {
        None
    }
}

impl JmpOp {
    /// Extract the jump operation from an opcode.
    pub fn from_opcode(opcode: u8) -> (r: Option<Self>)
        ensures
            r == jmp_op_of(opcode & 0xf0),
    {
        let hi = opcode & 0xf0;
        if hi == 0x00 {
            Some(JmpOp::Ja)
        } else if hi == 0x10 {
            Some(JmpOp::Jeq)
        } else if hi == 0x20 {
            Some(JmpOp::Jgt)
        } else if hi == 0x30 {
            Some(JmpOp::Jge)
        } else if hi == 0x40 {
            Some(JmpOp::Jset)
        } else if hi == 0x50 {
            Some(JmpOp::Jne)
        } else if hi == 0x60 {
            Some(JmpOp::Jsgt)
        } else if hi == 0x70 {
            Some(JmpOp::Jsge)
        } else if hi == 0x80 {
            Some(JmpOp::Call)
        } else if hi == 0x90 {
            Some(JmpOp::Exit)
        } else if hi == 0xa0 {
            Some(JmpOp::Jlt)
        } else if hi == 0xb0 {
            Some(JmpOp::Jle)
        } else if hi == 0xc0 {
            Some(JmpOp::Jslt)
        } else if hi == 0xd0 {
            Some(JmpOp::Jsle)
        } else {
            None
        }
    }

    pub open spec fn spec_is_conditional(self) -> bool {
        !(self is Ja || self is Call || self is Exit)
    }

    pub open spec fn spec_is_unconditional(self) -> bool {
        self is Ja
    }

    /// Check if this is a conditional jump.
    #[verifier::when_used_as_spec(spec_is_conditional)]
    pub fn is_conditional(self) -> (r: bool)
        ensures
            r == !(self is Ja || self is Call || self is Exit),
    {
        !matches!(self, JmpOp::Ja | JmpOp::Call | JmpOp::Exit)
    }

    /// Check if this is an unconditional jump.
    #[verifier::when_used_as_spec(spec_is_unconditional)]
    pub fn is_unconditional(self) -> (r: bool)
        ensures
            r == (self is Ja),
    {
        matches!(self, JmpOp::Ja)
    }

    /// Check if this is a control-flow terminator.
    pub fn is_terminator(self) -> (r: bool)
        ensures
            r == (self is Exit),
    {
        matches!(self, JmpOp::Exit)
    }

    /// Check if this is a function call.
    pub fn is_call(self) -> (r: bool)
        ensures
            r == (self is Call),
    {
        matches!(self, JmpOp::Call)
    }

    /// Check if this jump uses a signed comparison.
    pub fn is_signed(self) -> (r: bool)
        ensures
            r == (self is Jsgt || self is Jsge || self is Jslt || self is Jsle),
    {
        matches!(self, JmpOp::Jsgt | JmpOp::Jsge | JmpOp::Jslt | JmpOp::Jsle)
    }

    /// Mnemonic of the operation.
    pub fn name(self) -> (r: &'static str)
        ensures
            r == match self {
                JmpOp::Ja => "ja",
                JmpOp::Jeq => "jeq",
                JmpOp::Jgt => "jgt",
                JmpOp::Jge => "jge",
                JmpOp::Jset => "jset",
                JmpOp::Jne => "jne",
                JmpOp::Jsgt => "jsgt",
                JmpOp::Jsge => "jsge",
                JmpOp::Call => "call",
                JmpOp::Exit => "exit",
                JmpOp::Jlt => "jlt",
                JmpOp::Jle => "jle",
                JmpOp::Jslt => "jslt",
                JmpOp::Jsle => "jsle",
            },
    {
        match self {
            JmpOp::Ja => "ja",
            JmpOp::Jeq => "jeq",
            JmpOp::Jgt => "jgt",
            JmpOp::Jge => "jge",
            JmpOp::Jset => "jset",
            JmpOp::Jne => "jne",
            JmpOp::Jsgt => "jsgt",
            JmpOp::Jsge => "jsge",
            JmpOp::Call => "call",
            JmpOp::Exit => "exit",
            JmpOp::Jlt => "jlt",
            JmpOp::Jle => "jle",
            JmpOp::Jslt => "jslt",
            JmpOp::Jsle => "jsle",
        }
    }
}

/// Memory access size (bits 3-4 of the opcode for the memory classes).
#[derive(Debug, Clone, Copy, PartialEq, Eq, Hash, Structural)]
pub enum MemSize {
    /// 32-bit word
    Word,
    /// 16-bit half word
    Half,
    /// 8-bit byte
    Byte,
    /// 64-bit double word
    DWord,
}

/// The access size named by bits 3-4 (already masked with 0x18).
pub open spec fn mem_size_of(bits: u8) -> MemSize {
    if bits == 0x00 {
        MemSize::Word
    } else if bits == 0x08 {
        MemSize::Half
    } else if bits == 0x10 {
        MemSize::Byte
    } else {
        MemSize::DWord
    }
}

impl MemSize {
    /// Size in bytes.
    pub open spec fn bytes(self) -> nat {
        match self {
            MemSize::Byte => 1,
            MemSize::Half => 2,
            MemSize::Word => 4,
            MemSize::DWord => 8,
        }
    }

    /// Extract the memory size from an opcode; every opcode names one.
    pub fn from_opcode(opcode: u8) -> (r: Option<Self>)
        ensures
            r == Some(mem_size_of(opcode & 0x18)),
    {
        let bits = opcode & 0x18;
        assert(bits == 0 || bits == 8 || bits == 0x10 || bits == 0x18) by (bit_vector)
            requires
                bits == opcode & 0x18,
        ;
        if bits == 0x00 {
            Some(MemSize::Word)
        } else if bits == 0x08 {
            Some(MemSize::Half)
        } else if bits == 0x10 {
            Some(MemSize::Byte)
        } else {
            Some(MemSize::DWord)
        }
    }

    /// Get the size in bytes.
    pub fn size_bytes(self) -> (r: usize)
        ensures
            r == self.bytes(),
    {
        match self {
            MemSize::Byte => 1,
            MemSize::Half => 2,
            MemSize::Word => 4,
            MemSize::DWord => 8,
        }
    }
}

/// Memory access mode (bits 5-7 of the opcode for the memory classes).
#[derive(Debug, Clone, Copy, PartialEq, Eq, Hash, Structural)]
pub enum MemMode {
    /// Immediate (LD class)
    Imm,
    /// Absolute address
    Abs,
    /// Indirect address
    Ind,
    /// Memory at register + offset
    Mem,
    /// Atomic operations
    Atomic,
}

/// The memory mode named by bits 5-7 (already masked with 0xe0).
pub open spec fn mem_mode_of(bits: u8) -> Option<MemMode> {
    if bits == 0x00 {
        Some(MemMode::Imm)
    } else if bits == 0x20 {
        Some(MemMode::Abs)
    } else if bits == 0x40 {
        Some(MemMode::Ind)
    } else if bits == 0x60 {
        Some(MemMode::Mem)
    } else if bits == 0xc0 {
        Some(MemMode::Atomic)
    } else {
        None
    }
}

impl MemMode {
    /// Extract the memory mode from an opcode.
    pub fn from_opcode(opcode: u8) -> (r: Option<Self>)
        ensures
            r == mem_mode_of(opcode & 0xe0),
    {
        let bits = opcode & 0xe0;
        if bits == 0x00 {
            Some(MemMode::Imm)
        } else if bits == 0x20 {
            Some(MemMode::Abs)
        } else if bits == 0x40 {
            Some(MemMode::Ind)
        } else if bits == 0x60 {
            Some(MemMode::Mem)
        } else if bits == 0xc0 {
            Some(MemMode::Atomic)
        } else {
            None
        }
    }
}

/// Atomic operation codes (in the imm field of atomic memory operations).
#[derive(Debug, Clone, Copy, PartialEq, Eq, Hash, Structural)]
pub enum AtomicOp {
    Add,
    Or,
    And,
    Xor,
    Xchg,
    Cmpxchg,
}

/// The atomic operation named by bits 4-7 of the immediate (already masked with 0xf0).
pub open spec fn atomic_op_of(bits: u32) -> Option<AtomicOp> {
    if bits == 0x00 {
        Some(AtomicOp::Add)
    } else if bits == 0x40 {
        Some(AtomicOp::Or)
    } else if bits == 0x50 {
        Some(AtomicOp::And)
    } else if bits == 0xa0 {
        Some(AtomicOp::Xor)
    } else if bits == 0xe0 {
        Some(AtomicOp::Xchg)
    } else if bits == 0xf0 {
        Some(AtomicOp::Cmpxchg)
    } else {
        None
    }
}

impl AtomicOp {
    /// Extract the atomic operation from an immediate value.
    pub fn from_imm(imm: i32) -> (r: Option<Self>)
        ensures
            r == atomic_op_of((imm as u32) & 0xf0),
    {
        let bits = (imm as u32) & 0xf0;
        if bits == 0x00 {
            Some(AtomicOp::Add)
        } else if bits == 0x40 {
            Some(AtomicOp::Or)
        } else if bits == 0x50 {
            Some(AtomicOp::And)
        } else if bits == 0xa0 {
            Some(AtomicOp::Xor)
        } else if bits == 0xe0 {
            Some(AtomicOp::Xchg)
        } else if bits == 0xf0 {
            Some(AtomicOp::Cmpxchg)
        } else {
            None
        }
    }

    /// Check if this operation returns the old value.
    pub fn fetches_value(self) -> (r: bool)
        ensures
            r == (self is Xchg || self is Cmpxchg),
    {
        matches!(self, AtomicOp::Xchg | AtomicOp::Cmpxchg)
    }
}

/// Decoded opcode information.
#[derive(Debug, Clone, Copy)]
pub struct DecodedOpcode {
    /// Raw opcode byte
    pub raw: u8,
    /// Instruction class
    pub class: OpcodeClass,
    /// Source type (immediate or register)
    pub source: SourceType,
}

impl DecodedOpcode {
    /// Decode an opcode byte.
    pub fn decode(opcode: u8) -> (r: Option<Self>)
        ensures
            r is Some,
            r.unwrap().raw == opcode,
            r.unwrap().class == class_of_bits(opcode & 0x07),
            r.unwrap().source == (if opcode & 0x08 != 0 { SourceType::Reg } else { SourceType::Imm }),
    {
        let class = match OpcodeClass::from_opcode(opcode) {
            Some(c) => c,
            None => return None,
        };
        let source = SourceType::from_opcode(opcode);
        Some(DecodedOpcode { raw: opcode, class, source })
    }
}

} // verus!
