//! BPF register file.
//!
//! eBPF has 11 64-bit registers (R0-R10):
//! - R0: return value from helpers and from the program
//! - R1-R5: helper arguments (caller-saved)
//! - R6-R9: callee-saved
//! - R10: frame pointer (read-only)
use vstd::prelude::*;

verus! {

/// Number of BPF registers.
pub const REGISTER_COUNT: usize = 11;

/// BPF register identifiers.
#[derive(Debug, Clone, Copy, PartialEq, Eq, Hash, Structural)]
pub enum Register {
    R0,
    R1,
    R2,
    R3,
    R4,
    R5,
    R6,
    R7,
    R8,
    R9,
    R10,
}

/// The register with number `n` (meaningful for `n < 11`).
pub open spec fn reg_of(n: u8) -> Register {
    if n == 0 {
        Register::R0
    } else if n == 1 {
        Register::R1
    } else if n == 2 {
        Register::R2
    } else if n == 3 {
        Register::R3
    } else if n == 4 {
        Register::R4
    } else if n == 5 {
        Register::R5
    } else if n == 6 {
        Register::R6
    } else if n == 7 {
        Register::R7
    } else if n == 8 {
        Register::R8
    } else if n == 9 {
        Register::R9
    } else {
        Register::R10
    }
}

impl Register {
    /// Total number of BPF registers.
    pub const COUNT: usize = 11;

    /// Register number.
    pub open spec fn index(self) -> u8 {
        match self {
            Register::R0 => 0,
            Register::R1 => 1,
            Register::R2 => 2,
            Register::R3 => 3,
            Register::R4 => 4,
            Register::R5 => 5,
            Register::R6 => 6,
            Register::R7 => 7,
            Register::R8 => 8,
            Register::R9 => 9,
            Register::R10 => 10,
        }
    }

    /// Create a register from its number; `None` for numbers of 11 and above.
    pub fn from_raw(value: u8) -> (r: Option<Self>)
        ensures
            value < 11 ==> r == Some(reg_of(value)) && r.unwrap().index() == value,
            value >= 11 ==> r is None,
    {
        match value {
            0 => Some(Register::R0),
            1 => Some(Register::R1),
            2 => Some(Register::R2),
            3 => Some(Register::R3),
            4 => Some(Register::R4),
            5 => Some(Register::R5),
            6 => Some(Register::R6),
            7 => Some(Register::R7),
            8 => Some(Register::R8),
            9 => Some(Register::R9),
            10 => Some(Register::R10),
            _ => None,
        }
    }

    /// Get the register number.
    pub fn as_raw(self) -> (r: u8)
        ensures
            r == self.index(),
            r < 11,
    {
        match self {
            Register::R0 => 0,
            Register::R1 => 1,
            Register::R2 => 2,
            Register::R3 => 3,
            Register::R4 => 4,
            Register::R5 => 5,
            Register::R6 => 6,
            Register::R7 => 7,
            Register::R8 => 8,
            Register::R9 => 9,
            Register::R10 => 10,
        }
    }

    /// Register number as an index into a register array.
    pub fn as_index(self) -> (r: usize)
        ensures
            r == self.index(),
            r < 11,
    {
        self.as_raw() as usize
    }

    /// Check if this is a caller-saved (scratch) register: R0-R5.
    pub fn is_caller_saved(self) -> (r: bool)
        ensures
            r == (self.index() <= 5),
    {
        self.as_raw() <= 5
    }

    /// Check if this is a callee-saved register: R6-R9.
    pub fn is_callee_saved(self) -> (r: bool)
        ensures
            r == (6 <= self.index() <= 9),
    {
        let val = self.as_raw();
        val >= 6 && val <= 9
    }

    pub open spec fn spec_is_frame_pointer(self) -> bool {
        self is R10
    }

    /// Check if this is the frame pointer R10.
    #[verifier::when_used_as_spec(spec_is_frame_pointer)]
    pub fn is_frame_pointer(self) -> (r: bool)
        ensures
            r == (self is R10),
    {
        matches!(self, Register::R10)
    }

    /// Check if this register can be written to: all but R10.
    pub fn is_writable(self) -> (r: bool)
        ensures
            r == !(self is R10),
    {
        !self.is_frame_pointer()
    }

    /// Textual name, such as `r3`.
    pub fn name(self) -> (r: &'static str)
        ensures
            r == match self {
                Register::R0 => "r0",
                Register::R1 => "r1",
                Register::R2 => "r2",
                Register::R3 => "r3",
                Register::R4 => "r4",
                Register::R5 => "r5",
                Register::R6 => "r6",
                Register::R7 => "r7",
                Register::R8 => "r8",
                Register::R9 => "r9",
                Register::R10 => "r10",
            },
    {
        match self {
            Register::R0 => "r0",
            Register::R1 => "r1",
            Register::R2 => "r2",
            Register::R3 => "r3",
            Register::R4 => "r4",
            Register::R5 => "r5",
            Register::R6 => "r6",
            Register::R7 => "r7",
            Register::R8 => "r8",
            Register::R9 => "r9",
            Register::R10 => "r10",
        }
    }

    /// Create a register from its number, reporting the number when it is invalid.
    pub fn try_from_raw(value: u8) -> (r: Result<Self, InvalidRegister>)
        ensures
            value < 11 ==> r == Ok::<Register, InvalidRegister>(reg_of(value)),
            value >= 11 ==> r == Err::<Register, InvalidRegister>(InvalidRegister(value)),
    {
        match Register::from_raw(value) {
            Some(r) => Ok(r),
            None => Err(InvalidRegister(value)),
        }
    }
}

/// Error returned when creating a register from an invalid number.
#[derive(Debug, Clone, Copy, PartialEq, Eq)]
pub struct InvalidRegister(pub u8);

/// BPF register file containing all 11 registers.
#[derive(Clone, Debug)]
pub struct RegisterFile {
    values: [u64; 11],
}

impl View for RegisterFile {
    type V = Seq<u64>;

    closed spec fn view(&self) -> Seq<u64> {
        self.values@
    }
}

impl RegisterFile {
    /// The register file holds exactly 11 values.
    pub proof fn lemma_len(&self)
        ensures
            self@.len() == 11,
    {
    }

    /// Create a register file with all registers zero.
    pub fn new() -> (r: Self)
        ensures
            r@ == Seq::new(11, |i: int| 0u64),
    {
        let r = RegisterFile { values: [0u64; 11] };
        assert(r@ =~= Seq::new(11, |i: int| 0u64));
        r
    }

    /// Get the value of a register.
    pub fn get(&self, reg: Register) -> (r: u64)
        ensures
            r == self@[reg.index() as int],
            self@.len() == 11,
    {
        self.values[reg.as_index()]
    }

    /// Set the value of a register.
    ///
    /// Writing R10 is a misuse that debug builds of the kernel trap; the
    /// contract leaves that input out.
    pub fn set(&mut self, reg: Register, value: u64)
        requires
            !(reg is R10),
        ensures
            final(self)@ == old(self)@.update(reg.index() as int, value),
            old(self)@.len() == 11,
            final(self)@.len() == 11,
    {
        self.values[reg.as_index()] = value;
    }

    /// A mutable reference to the value of a register other than R10;
    /// what is written through it becomes the register's value.
    ///
    /// Taking one for R10 is a misuse that debug builds of the kernel trap;
    /// the contract leaves that input out.
    pub fn get_mut(&mut self, reg: Register) -> (r: &mut u64)
        requires
            !(reg is R10),
        ensures
            *r == old(self)@[reg.index() as int],
            final(self)@ == old(self)@.update(reg.index() as int, *final(r)),
    {
        &mut self.values[reg.as_index()]
    }

    /// Set the value of any register, R10 included.
    pub fn set_unchecked(&mut self, reg: Register, value: u64)
        ensures
            final(self)@ == old(self)@.update(reg.index() as int, value),
            old(self)@.len() == 11,
            final(self)@.len() == 11,
    {
        self.values[reg.as_index()] = value;
    }

    /// Initialize registers for program entry: all zero but R1 (context
    /// pointer) and R10 (frame pointer).
    pub fn init_for_entry(&mut self, ctx_ptr: u64, frame_ptr: u64)
        ensures
            final(self)@ == Seq::new(11, |i: int| 0u64).update(1, ctx_ptr).update(10, frame_ptr),
    {
        self.values = [0u64; 11];
        self.values[1] = ctx_ptr;
        self.values[10] = frame_ptr;
        assert(self@ =~= Seq::new(11, |i: int| 0u64).update(1, ctx_ptr).update(10, frame_ptr));
    }

    /// Get the return value (R0).
    pub fn return_value(&self) -> (r: u64)
        ensures
            r == self@[0],
    {
        self.get(Register::R0)
    }

    /// Get the context pointer (R1).
    pub fn context_ptr(&self) -> (r: u64)
        ensures
            r == self@[1],
    {
        self.get(Register::R1)
    }

    /// Get the frame pointer (R10).
    pub fn frame_ptr(&self) -> (r: u64)
        ensures
            r == self@[10],
    {
        self.get(Register::R10)
    }

    /// All register values.
    pub fn as_slice(&self) -> (r: &[u64; 11])
        ensures
            r@ == self@,
    {
        &self.values
    }
}

impl Default for RegisterFile {
    fn default() -> (r: Self)
        ensures
            r@ == Seq::new(11, |i: int| 0u64),
    {
        RegisterFile::new()
    }
}

} // verus!
