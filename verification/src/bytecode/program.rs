//! Programs: a typed, size-checked sequence of instructions.
use vstd::prelude::*;

use crate::bytecode::insn::{BpfInsn, OPCODE_EXIT};
use crate::profile::PhysicalProfile;
use core::marker::PhantomData;

verus! {

/// Program type, which decides the attach point and the context layout.
#[derive(Debug, Clone, Copy, PartialEq, Eq, Structural)]
pub enum BpfProgType {
    SocketFilter,
    Kprobe,
    Tracepoint,
    Xdp,
    PerfEvent,
    SchedCls,
}

/// Why a program could not be built.
#[derive(Debug, Clone, Copy, PartialEq, Eq, Structural)]
pub enum ProgramError {
    /// No instructions
    EmptyProgram,
    /// More instructions than the profile allows
    InsnCountExceeded { count: usize, limit: usize },
    /// More stack than the profile allows
    StackSizeExceeded { required: usize, limit: usize },
}

/// The outcome of building a program from `n` instructions and a stack of
/// `stack_size` bytes under limits `max_insns` and `max_stack`.
pub open spec fn program_check(n: nat, stack_size: usize, max_insns: usize, max_stack: usize) -> Result<(), ProgramError> {
    if n == 0 {
        Err(ProgramError::EmptyProgram)
    } else if n > max_insns {
        Err(ProgramError::InsnCountExceeded { count: n as usize, limit: max_insns })
    } else if stack_size > max_stack {
        Err(ProgramError::StackSizeExceeded { required: stack_size, limit: max_stack })
    } else {
        Ok(())
    }
}

/// A BPF program for profile `P`.
pub struct BpfProgram<P: PhysicalProfile> {
    prog_type: BpfProgType,
    insns: Vec<BpfInsn>,
    stack_size: usize,
    _profile: PhantomData<P>,
}

impl<P: PhysicalProfile> BpfProgram<P> {
    /// The instructions.
    pub closed spec fn insns(&self) -> Seq<BpfInsn> {
        self.insns@
    }

    /// The program type.
    pub closed spec fn spec_prog_type(&self) -> BpfProgType {
        self.prog_type
    }

    /// The stack size in bytes.
    pub closed spec fn spec_stack_size(&self) -> usize {
        self.stack_size
    }

    /// Every program is non-empty and within the profile's limits.
    #[verifier::type_invariant]
    pub closed spec fn wf(&self) -> bool {
        program_check(self.insns@.len(), self.stack_size, P::MAX_INSN_COUNT, P::MAX_STACK_SIZE)
            is Ok
    }

    /// Build a program, checking it is non-empty and within the limits of `P`.
    pub fn new(prog_type: BpfProgType, insns: Vec<BpfInsn>, stack_size: usize) -> (r: Result<Self, ProgramError>)
        ensures
            match program_check(insns@.len(), stack_size, P::MAX_INSN_COUNT, P::MAX_STACK_SIZE) {
                Ok(()) => r matches Ok(p) && p.insns() == insns@ && p.spec_prog_type() == prog_type
                    && p.spec_stack_size() == stack_size && p.wf(),
                Err(e) => r == Err::<Self, ProgramError>(e),
            },
    {
        if insns.len() == 0 {
            return Err(ProgramError::EmptyProgram);
        }
        if insns.len() > P::MAX_INSN_COUNT {
            return Err(ProgramError::InsnCountExceeded { count: insns.len(), limit: P::MAX_INSN_COUNT });
        }
        if stack_size > P::MAX_STACK_SIZE {
            return Err(ProgramError::StackSizeExceeded { required: stack_size, limit: P::MAX_STACK_SIZE });
        }
        Ok(BpfProgram { prog_type, insns, stack_size, _profile: PhantomData })
    }

    /// The instructions.
    pub fn instructions(&self) -> (r: &[BpfInsn])
        ensures
            r@ == self.insns(),
    {
        self.insns.as_slice()
    }

    /// The program type.
    pub fn prog_type(&self) -> (r: BpfProgType)
        ensures
            r == self.spec_prog_type(),
    {
        self.prog_type
    }

    /// The stack size in bytes.
    pub fn stack_size(&self) -> (r: usize)
        ensures
            r == self.spec_stack_size(),
    {
        self.stack_size
    }

    /// Number of instructions.
    pub fn len(&self) -> (r: usize)
        ensures
            r == self.insns().len(),
    {
        self.insns.len()
    }

    /// A program is never empty.
    pub proof fn lemma_wf_bounds(&self)
        requires
            self.wf(),
        ensures
            0 < self.insns().len() <= P::MAX_INSN_COUNT,
            self.spec_stack_size() <= P::MAX_STACK_SIZE,
    {
    }
}

/// Incremental construction of a program.
pub struct ProgramBuilder<P: PhysicalProfile> {
    prog_type: BpfProgType,
    insns: Vec<BpfInsn>,
    _profile: PhantomData<P>,
}

impl<P: PhysicalProfile> ProgramBuilder<P> {
    /// The instructions added so far.
    pub closed spec fn pending(&self) -> Seq<BpfInsn> {
        self.insns@
    }

    /// The program type being built.
    pub closed spec fn spec_prog_type(&self) -> BpfProgType {
        self.prog_type
    }

    /// A builder with no instructions.
    pub fn new(prog_type: BpfProgType) -> (r: Self)
        ensures
            r.pending() == Seq::<BpfInsn>::empty(),
            r.spec_prog_type() == prog_type,
    {
        ProgramBuilder { prog_type, insns: Vec::new(), _profile: PhantomData }
    }

    /// Append an instruction.
    pub fn insn(self, insn: BpfInsn) -> (r: Self)
        ensures
            r.pending() == self.pending().push(insn),
            r.spec_prog_type() == self.spec_prog_type(),
    {
        let mut b = self;
        b.insns.push(insn);
        b
    }

    /// Append the exit instruction.
    pub fn exit(self) -> (r: Self)
        ensures
            r.pending() == self.pending().push(
                BpfInsn { opcode: OPCODE_EXIT, regs: 0, offset: 0, imm: 0 },
            ),
            r.spec_prog_type() == self.spec_prog_type(),
    {
        self.insn(BpfInsn::exit())
    }

    /// Build the program with a zero stack size.
    pub fn build(self) -> (r: Result<BpfProgram<P>, ProgramError>)
        ensures
            match program_check(self.pending().len(), 0, P::MAX_INSN_COUNT, P::MAX_STACK_SIZE) {
                Ok(()) => r matches Ok(p) && p.insns() == self.pending() && p.spec_prog_type()
                    == self.spec_prog_type() && p.spec_stack_size() == 0 && p.wf(),
                Err(e) => r == Err::<BpfProgram<P>, ProgramError>(e),
            },
    {
        BpfProgram::new(self.prog_type, self.insns, 0)
    }
}

} // verus!
