//! JIT compilation to native x86_64 code, for the cloud profile.
//!
//! Compilation is not implemented yet: every compile reports so, and
//! execution falls back to the interpreter.
use vstd::prelude::*;

use crate::bytecode::program::BpfProgram;
use crate::execution::interpreter::{program_answered, program_result, Interpreter};
use crate::execution::{BpfContext, BpfEnvironment, BpfExecutor, BpfResult};
use crate::profile::{CloudProfile, PhysicalProfile};
use core::marker::PhantomData;

verus! {

/// A program compiled to native code.
pub struct JitProgram {
    _code: (),
    _entry: usize,
}

/// JIT compiler and executor.
pub struct JitExecutor {
    _private: PhantomData<()>,
}

/// JIT compilation errors.
#[derive(Debug, Clone, Copy, PartialEq, Eq, Structural)]
pub enum JitError {
    /// JIT compilation is not yet implemented
    NotImplemented,
    /// Failed to allocate executable memory
    AllocationFailed,
    /// Code generation failed
    CodegenFailed,
    /// Unsupported instruction
    UnsupportedInstruction,
}

impl JitExecutor {
    /// Create a JIT executor.
    pub fn new() -> (r: Self) {
        JitExecutor { _private: PhantomData }
    }

    /// Compile a program to native code: not implemented yet.
    pub fn compile(&self, _program: &BpfProgram<CloudProfile>) -> (r: Result<JitProgram, JitError>)
        ensures
            r == Err::<JitProgram, JitError>(JitError::NotImplemented),
    {
        Err(JitError::NotImplemented)
    }
}

impl Default for JitExecutor {
    fn default() -> (r: Self) {
        JitExecutor::new()
    }
}

impl BpfExecutor<CloudProfile> for JitExecutor {
    /// Run a program: compilation fails, so the interpreter runs it.
    fn execute<E: BpfEnvironment>(
        &self,
        program: &BpfProgram<CloudProfile>,
        ctx: &BpfContext,
        env: &E,
    ) -> (r: BpfResult)
        ensures
            exists|ctx_addr: u64, stack_addr: u64, answers: Seq<u64>|
                r == #[trigger] program_result(
                    program.insns(),
                    *ctx,
                    CloudProfile::MAX_INSN_COUNT,
                    CloudProfile::MAX_STACK_SIZE,
                    ctx_addr,
                    stack_addr,
                    answers,
                ) && program_answered(
                    env,
                    program.insns(),
                    *ctx,
                    CloudProfile::MAX_INSN_COUNT,
                    CloudProfile::MAX_STACK_SIZE,
                    ctx_addr,
                    stack_addr,
                    answers,
                ),
    {
        match self.compile(program) {
            Ok(_jit_prog) => {
                let interp = Interpreter::<CloudProfile>::new();
                interp.execute(program, ctx, env)
            },
            Err(_) => {
                let interp = Interpreter::<CloudProfile>::new();
                interp.execute(program, ctx, env)
            },
        }
    }
}

} // verus!
