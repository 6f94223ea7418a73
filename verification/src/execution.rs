//! Execution of BPF programs.
//!
//! The interpreter is available in every profile; the JIT executors fall
//! back to it. A running program reaches the rest of the kernel (packet
//! memory, helper functions, the addresses at which its context and stack
//! live) only through a [`BpfEnvironment`].
pub mod accepted;
pub mod arm64_conditions;
pub mod interpreter;
pub mod jit;
pub mod jit_aarch64;

use vstd::prelude::*;

use crate::bytecode::program::BpfProgram;
use crate::execution::interpreter::Interpreter;
use crate::profile::PhysicalProfile;

verus! {

/// Execution context passed to a program: the addresses of its packet
/// data, of the end of that data, and of its metadata.
#[derive(Debug, Clone, Copy)]
pub struct BpfContext {
    /// Address of the start of the data
    pub data: u64,
    /// Address just past the end of the data
    pub data_end: u64,
    /// Address of the packet metadata
    pub data_meta: u64,
}

impl BpfContext {
    /// A context with no data.
    pub fn empty() -> (r: Self)
        ensures
            r.data == 0,
            r.data_end == 0,
            r.data_meta == 0,
    {
        BpfContext { data: 0, data_end: 0, data_meta: 0 }
    }

    /// The length of the data: zero when either bound is null.
    pub fn data_len(&self) -> (r: usize)
        ensures
            r == (if self.data == 0 || self.data_end == 0 {
                0
            } else {
                self.data_end.wrapping_sub(self.data) as usize
            }),
    {
        if self.data == 0 || self.data_end == 0 {
            0
        } else {
            self.data_end.wrapping_sub(self.data) as usize
        }
    }
}

/// Errors of program execution.
#[derive(Debug, Clone, Copy, PartialEq, Eq, Structural)]
pub enum BpfError {
    /// Division by zero
    DivisionByZero,
    /// Out of bounds memory access
    OutOfBounds,
    /// Stack overflow
    StackOverflow,
    /// Invalid helper function
    InvalidHelper(i32),
    /// Execution timeout (instruction limit exceeded)
    Timeout,
    /// Invalid instruction
    InvalidInstruction,
    /// Program not loaded
    NotLoaded,
}

/// Result of program execution: R0 on exit, or the error.
pub type BpfResult = Result<u64, BpfError>;

/// A request a run makes of the kernel: the addresses of the context and
/// the stack it starts with, a packet read, or a helper call with the
/// arguments the helper receives (unused ones zero).
#[derive(Debug, Clone, Copy, PartialEq, Eq, Structural)]
pub enum EnvRequest {
    /// The address of the context with these fields
    ContextAddress { data: u64, data_end: u64, data_meta: u64 },
    /// The address of the first byte of a stack of `size` bytes
    StackAddress { size: usize },
    /// Read `size` bytes of packet memory at `addr`
    Read { addr: u64, size: usize },
    /// Call helper `id`
    Helper { id: i32, a1: u64, a2: u64, a3: u64, a4: u64 },
}

/// What a running program needs from the kernel around it. The kernel
/// provides these; nothing here promises what they return. Each kernel
/// names its answers with `answers`: an answer is tied to the request that
/// the program made for it, and to nothing else.
pub trait BpfEnvironment {
    /// `v` is this kernel's answer to `req`.
    spec fn answers(&self, req: EnvRequest, v: u64) -> bool;

    /// The address at which `ctx` lives; the program receives it in R1.
    fn context_address(&self, ctx: &BpfContext) -> (r: u64)
        ensures
            self.answers(
                EnvRequest::ContextAddress { data: ctx.data, data_end: ctx.data_end, data_meta: ctx.data_meta },
                r,
            ),
    ;

    /// The address of the first byte of `stack`; R10 points just past it.
    fn stack_address(&self, stack: &[u8]) -> (r: u64)
        ensures
            self.answers(EnvRequest::StackAddress { size: stack@.len() as usize }, r),
    ;

    /// Read `size` bytes (1, 2, 4 or 8) of packet memory at `addr`.
    fn read(&self, addr: u64, size: usize) -> (r: u64)
        ensures
            self.answers(EnvRequest::Read { addr, size }, r),
    ;

    /// Helper 1: the current time in nanoseconds.
    fn ktime_get_ns(&self) -> (r: u64)
        ensures
            self.answers(EnvRequest::Helper { id: 1, a1: 0, a2: 0, a3: 0, a4: 0 }, r),
    ;

    /// Helper 2: print a trace message.
    fn trace_printk(&self, fmt: u64, size: u32) -> (r: i32)
        ensures
            self.answers(EnvRequest::Helper { id: 2, a1: fmt, a2: size as u64, a3: 0, a4: 0 }, r as u64),
    ;

    /// Helper 3: look up a map element; the address of its value, or 0.
    fn map_lookup_elem(&self, map_id: u32, key: u64) -> (r: u64)
        ensures
            self.answers(EnvRequest::Helper { id: 3, a1: map_id as u64, a2: key, a3: 0, a4: 0 }, r),
    ;

    /// Helper 4: insert or update a map element.
    fn map_update_elem(&self, map_id: u32, key: u64, value: u64, flags: u64) -> (r: i32)
        ensures
            self.answers(
                EnvRequest::Helper { id: 4, a1: map_id as u64, a2: key, a3: value, a4: flags },
                r as u64,
            ),
    ;

    /// Helper 5: delete a map element.
    fn map_delete_elem(&self, map_id: u32, key: u64) -> (r: i32)
        ensures
            self.answers(EnvRequest::Helper { id: 5, a1: map_id as u64, a2: key, a3: 0, a4: 0 }, r as u64),
    ;

    /// Helper 6: write a record into a ring buffer.
    fn ringbuf_output(&self, map_id: u32, data: u64, size: u64, flags: u64) -> (r: i64)
        ensures
            self.answers(
                EnvRequest::Helper { id: 6, a1: map_id as u64, a2: data, a3: size, a4: flags },
                r as u64,
            ),
    ;
}

/// An execution engine for programs of profile `P`.
pub trait BpfExecutor<P: PhysicalProfile> {
    /// Run `program` on `ctx` in `env`: R0 on exit, or the error.
    fn execute<E: BpfEnvironment>(&self, program: &BpfProgram<P>, ctx: &BpfContext, env: &E) -> BpfResult;
}


/// The default executor for a profile: the interpreter.
pub fn default_executor<P: PhysicalProfile>() -> (r: Interpreter<P>) {
    Interpreter::new()
}

/// Built-in helper functions.
#[derive(Debug, Clone, Copy, PartialEq, Eq, Structural)]
pub enum HelperFunc {
    /// Unspec / invalid
    Unspec,
    /// Get current time in nanoseconds
    KtimeGetNs,
    /// Print debug message (trace_printk)
    TracePrintk,
    /// Get pseudo-random number
    GetPrandomU32,
    /// Get current SMP processor ID
    GetSmpProcessorId,
    /// Map lookup element
    MapLookupElem,
    /// Map update element
    MapUpdateElem,
    /// Map delete element
    MapDeleteElem,
    /// Probe read (safe memory read)
    ProbeRead,
    /// Get current PID/TID
    GetCurrentPidTgid,
    /// Get current UID/GID
    GetCurrentUidGid,
    /// Get current comm (process name)
    GetCurrentComm,
}

impl HelperFunc {
    /// The helper's number.
    pub open spec fn spec_id(self) -> i32 {
        match self {
            HelperFunc::Unspec => 0,
            HelperFunc::KtimeGetNs => 1,
            HelperFunc::TracePrintk => 2,
            HelperFunc::GetPrandomU32 => 3,
            HelperFunc::GetSmpProcessorId => 4,
            HelperFunc::MapLookupElem => 5,
            HelperFunc::MapUpdateElem => 6,
            HelperFunc::MapDeleteElem => 7,
            HelperFunc::ProbeRead => 8,
            HelperFunc::GetCurrentPidTgid => 9,
            HelperFunc::GetCurrentUidGid => 10,
            HelperFunc::GetCurrentComm => 11,
        }
    }

    /// The helper's number.
    pub fn id(&self) -> (r: i32)
        ensures
            r == self.spec_id(),
    {
        match self {
            HelperFunc::Unspec => 0,
            HelperFunc::KtimeGetNs => 1,
            HelperFunc::TracePrintk => 2,
            HelperFunc::GetPrandomU32 => 3,
            HelperFunc::GetSmpProcessorId => 4,
            HelperFunc::MapLookupElem => 5,
            HelperFunc::MapUpdateElem => 6,
            HelperFunc::MapDeleteElem => 7,
            HelperFunc::ProbeRead => 8,
            HelperFunc::GetCurrentPidTgid => 9,
            HelperFunc::GetCurrentUidGid => 10,
            HelperFunc::GetCurrentComm => 11,
        }
    }

    /// Whether this helper is allowed for profile `P`: every helper is.
    pub fn is_allowed_for_profile<P: PhysicalProfile>(&self) -> (r: bool)
        ensures
            r,
    {
        match self {
            HelperFunc::TracePrintk | HelperFunc::ProbeRead => true,
            _ => true,
        }
    }
}

} // verus!
