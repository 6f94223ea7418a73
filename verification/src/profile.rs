//! Build-time physical profiles.
//!
//! Cloud and embedded deployments share one source; a profile type fixes the
//! physical assumptions (stack ceiling, instruction budget, memory strategy,
//! scheduling policy and failure semantics) that the rest of the subsystem
//! is allowed to make.
pub mod failure;
pub mod memory;
pub mod scheduler;

use vstd::prelude::*;

use crate::profile::failure::{FailureSemantic, RecoveryRequired, RestartAcceptable};
use crate::profile::memory::{ElasticMemory, MemoryStrategy, StaticMemory};
use crate::profile::scheduler::{DeadlineAware, SchedulerPolicy, ThroughputOptimized};

verus! {

/// A physical deployment profile.
pub trait PhysicalProfile {
    /// Memory strategy of the profile.
    type MemoryStrategy: MemoryStrategy;

    /// Scheduling policy of the profile.
    type Scheduler: SchedulerPolicy;

    /// Failure semantics of the profile.
    type Failure: FailureSemantic;

    /// Maximum BPF stack size in bytes.
    const MAX_STACK_SIZE: usize;

    /// Maximum number of instructions in a program, and the execution
    /// budget of the interpreter.
    const MAX_INSN_COUNT: usize;

    /// Whether JIT compilation may be used.
    const JIT_ALLOWED: bool;

    /// Whether the strict embedded constraints apply at verification:
    /// no loops and no dynamically allocating helpers.
    const STRICT_CONSTRAINTS: bool;

    /// Every profile keeps its limits within what an instruction index, a
    /// jump target and a stack offset can address.
    proof fn lemma_limits()
        ensures
            0 < Self::MAX_INSN_COUNT <= 0x100_0000,
            Self::MAX_STACK_SIZE <= 0x1000_0000,
    ;
}

/// Cloud profile: elastic resources, JIT, soft latency bounds.
pub struct CloudProfile;

/// Embedded profile: static resources, interpreter, hard deadlines.
pub struct EmbeddedProfile;

impl PhysicalProfile for CloudProfile {
    type MemoryStrategy = ElasticMemory;

    type Scheduler = ThroughputOptimized;

    type Failure = RestartAcceptable;

    const MAX_STACK_SIZE: usize = 524288;

    const MAX_INSN_COUNT: usize = 1000000;

    const JIT_ALLOWED: bool = true;

    const STRICT_CONSTRAINTS: bool = false;

    /// The cloud profile's limits, exactly.
    proof fn lemma_limits()
        ensures
            Self::MAX_STACK_SIZE == 524288,
            Self::MAX_INSN_COUNT == 1000000,
            Self::JIT_ALLOWED,
            !Self::STRICT_CONSTRAINTS,
            ElasticMemory::MEMORY_BUDGET == 0,
    {
        ElasticMemory::lemma_settings();
    }
}

impl PhysicalProfile for EmbeddedProfile {
    type MemoryStrategy = StaticMemory;

    type Scheduler = DeadlineAware;

    type Failure = RecoveryRequired;

    const MAX_STACK_SIZE: usize = 8192;

    const MAX_INSN_COUNT: usize = 100000;

    const JIT_ALLOWED: bool = false;

    const STRICT_CONSTRAINTS: bool = true;

    /// The embedded profile's limits, exactly.
    proof fn lemma_limits()
        ensures
            Self::MAX_STACK_SIZE == 8192,
            Self::MAX_INSN_COUNT == 100000,
            !Self::JIT_ALLOWED,
            Self::STRICT_CONSTRAINTS,
            StaticMemory::MEMORY_BUDGET == 65536,
    {
        StaticMemory::lemma_settings();
    }
}

/// The profile this build is made for: the embedded profile.
pub type ActiveProfile = EmbeddedProfile;

} // verus!
