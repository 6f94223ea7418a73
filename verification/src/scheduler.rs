//! Scheduling of BPF program executions.
//!
//! Requests are admitted into a bounded ready queue; a policy then picks
//! the next program to run. The cloud profile picks by priority (first come
//! first served within a level); the embedded profile picks the earliest
//! deadline first and counts deadline misses.
use vstd::prelude::*;

use crate::bytecode::program::BpfProgram;
use crate::execution::BpfContext;
use crate::profile::PhysicalProfile;
use std::sync::Arc;

pub mod deadline;
pub mod policy;
pub mod queue;
pub mod throughput;

pub use deadline::{Deadline, DeadlinePolicy, EnergyBudget};
pub use policy::{BpfPolicy, ExecPriority, SchedError, SchedResult};
pub use queue::{BpfQueue, QueuedProgram, QUEUE_CAPACITY};
pub use throughput::ThroughputPolicy;

verus! {

/// Identifier of a loaded program.
#[derive(Debug, Clone, Copy, PartialEq, Eq, Hash, Structural)]
pub struct ProgId(pub u64);

/// A request to execute a program.
pub struct BpfExecRequest<P: PhysicalProfile> {
    /// The program's identifier
    pub id: ProgId,
    /// The program to run
    pub program: Arc<BpfProgram<P>>,
    /// The context it runs with
    pub ctx: BpfContext,
    /// Its priority
    pub priority: ExecPriority,
    /// Its deadline, if it has one
    pub deadline: Option<Deadline>,
}

impl<P: PhysicalProfile> BpfExecRequest<P> {
    /// A request at normal priority and without a deadline.
    pub fn new(id: ProgId, program: Arc<BpfProgram<P>>, ctx: BpfContext) -> (r: Self)
        ensures
            r.id == id,
            r.program == program,
            r.ctx == ctx,
            r.priority == ExecPriority::Normal,
            r.deadline is None,
    {
        BpfExecRequest { id, program, ctx, priority: ExecPriority::Normal, deadline: None }
    }

    /// The same request at another priority.
    pub fn with_priority(self, priority: ExecPriority) -> (r: Self)
        ensures
            r == (BpfExecRequest { priority, ..self }),
    {
        BpfExecRequest { priority, ..self }
    }
}

} // verus!
