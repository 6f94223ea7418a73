//! Priorities, scheduling errors and the policy interface.
use vstd::prelude::*;

use crate::profile::PhysicalProfile;
use crate::scheduler::queue::{BpfQueue, QueuedProgram, QUEUE_CAPACITY};

verus! {

/// Execution priority, from lowest to highest.
#[derive(Debug, Clone, Copy, PartialEq, Eq, PartialOrd, Ord, Hash, Structural)]
pub enum ExecPriority {
    /// Background execution
    Low,
    /// The default
    Normal,
    /// Elevated
    High,
    /// Critical execution
    Critical,
}

impl ExecPriority {
    /// The rank of a priority: 0 for `Low` up to 3 for `Critical`.
    pub open spec fn rank(self) -> u8 {
        match self {
            ExecPriority::Low => 0,
            ExecPriority::Normal => 1,
            ExecPriority::High => 2,
            ExecPriority::Critical => 3,
        }
    }

    /// The rank of this priority; a higher rank runs first.
    pub fn level(self) -> (r: u8)
        ensures
            r == self.rank(),
    {
        match self {
            ExecPriority::Low => 0,
            ExecPriority::Normal => 1,
            ExecPriority::High => 2,
            ExecPriority::Critical => 3,
        }
    }
}

/// Priorities are strictly ordered: Low ranks below Normal, Normal below
/// High, High below Critical.
pub proof fn lemma_priority_order()
    ensures
        ExecPriority::Low.rank() < ExecPriority::Normal.rank(),
        ExecPriority::Normal.rank() < ExecPriority::High.rank(),
        ExecPriority::High.rank() < ExecPriority::Critical.rank(),
{
}

impl Default for ExecPriority {
    fn default() -> (r: Self)
        ensures
            r == ExecPriority::Normal,
    {
        ExecPriority::Normal
    }
}

/// Scheduling errors.
#[derive(Debug, Clone, Copy, PartialEq, Eq, Structural)]
pub enum SchedError {
    /// The queue is full
    QueueFull,
    /// The program was not found
    NotFound,
    /// The deadline has already passed
    InvalidDeadline,
    /// A deadline was missed
    DeadlineMiss,
}

impl SchedError {
    /// A human-readable description of the error.
    pub fn message(&self) -> (r: &'static str)
        ensures
            r == match *self {
                SchedError::QueueFull => "scheduler queue is full",
                SchedError::NotFound => "program not found",
                SchedError::InvalidDeadline => "invalid deadline",
                SchedError::DeadlineMiss => "deadline miss detected",
            },
    {
        match self {
            SchedError::QueueFull => "scheduler queue is full",
            SchedError::NotFound => "program not found",
            SchedError::InvalidDeadline => "invalid deadline",
            SchedError::DeadlineMiss => "deadline miss detected",
        }
    }
}

/// Result of a scheduling operation.
pub type SchedResult<T> = Result<T, SchedError>;

/// A scheduling policy: how the next program is taken from the ready queue
/// and which programs may enter it.
pub trait BpfPolicy<P: PhysicalProfile> {
    /// Take the next program to run out of the queue, or `None` when none
    /// should run. A program that is taken is removed from its place; the
    /// others keep their order.
    fn select(&mut self, queue: &mut BpfQueue<P>) -> (r: Option<QueuedProgram<P>>)
        ensures
            r is None ==> final(queue)@ == old(queue)@,
            r is Some ==> exists|i: int|
                0 <= i < old(queue)@.len() && old(queue)@[i] == r.unwrap()
                    && final(queue)@ == old(queue)@.remove(i),
    ;

    /// Whether `program` may be added to `queue`; a full queue admits nothing.
    fn check_admission(&self, queue: &BpfQueue<P>, program: &QueuedProgram<P>) -> (r: SchedResult<()>)
        ensures
            queue@.len() >= QUEUE_CAPACITY ==> r == Err::<(), SchedError>(SchedError::QueueFull),
    ;
}

} // verus!
