//! Throughput-oriented scheduling (cloud profile): the highest priority
//! runs first, first come first served within a priority.
use vstd::prelude::*;

use crate::profile::CloudProfile;
use crate::scheduler::policy::{BpfPolicy, SchedError, SchedResult};
use crate::scheduler::queue::{is_highest_priority, BpfQueue, QueuedProgram, QUEUE_CAPACITY};

verus! {

/// Priority scheduling with FIFO order within a priority level.
pub struct ThroughputPolicy {
    exec_count: u64,
}

impl ThroughputPolicy {
    /// Number of programs selected so far, modulo 2^64.
    pub closed spec fn executed(&self) -> u64 {
        self.exec_count
    }

    /// A policy that has selected nothing yet.
    pub fn new() -> (r: Self)
        ensures
            r.executed() == 0,
    {
        ThroughputPolicy { exec_count: 0 }
    }

    /// Number of programs selected so far.
    pub fn exec_count(&self) -> (r: u64)
        ensures
            r == self.executed(),
    {
        self.exec_count
    }
}

impl Default for ThroughputPolicy {
    fn default() -> (r: Self)
        ensures
            r.executed() == 0,
    {
        Self::new()
    }
}

impl BpfPolicy<CloudProfile> for ThroughputPolicy {
    /// Takes the first program of the highest priority; counts it as executed.
    fn select(&mut self, queue: &mut BpfQueue<CloudProfile>) -> (r: Option<QueuedProgram<CloudProfile>>)
        ensures
            old(queue)@.len() == 0 ==> r is None && final(queue)@ == old(queue)@
                && final(self).executed() == old(self).executed(),
            old(queue)@.len() > 0 ==> exists|i: int|
                is_highest_priority(old(queue)@, i) && r == Some(old(queue)@[i])
                    && final(queue)@ == old(queue)@.remove(i),
            old(queue)@.len() > 0 ==> final(self).executed() == old(self).executed().wrapping_add(1),
    {
        let idx = match queue.find_highest_priority() {
            Some(idx) => idx,
            None => return None,
        };
        let program = match queue.remove_at(idx) {
            Some(p) => p,
            None => return None,
        };
        self.exec_count = self.exec_count.wrapping_add(1);
        Some(program)
    }

    /// Accepts any program while the queue has room.
    fn check_admission(&self, queue: &BpfQueue<CloudProfile>, program: &QueuedProgram<CloudProfile>) -> (r: SchedResult<()>)
        ensures
            r is Ok <==> queue@.len() < QUEUE_CAPACITY,
    {
        if queue.is_full() {
            return Err(SchedError::QueueFull);
        }
        Ok(())
    }
}

} // verus!
