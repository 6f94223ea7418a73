//! Deadline-oriented scheduling (embedded profile): earliest deadline first,
//! falling back to priority for programs without one.
use vstd::prelude::*;

use crate::profile::EmbeddedProfile;
use crate::scheduler::policy::{BpfPolicy, SchedError, SchedResult};
use crate::scheduler::queue::{
    has_deadline, is_earliest_deadline, is_highest_priority, BpfQueue, QueuedProgram, QUEUE_CAPACITY,
};

verus! {

/// A deadline for real-time scheduling.
#[derive(Debug, Clone, Copy, PartialEq, Eq, Structural)]
pub struct Deadline {
    /// Absolute deadline in nanoseconds since boot
    pub absolute_ns: u64,
    /// The deadline relative to submission, for reference
    pub relative_ns: u64,
}

impl Deadline {
    /// A deadline from its absolute and relative values.
    pub fn new(absolute_ns: u64, relative_ns: u64) -> (r: Self)
        ensures
            r.absolute_ns == absolute_ns,
            r.relative_ns == relative_ns,
    {
        Deadline { absolute_ns, relative_ns }
    }

    /// A deadline `deadline_ns` after `now_ns`, the sum saturating at the
    /// largest time.
    pub fn from_now(now_ns: u64, deadline_ns: u64) -> (r: Self)
        ensures
            r.absolute_ns == (if now_ns + deadline_ns > u64::MAX { u64::MAX } else { (now_ns + deadline_ns) as u64 }),
            r.relative_ns == deadline_ns,
    {
        Deadline { absolute_ns: now_ns.saturating_add(deadline_ns), relative_ns: deadline_ns }
    }

    /// Whether the deadline has passed at `now_ns`.
    pub open spec fn expired_at(&self, now_ns: u64) -> bool {
        now_ns >= self.absolute_ns
    }

    /// Whether the deadline has passed at `now_ns`.
    pub fn is_expired(&self, now_ns: u64) -> (r: bool)
        ensures
            r == self.expired_at(now_ns),
    {
        now_ns >= self.absolute_ns
    }

    /// Time left until the deadline, 0 once it has passed.
    pub fn time_remaining(&self, now_ns: u64) -> (r: u64)
        ensures
            r == (if now_ns >= self.absolute_ns { 0 } else { self.absolute_ns - now_ns }),
    {
        self.absolute_ns.saturating_sub(now_ns)
    }
}

/// An energy budget for power-constrained execution.
#[derive(Debug, Clone, Copy, PartialEq, Eq, Structural)]
pub struct EnergyBudget {
    /// Maximum energy in microjoules
    pub max_uj: u64,
}

impl EnergyBudget {
    /// A budget of `max_uj` microjoules.
    pub fn new(max_uj: u64) -> (r: Self)
        ensures
            r.max_uj == max_uj,
    {
        EnergyBudget { max_uj }
    }
}

/// Whether program `q` is past its deadline at `now_ns`; false without one.
pub open spec fn missed<P: crate::profile::PhysicalProfile>(q: QueuedProgram<P>, now_ns: u64) -> bool {
    q.deadline is Some && q.deadline.unwrap().expired_at(now_ns)
}

/// Earliest-deadline-first scheduling that counts deadline misses.
pub struct DeadlinePolicy {
    exec_count: u64,
    deadline_misses: u64,
    current_time_ns: u64,
}

impl DeadlinePolicy {
    /// Number of programs selected so far, modulo 2^64.
    pub closed spec fn executed(&self) -> u64 {
        self.exec_count
    }

    /// Number of selected programs that were past their deadline, modulo 2^64.
    pub closed spec fn misses(&self) -> u64 {
        self.deadline_misses
    }

    /// The policy's notion of the current time.
    pub closed spec fn now(&self) -> u64 {
        self.current_time_ns
    }

    /// A policy at time 0 that has selected nothing yet.
    pub fn new() -> (r: Self)
        ensures
            r.executed() == 0,
            r.misses() == 0,
            r.now() == 0,
    {
        DeadlinePolicy { exec_count: 0, deadline_misses: 0, current_time_ns: 0 }
    }

    /// Number of programs selected so far.
    pub fn exec_count(&self) -> (r: u64)
        ensures
            r == self.executed(),
    {
        self.exec_count
    }

    /// Number of selected programs that were past their deadline.
    pub fn deadline_misses(&self) -> (r: u64)
        ensures
            r == self.misses(),
    {
        self.deadline_misses
    }

    /// Set the current time.
    pub fn update_time(&mut self, now_ns: u64)
        ensures
            final(self).now() == now_ns,
            final(self).executed() == old(self).executed(),
            final(self).misses() == old(self).misses(),
    {
        self.current_time_ns = now_ns;
    }

    /// The current time.
    pub fn current_time(&self) -> (r: u64)
        ensures
            r == self.now(),
    {
        self.current_time_ns
    }

    /// Count a miss when `program` is past its deadline; says whether it was.
    fn check_deadline(&mut self, program: &QueuedProgram<EmbeddedProfile>) -> (r: bool)
        ensures
            r == missed(*program, old(self).now()),
            final(self).misses() == (if r { old(self).misses().wrapping_add(1) } else { old(self).misses() }),
            final(self).executed() == old(self).executed(),
            final(self).now() == old(self).now(),
    {
        match program.deadline {
            Some(d) => {
                if d.is_expired(self.current_time_ns) {
                    self.deadline_misses = self.deadline_misses.wrapping_add(1);
                    return true;
                }
                false
            },
            None => false,
        }
    }
}

impl Default for DeadlinePolicy {
    fn default() -> (r: Self)
        ensures
            r.executed() == 0,
            r.misses() == 0,
            r.now() == 0,
    {
        Self::new()
    }
}

impl BpfPolicy<EmbeddedProfile> for DeadlinePolicy {
    /// Takes the first program with the earliest deadline, or, when none has
    /// a deadline, the first of the highest priority; counts it as executed,
    /// and as a miss when it is already past its deadline.
    fn select(&mut self, queue: &mut BpfQueue<EmbeddedProfile>) -> (r: Option<QueuedProgram<EmbeddedProfile>>)
        ensures
            old(queue)@.len() == 0 ==> r is None && final(queue)@ == old(queue)@ && *final(self) == *old(self),
            old(queue)@.len() > 0 ==> exists|i: int|
                (if has_deadline(old(queue)@) {
                    is_earliest_deadline(old(queue)@, i)
                } else {
                    is_highest_priority(old(queue)@, i)
                }) && r == Some(old(queue)@[i]) && final(queue)@ == old(queue)@.remove(i),
            old(queue)@.len() > 0 ==> final(self).executed() == old(self).executed().wrapping_add(1),
            old(queue)@.len() > 0 ==> final(self).misses() == (if missed(r.unwrap(), old(self).now()) {
                old(self).misses().wrapping_add(1)
            } else {
                old(self).misses()
            }),
            final(self).now() == old(self).now(),
    {
        let idx = match queue.find_earliest_deadline() {
            Some(idx) => idx,
            None => return None,
        };
        let program = match queue.remove_at(idx) {
            Some(p) => p,
            None => return None,
        };
        self.check_deadline(&program);
        self.exec_count = self.exec_count.wrapping_add(1);
        Some(program)
    }

    /// Refuses programs when the queue is full, and programs whose deadline
    /// has already passed.
    fn check_admission(&self, queue: &BpfQueue<EmbeddedProfile>, program: &QueuedProgram<EmbeddedProfile>) -> (r: SchedResult<()>)
        ensures
            queue@.len() >= QUEUE_CAPACITY ==> r == Err::<(), SchedError>(SchedError::QueueFull),
            queue@.len() < QUEUE_CAPACITY && missed(*program, self.now()) ==> r == Err::<(), SchedError>(
                SchedError::InvalidDeadline,
            ),
            queue@.len() < QUEUE_CAPACITY && !missed(*program, self.now()) ==> r is Ok,
    {
        if queue.is_full() {
            return Err(SchedError::QueueFull);
        }
        match program.deadline {
            Some(d) => {
                if d.is_expired(self.current_time_ns) {
                    return Err(SchedError::InvalidDeadline);
                }
            },
            None => {},
        }
        Ok(())
    }
}

} // verus!
