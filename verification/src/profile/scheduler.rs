//! Scheduling policy per profile.
//!
//! - Throughput optimized (cloud): best-effort fairness.
//! - Deadline aware (embedded): EDF scheduling, priority ceilings, energy budgets.
use vstd::prelude::*;

verus! {

/// Scheduler policy of a profile.
pub trait SchedulerPolicy {
    /// Whether hard deadline enforcement is required.
    const DEADLINE_ENFORCED: bool;

    /// Whether energy-aware scheduling is required.
    const ENERGY_AWARE: bool;

    /// Whether the priority ceiling protocol is enforced.
    const PRIORITY_CEILING: bool;

    /// Whether preemption is allowed during BPF execution.
    const PREEMPTION_ALLOWED: bool;

    /// Default scheduling quantum in microseconds.
    const DEFAULT_QUANTUM_US: u64;
}

/// Throughput-optimized scheduling (cloud profile).
pub struct ThroughputOptimized;

impl SchedulerPolicy for ThroughputOptimized {
    const DEADLINE_ENFORCED: bool = false;

    const ENERGY_AWARE: bool = false;

    const PRIORITY_CEILING: bool = false;

    const PREEMPTION_ALLOWED: bool = true;

    const DEFAULT_QUANTUM_US: u64 = 10000;
}

/// Deadline-aware scheduling (embedded profile).
pub struct DeadlineAware;

impl SchedulerPolicy for DeadlineAware {
    const DEADLINE_ENFORCED: bool = true;

    const ENERGY_AWARE: bool = true;

    const PRIORITY_CEILING: bool = true;

    const PREEMPTION_ALLOWED: bool = true;

    const DEFAULT_QUANTUM_US: u64 = 1000;
}

/// Priority level of a BPF program; lower values are more urgent.
#[derive(Debug, Clone, Copy, PartialEq, Eq, PartialOrd, Ord, Hash, Structural)]
pub struct Priority(pub u8);

impl Priority {
    /// Highest priority (real-time critical)
    #[allow(non_snake_case)]
    pub fn HIGHEST() -> (r: Priority)
        ensures
            r == Priority(0),
    {
        Priority(0)
    }

    /// High priority
    #[allow(non_snake_case)]
    pub fn HIGH() -> (r: Priority)
        ensures
            r == Priority(64),
    {
        Priority(64)
    }

    /// Default priority
    #[allow(non_snake_case)]
    pub fn DEFAULT() -> (r: Priority)
        ensures
            r == Priority(128),
    {
        Priority(128)
    }

    /// Low priority (background)
    #[allow(non_snake_case)]
    pub fn LOW() -> (r: Priority)
        ensures
            r == Priority(192),
    {
        Priority(192)
    }

    /// Lowest priority (idle)
    #[allow(non_snake_case)]
    pub fn LOWEST() -> (r: Priority)
        ensures
            r == Priority(255),
    {
        Priority(255)
    }
}

impl Default for Priority {
    fn default() -> (r: Self)
        ensures
            r == Priority(128),
    {
        Priority(128)
    }
}

/// Deadline of a BPF program.
#[derive(Debug, Clone, Copy, PartialEq, Eq, Structural)]
pub struct Deadline {
    /// Absolute deadline in nanoseconds from boot
    pub absolute_ns: u64,
    /// Relative deadline from submission
    pub relative_ns: u64,
}

/// `a + b`, capped at `u64::MAX`.
pub open spec fn sat_add(a: u64, b: u64) -> u64 {
    if a + b > u64::MAX {
        u64::MAX
    } else {
        (a + b) as u64
    }
}

/// `a - b`, floored at 0.
pub open spec fn sat_sub(a: u64, b: u64) -> u64 {
    if a >= b {
        (a - b) as u64
    } else {
        0
    }
}

impl Deadline {
    /// A deadline `relative_ns` after `now_ns` (saturating).
    pub fn from_relative(relative_ns: u64, now_ns: u64) -> (r: Self)
        ensures
            r.absolute_ns == sat_add(now_ns, relative_ns),
            r.relative_ns == relative_ns,
    {
        Deadline { absolute_ns: now_ns.saturating_add(relative_ns), relative_ns }
    }

    /// Whether the deadline has passed at `now_ns`.
    pub fn is_missed(&self, now_ns: u64) -> (r: bool)
        ensures
            r == (now_ns > self.absolute_ns),
    {
        now_ns > self.absolute_ns
    }

    /// Time remaining until the deadline, 0 once it is reached.
    pub fn time_remaining(&self, now_ns: u64) -> (r: u64)
        ensures
            r == sat_sub(self.absolute_ns, now_ns),
    {
        self.absolute_ns.saturating_sub(now_ns)
    }
}

/// A missed deadline has no time remaining.
pub proof fn lemma_missed_deadline_has_no_time(d: Deadline, now_ns: u64)
    requires
        now_ns > d.absolute_ns,
    ensures
        sat_sub(d.absolute_ns, now_ns) == 0,
{
}

/// Energy budget in microjoules.
#[derive(Debug, Clone, Copy, PartialEq, Eq, Structural)]
pub struct EnergyBudget {
    /// Maximum energy
    pub max_uj: u64,
    /// Energy consumed so far
    pub consumed_uj: u64,
}

impl EnergyBudget {
    /// A fresh budget of `max_uj`.
    pub fn new(max_uj: u64) -> (r: Self)
        ensures
            r.max_uj == max_uj,
            r.consumed_uj == 0,
    {
        EnergyBudget { max_uj, consumed_uj: 0 }
    }

    /// Whether the budget is used up.
    pub fn is_exhausted(&self) -> (r: bool)
        ensures
            r == (self.consumed_uj >= self.max_uj),
    {
        self.consumed_uj >= self.max_uj
    }

    /// Remaining energy, 0 once exhausted.
    pub fn remaining(&self) -> (r: u64)
        ensures
            r == sat_sub(self.max_uj, self.consumed_uj),
    {
        self.max_uj.saturating_sub(self.consumed_uj)
    }

    /// Consume energy (saturating); true when the total stays within budget.
    pub fn consume(&mut self, amount_uj: u64) -> (r: bool)
        ensures
            final(self).max_uj == old(self).max_uj,
            final(self).consumed_uj == sat_add(old(self).consumed_uj, amount_uj),
            r == (final(self).consumed_uj <= final(self).max_uj),
    {
        self.consumed_uj = self.consumed_uj.saturating_add(amount_uj);
        self.consumed_uj <= self.max_uj
    }
}

/// A budget is exhausted exactly when nothing remains of it.
pub proof fn lemma_exhausted_iff_nothing_remains(b: EnergyBudget)
    ensures
        (b.consumed_uj >= b.max_uj) <==> sat_sub(b.max_uj, b.consumed_uj) == 0,
{
}

/// Information about a missed deadline.
#[derive(Debug, Clone, Copy)]
pub struct DeadlineMiss {
    /// Program that missed its deadline
    pub program_id: u64,
    /// The missed deadline
    pub deadline: Deadline,
    /// Actual completion time
    pub actual_ns: u64,
    /// How far the deadline was exceeded
    pub overrun_ns: u64,
}

} // verus!
