use axiom_kernel::profile::failure::{
    FailureCode, FailureInfo, FailureSemantic, FailureSeverity, RecoveryAction, RecoveryRequired,
    RestartAcceptable,
};
use axiom_kernel::profile::memory::{ElasticMemory, MemoryStrategy, StaticMemory};
use axiom_kernel::profile::scheduler::{
    DeadlineAware, Deadline, EnergyBudget, Priority, SchedulerPolicy, ThroughputOptimized,
};

#[test]
fn restart_acceptable_constants() {
    assert!(RestartAcceptable::RESTART_OK);
    assert!(!RestartAcceptable::RECOVERY_REQUIRED);
    assert!(RestartAcceptable::ISOLATION_REQUIRED);
}

#[test]
fn recovery_required_constants() {
    assert!(!RecoveryRequired::RESTART_OK);
    assert!(RecoveryRequired::RECOVERY_REQUIRED);
    assert!(RecoveryRequired::ISOLATION_REQUIRED);
}

#[test]
fn severity_ordering() {
    assert!(FailureSeverity::Info < FailureSeverity::Warning);
    assert!(FailureSeverity::Warning < FailureSeverity::Error);
    assert!(FailureSeverity::Error < FailureSeverity::Critical);
    assert!(FailureSeverity::Critical < FailureSeverity::Fatal);
}

#[test]
fn recovery_action_for_error() {
    let failure = FailureInfo {
        severity: FailureSeverity::Error,
        code: FailureCode::DivisionByZero,
        program_id: Some(42),
        instruction_ptr: Some(100),
        description: "Division by zero",
    };

    assert_eq!(failure.recovery_action::<RestartAcceptable>(), RecoveryAction::TerminateProgram);
}

#[test]
fn elastic_allows_dynamic_ops() {
    assert!(ElasticMemory::RESIZE_ALLOWED);
    assert!(ElasticMemory::DYNAMIC_ALLOC);
    assert!(ElasticMemory::SHARING_ALLOWED);
    assert_eq!(ElasticMemory::MEMORY_BUDGET, 0);
}

#[test]
fn static_forbids_dynamic_ops() {
    assert!(!StaticMemory::RESIZE_ALLOWED);
    assert!(!StaticMemory::DYNAMIC_ALLOC);
    assert!(!StaticMemory::SHARING_ALLOWED);
    assert!(StaticMemory::MEMORY_BUDGET > 0);
}

#[test]
fn throughput_policy_constants() {
    assert!(!ThroughputOptimized::DEADLINE_ENFORCED);
    assert!(!ThroughputOptimized::ENERGY_AWARE);
    assert!(!ThroughputOptimized::PRIORITY_CEILING);
    assert!(ThroughputOptimized::PREEMPTION_ALLOWED);
}

#[test]
fn deadline_policy_constants() {
    assert!(DeadlineAware::DEADLINE_ENFORCED);
    assert!(DeadlineAware::ENERGY_AWARE);
    assert!(DeadlineAware::PRIORITY_CEILING);
    assert!(DeadlineAware::PREEMPTION_ALLOWED);
}

#[test]
fn scheduler_priority_ordering() {
    assert!(Priority::HIGHEST() < Priority::HIGH());
    assert!(Priority::HIGH() < Priority::DEFAULT());
    assert!(Priority::DEFAULT() < Priority::LOW());
    assert!(Priority::LOW() < Priority::LOWEST());
}

#[test]
fn scheduler_deadline_time_remaining() {
    let deadline = Deadline::from_relative(1000, 5000);
    assert_eq!(deadline.absolute_ns, 6000);
    assert_eq!(deadline.time_remaining(5000), 1000);
    assert_eq!(deadline.time_remaining(6000), 0);
    assert!(!deadline.is_missed(5000));
    assert!(deadline.is_missed(6001));
}

#[test]
fn energy_budget_consumption() {
    let mut budget = EnergyBudget::new(1000);
    assert_eq!(budget.remaining(), 1000);
    assert!(!budget.is_exhausted());

    assert!(budget.consume(500));
    assert_eq!(budget.remaining(), 500);

    assert!(budget.consume(500));
    assert_eq!(budget.remaining(), 0);
    assert!(budget.is_exhausted());

    assert!(!budget.consume(1));
}

#[test]
fn default_priority_is_default_level() {
    assert_eq!(Priority::default(), Priority::DEFAULT());
    assert_eq!(Priority::DEFAULT().0, 128);
}

#[test]
fn failure_code_numbers() {
    assert_ne!(FailureCode::DivisionByZero.as_u16(), FailureCode::Timeout.as_u16());
}
