//! Failure semantics per profile.
//!
//! - Restart acceptable (cloud): a restart is the normal recovery.
//! - Recovery required (embedded): restart is forbidden; a recovery
//!   partition must take over.
use vstd::prelude::*;

verus! {

/// Failure handling semantics of a profile.
pub trait FailureSemantic {
    /// Whether restart is an acceptable recovery mechanism.
    const RESTART_OK: bool;

    /// Whether a recovery partition is required.
    const RECOVERY_REQUIRED: bool;

    /// Whether BPF program failures are isolated.
    const ISOLATION_REQUIRED: bool;

    /// Whether failures are logged for post-mortem analysis.
    const LOGGING_ENABLED: bool;
}

/// Restart-acceptable semantics (cloud profile).
pub struct RestartAcceptable;

impl FailureSemantic for RestartAcceptable {
    const RESTART_OK: bool = true;

    const RECOVERY_REQUIRED: bool = false;

    const ISOLATION_REQUIRED: bool = true;

    const LOGGING_ENABLED: bool = true;
}

/// Recovery-required semantics (embedded profile).
pub struct RecoveryRequired;

impl FailureSemantic for RecoveryRequired {
    const RESTART_OK: bool = false;

    const RECOVERY_REQUIRED: bool = true;

    const ISOLATION_REQUIRED: bool = true;

    const LOGGING_ENABLED: bool = true;
}

/// Failure severity levels, ordered from least to most severe.
#[derive(Debug, Clone, Copy, PartialEq, Eq, PartialOrd, Ord, Hash, Structural)]
pub enum FailureSeverity {
    /// Informational, not an error
    Info,
    /// Potential issue, operation continues
    Warning,
    /// Operation failed, program terminated
    Error,
    /// Subsystem compromised
    Critical,
    /// System must recover or halt
    Fatal,
}

impl FailureSeverity {
    /// Numeric level: 0 for `Info` up to 4 for `Fatal`.
    pub open spec fn spec_level(self) -> u8 {
        match self {
            FailureSeverity::Info => 0,
            FailureSeverity::Warning => 1,
            FailureSeverity::Error => 2,
            FailureSeverity::Critical => 3,
            FailureSeverity::Fatal => 4,
        }
    }

    /// Numeric level: 0 for `Info` up to 4 for `Fatal`.
    pub fn level(self) -> (r: u8)
        ensures
            r == self.spec_level(),
    {
        match self {
            FailureSeverity::Info => 0,
            FailureSeverity::Warning => 1,
            FailureSeverity::Error => 2,
            FailureSeverity::Critical => 3,
            FailureSeverity::Fatal => 4,
        }
    }
}

/// Failure information for BPF program execution.
#[derive(Debug, Clone)]
pub struct FailureInfo {
    /// Severity of the failure
    pub severity: FailureSeverity,
    /// Error code
    pub code: FailureCode,
    /// Program that failed, if any
    pub program_id: Option<u64>,
    /// Instruction index at failure
    pub instruction_ptr: Option<usize>,
    /// Human-readable description
    pub description: &'static str,
}

/// Failure codes of the BPF subsystem.
#[derive(Debug, Clone, Copy, PartialEq, Eq, Hash, Structural)]
pub enum FailureCode {
    NoFailure,
    InvalidOpcode,
    UninitializedRegister,
    OutOfBounds,
    InfiniteLoop,
    StackOverflow,
    InsnLimitExceeded,
    DivisionByZero,
    InvalidHelper,
    MapError,
    Timeout,
    OutOfMemory,
    ResourceLimit,
    WcetExceeded,
    DeadlineMissed,
    EnergyExhausted,
    InterruptUnsafe,
    InternalError,
    RecoveryNeeded,
}

impl FailureCode {
    /// The numeric code: 1xx verification, 2xx execution, 3xx resources,
    /// 4xx profile-specific, 5xx system.
    pub open spec fn numeric(self) -> u16 {
        match self {
            FailureCode::NoFailure => 0,
            FailureCode::InvalidOpcode => 100,
            FailureCode::UninitializedRegister => 101,
            FailureCode::OutOfBounds => 102,
            FailureCode::InfiniteLoop => 103,
            FailureCode::StackOverflow => 104,
            FailureCode::InsnLimitExceeded => 105,
            FailureCode::DivisionByZero => 200,
            FailureCode::InvalidHelper => 201,
            FailureCode::MapError => 202,
            FailureCode::Timeout => 203,
            FailureCode::OutOfMemory => 300,
            FailureCode::ResourceLimit => 301,
            FailureCode::WcetExceeded => 400,
            FailureCode::DeadlineMissed => 401,
            FailureCode::EnergyExhausted => 402,
            FailureCode::InterruptUnsafe => 403,
            FailureCode::InternalError => 500,
            FailureCode::RecoveryNeeded => 501,
        }
    }

    /// The numeric code of this failure.
    pub fn as_u16(self) -> (r: u16)
        ensures
            r == self.numeric(),
            100 <= r < 600 || r == 0,
    {
        match self {
            FailureCode::NoFailure => 0,
            FailureCode::InvalidOpcode => 100,
            FailureCode::UninitializedRegister => 101,
            FailureCode::OutOfBounds => 102,
            FailureCode::InfiniteLoop => 103,
            FailureCode::StackOverflow => 104,
            FailureCode::InsnLimitExceeded => 105,
            FailureCode::DivisionByZero => 200,
            FailureCode::InvalidHelper => 201,
            FailureCode::MapError => 202,
            FailureCode::Timeout => 203,
            FailureCode::OutOfMemory => 300,
            FailureCode::ResourceLimit => 301,
            FailureCode::WcetExceeded => 400,
            FailureCode::DeadlineMissed => 401,
            FailureCode::EnergyExhausted => 402,
            FailureCode::InterruptUnsafe => 403,
            FailureCode::InternalError => 500,
            FailureCode::RecoveryNeeded => 501,
        }
    }
}

/// Recovery action to take after a failure.
#[derive(Debug, Clone, Copy, PartialEq, Eq, Structural)]
pub enum RecoveryAction {
    /// Continue execution (warning only)
    Continue,
    /// Terminate the BPF program
    TerminateProgram,
    /// Restart the BPF subsystem
    RestartSubsystem,
    /// Invoke the recovery partition
    InvokeRecovery,
    /// System halt (last resort)
    Halt,
}

/// The recovery action owed to a failure of the given severity under the
/// failure semantics described by the two flags.
pub open spec fn recovery_for(
    severity: FailureSeverity,
    restart_ok: bool,
    recovery_required: bool,
) -> RecoveryAction {
    match severity {
        FailureSeverity::Info | FailureSeverity::Warning => RecoveryAction::Continue,
        FailureSeverity::Error => RecoveryAction::TerminateProgram,
        FailureSeverity::Critical => if restart_ok {
            RecoveryAction::RestartSubsystem
        } else {
            RecoveryAction::InvokeRecovery
        },
        FailureSeverity::Fatal => if recovery_required {
            RecoveryAction::InvokeRecovery
        } else {
            RecoveryAction::Halt
        },
    }
}

impl FailureInfo {
    /// Determine the recovery action for this failure.
    pub fn recovery_action<F: FailureSemantic>(&self) -> (r: RecoveryAction)
        ensures
            r == recovery_for(self.severity, F::RESTART_OK, F::RECOVERY_REQUIRED),
    {
        match self.severity {
            FailureSeverity::Info | FailureSeverity::Warning => RecoveryAction::Continue,
            FailureSeverity::Error => RecoveryAction::TerminateProgram,
            FailureSeverity::Critical => {
                if F::RESTART_OK {
                    RecoveryAction::RestartSubsystem
                } else {
                    RecoveryAction::InvokeRecovery
                }
            },
            FailureSeverity::Fatal => {
                if F::RECOVERY_REQUIRED {
                    RecoveryAction::InvokeRecovery
                } else {
                    RecoveryAction::Halt
                }
            },
        }
    }
}

/// Under restart-acceptable semantics no failure ever invokes a recovery
/// partition, and under recovery-required semantics no failure restarts the
/// subsystem.
pub proof fn lemma_recovery_respects_semantics(severity: FailureSeverity)
    ensures
        recovery_for(severity, RestartAcceptable::RESTART_OK, RestartAcceptable::RECOVERY_REQUIRED)
            != RecoveryAction::InvokeRecovery,
        recovery_for(severity, RecoveryRequired::RESTART_OK, RecoveryRequired::RECOVERY_REQUIRED)
            != RecoveryAction::RestartSubsystem,
{
}

} // verus!
