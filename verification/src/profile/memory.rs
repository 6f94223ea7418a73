//! Memory strategy per profile.
//!
//! - Elastic (cloud): dynamic allocation, resizing allowed.
//! - Static (embedded): fixed at init, no runtime allocation.
use vstd::prelude::*;

verus! {

/// Memory allocation strategy.
pub trait MemoryStrategy {
    /// Whether resize operations are allowed.
    const RESIZE_ALLOWED: bool;

    /// Whether dynamic allocation is allowed at runtime.
    const DYNAMIC_ALLOC: bool;

    /// Whether memory can be shared between programs.
    const SHARING_ALLOWED: bool;

    /// Maximum total memory budget in bytes (0 = unlimited).
    const MEMORY_BUDGET: usize;

    /// What the strategy allows; each strategy states its values.
    proof fn lemma_settings();
}

/// Elastic memory strategy (cloud profile).
pub struct ElasticMemory;

impl MemoryStrategy for ElasticMemory {
    const RESIZE_ALLOWED: bool = true;

    const DYNAMIC_ALLOC: bool = true;

    const SHARING_ALLOWED: bool = true;

    const MEMORY_BUDGET: usize = 0;

    /// Elastic memory: resizable, dynamic, shared, unlimited.
    proof fn lemma_settings()
        ensures
            Self::RESIZE_ALLOWED && Self::DYNAMIC_ALLOC && Self::SHARING_ALLOWED,
            Self::MEMORY_BUDGET == 0,
    {
    }
}

/// Static memory strategy (embedded profile): a 64 KiB budget.
pub struct StaticMemory;

impl MemoryStrategy for StaticMemory {
    const RESIZE_ALLOWED: bool = false;

    const DYNAMIC_ALLOC: bool = false;

    const SHARING_ALLOWED: bool = false;

    const MEMORY_BUDGET: usize = 65536;

    /// Static memory: fixed, allocated up front, private, 64 KiB.
    proof fn lemma_settings()
        ensures
            !Self::RESIZE_ALLOWED && !Self::DYNAMIC_ALLOC && !Self::SHARING_ALLOWED,
            Self::MEMORY_BUDGET == 65536,
    {
    }
}

/// Profile-aware memory operations.
pub trait ProfileMemoryOps<M: MemoryStrategy> {
    /// Remaining memory budget; `None` when unlimited.
    fn remaining_budget(&self) -> Option<usize>;
}

/// Memory operation errors.
#[derive(Debug, Clone, Copy, PartialEq, Eq, Structural)]
pub enum MemoryError {
    /// Resize not supported by the profile
    ResizeNotSupported,
    /// Out of memory or budget exhausted
    OutOfMemory,
    /// Invalid size requested
    InvalidSize,
    /// Region in use and cannot be modified
    InUse,
}

} // verus!
