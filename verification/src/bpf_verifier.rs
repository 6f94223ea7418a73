//! BPF verifier: register and stack state tracking, abstract ALU
//! semantics, state pruning, and the path-sensitive and streaming
//! verification passes.
pub mod tnum;
pub mod state;
pub mod alu;
pub mod pruner;
pub mod error;
pub mod cfg;
pub mod checks;
pub mod core_verifier;
pub mod streaming;
