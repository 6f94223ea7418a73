pub mod bytecode;
pub mod profile;
pub mod bpf_verifier;
pub mod execution;
pub mod maps;
pub mod scheduler;
pub mod physical_memory;
pub mod abi;
pub mod syscall;
pub mod vfs;
pub mod device;
