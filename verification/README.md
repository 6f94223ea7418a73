# axiom_kernel

Verified core of the Axiom kernel's runtime-programmable layer: BPF
bytecode, its verifiers, an interpreter and an ARM64 code generator, hash
maps, program scheduling, and the pieces of the kernel around them that
decide things (physical memory regions, userspace address checks, file
descriptor calls, file system paths). Every function in `src/` carries a
contract that Verus proves, but for one trusted wrapper around
`core::str::from_utf8`, whose contract restates what the standard library
documents.

Layout:

- `src/bytecode` — opcodes, instructions, registers, programs.
- `src/profile` — the cloud and embedded profiles and their limits.
- `src/bpf_verifier` — the path-sensitive and the streaming verifier, with
  tracked numbers and range analysis.
- `src/execution` — the interpreter (with an executable semantics of every
  instruction), the JIT front end and the ARM64 code generator, and what
  the verifier's acceptance of an instruction promises about running it.
- `src/maps` — the hash map.
- `src/device.rs` — the registry of raw devices.
- `src/scheduler` — the ready queue and the throughput and deadline policies.
- `src/physical_memory.rs`, `src/syscall`, `src/vfs`, `src/abi.rs` — memory
  regions, system call argument checks, paths.
- `tests/` — tests of the library.

The kernel around the library is reached through traits that the kernel
implements (`BpfEnvironment` for a running program, `FileAccess` for the
file descriptor calls). Each names the results it may give with relations
tied to the request made, and the library's contracts are stated over
those relations.

- `app/` — what cannot be verified: raw memory access, the exported helper
  functions, locking, and error messages.
