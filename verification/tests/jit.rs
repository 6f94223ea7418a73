use axiom_kernel::bytecode::insn::BpfInsn;
use axiom_kernel::bytecode::program::{BpfProgType, ProgramBuilder};
use axiom_kernel::execution::jit::{JitError, JitExecutor};
use axiom_kernel::execution::jit_aarch64::{
    jit_would_panic, Arm64Emitter, Arm64JitCompiler, Arm64JitExecutor, BPF_TO_ARM64, X0, X1, X2,
};
use axiom_kernel::execution::{BpfContext, BpfEnvironment, EnvRequest, BpfExecutor};
use axiom_kernel::profile::{CloudProfile, EmbeddedProfile};

struct NullEnv;

impl BpfEnvironment for NullEnv {
    /// Every value this environment returns is an answer it may give.
    fn answers(&self, _req: EnvRequest, _v: u64) -> bool {
        true
    }

    fn context_address(&self, ctx: &BpfContext) -> u64 {
        let _ = ctx;
        0x1000
    }
    fn stack_address(&self, stack: &[u8]) -> u64 {
        let _ = stack;
        0x8000_0000
    }
    fn read(&self, _addr: u64, _size: usize) -> u64 {
        0
    }
    fn ktime_get_ns(&self) -> u64 {
        0
    }
    fn trace_printk(&self, _fmt: u64, _size: u32) -> i32 {
        0
    }
    fn map_lookup_elem(&self, _map_id: u32, _key: u64) -> u64 {
        0
    }
    fn map_update_elem(&self, _map_id: u32, _key: u64, _value: u64, _flags: u64) -> i32 {
        0
    }
    fn map_delete_elem(&self, _map_id: u32, _key: u64) -> i32 {
        0
    }
    fn ringbuf_output(&self, _map_id: u32, _data: u64, _size: u64, _flags: u64) -> i64 {
        0
    }
}

#[test]
fn jit_not_implemented() {
    let program = ProgramBuilder::<CloudProfile>::new(BpfProgType::SocketFilter)
        .insn(BpfInsn::mov64_imm(0, 42))
        .insn(BpfInsn::exit())
        .build()
        .expect("valid program");

    let jit = JitExecutor::new();
    let result = jit.compile(&program);
    assert!(matches!(result, Err(JitError::NotImplemented)));
}

#[test]
fn jit_fallback_to_interpreter() {
    let program = ProgramBuilder::<CloudProfile>::new(BpfProgType::SocketFilter)
        .insn(BpfInsn::mov64_imm(0, 42))
        .insn(BpfInsn::exit())
        .build()
        .expect("valid program");

    let jit = JitExecutor::new();
    let ctx = BpfContext::empty();
    let result = jit.execute(&program, &ctx, &NullEnv);
    assert_eq!(result, Ok(42));
}

#[test]
fn test_register_mapping() {
    for (bpf_reg, arm_reg) in BPF_TO_ARM64.iter().enumerate() {
        assert!(*arm_reg <= 31, "Invalid ARM64 register for BPF R{}", bpf_reg);
    }
}

#[test]
fn test_emitter_mov_imm() {
    let mut emitter = Arm64Emitter::new(64);
    emitter.emit_mov64_imm(X0, 42);
    assert!(!emitter.code.is_empty());
}

#[test]
fn test_emitter_add_reg() {
    let mut emitter = Arm64Emitter::new(64);
    emitter.emit_add_reg(X0, X1, X2);
    assert_eq!(emitter.code.len(), 4);
}

#[test]
fn emitter_encodes_add_reg_little_endian() {
    // ADD X0, X1, X2 = 0x8B020020
    let mut emitter = Arm64Emitter::new(16);
    emitter.emit_add_reg(X0, X1, X2);
    assert_eq!(emitter.code, vec![0x20, 0x00, 0x02, 0x8B]);
}

#[test]
fn emitter_mov64_imm_uses_movz_then_movk() {
    // 0x0001_0000_0000_002A: MOVZ X0, #0x2A; MOVK X0, #1, LSL #48
    let mut emitter = Arm64Emitter::new(16);
    emitter.emit_mov64_imm(X0, 0x0001_0000_0000_002A);
    assert_eq!(emitter.code.len(), 8);
    let first = u32::from_le_bytes([emitter.code[0], emitter.code[1], emitter.code[2], emitter.code[3]]);
    let second = u32::from_le_bytes([emitter.code[4], emitter.code[5], emitter.code[6], emitter.code[7]]);
    assert_eq!(first, 0xD2800000 | (0x2A << 5));
    assert_eq!(second, 0xF2800000 | (3 << 21) | (1 << 5));
}

#[test]
fn emitter_mov64_zero_is_one_instruction() {
    let mut emitter = Arm64Emitter::new(16);
    emitter.emit_mov64_imm(X0, 0);
    assert_eq!(emitter.code.len(), 4);
}

#[test]
fn arm64_compile_simple_program() {
    let program = ProgramBuilder::<EmbeddedProfile>::new(BpfProgType::SocketFilter)
        .insn(BpfInsn::mov64_imm(0, 42))
        .insn(BpfInsn::exit())
        .build()
        .expect("valid program");
    assert!(program.instructions().iter().all(|i| !jit_would_panic(i)));
    let compiler = Arm64JitCompiler::<EmbeddedProfile>::new();
    let compiled = compiler.compile(&program).expect("compiles");
    assert!(!compiled.code_bytes().is_empty());
    assert_eq!(compiled.code_bytes().len() % 4, 0);
}

#[test]
fn arm64_executor_falls_back_to_interpreter() {
    let program = ProgramBuilder::<EmbeddedProfile>::new(BpfProgType::SocketFilter)
        .insn(BpfInsn::mov64_imm(0, 5))
        .insn(BpfInsn::add64_imm(0, 6))
        .insn(BpfInsn::exit())
        .build()
        .expect("valid program");
    let executor = Arm64JitExecutor::<EmbeddedProfile>::new();
    assert_eq!(executor.execute(&program, &BpfContext::empty(), &NullEnv), Ok(11));
}

/// MOVZ/MOVK semantics on one destination register, for checking emitted code.
fn run_wide_moves(code: &[u8], mut x: u64) -> u64 {
    for chunk in code.chunks(4) {
        let w = u32::from_le_bytes([chunk[0], chunk[1], chunk[2], chunk[3]]);
        let sh = ((w >> 21) & 3) * 16;
        let imm = ((w >> 5) & 0xFFFF) as u64;
        if w & 0xFF80_0000 == 0xD280_0000 {
            x = imm << sh;
        } else if w & 0xFF80_0000 == 0xF280_0000 {
            x = (x & !(0xFFFFu64 << sh)) | (imm << sh);
        }
    }
    x
}

#[test]
fn mov64_sequence_loads_the_immediate() {
    for imm in [1i64, 0x1234, 0x1234_0000_5678, -1, i64::MIN, 0x0001_0000_0000_0000] {
        let mut emitter = Arm64Emitter::new(16);
        emitter.emit_mov64_imm(X2, imm);
        assert_eq!(run_wide_moves(&emitter.code, 0xDEAD_BEEF_DEAD_BEEF), imm as u64, "imm {:#x}", imm);
    }
}

fn words(code: &[u8]) -> Vec<u32> {
    code.chunks(4).map(|c| u32::from_le_bytes([c[0], c[1], c[2], c[3]])).collect()
}

#[test]
fn emitter_mov_reg_reads_the_zero_register() {
    let mut emitter = Arm64Emitter::new(4);
    emitter.emit_mov_reg(X0, X1);
    assert_eq!(emitter.code, vec![0xE0, 0x03, 0x01, 0xAA]);
}

#[test]
fn emitter_mov64_zero_clears_the_register() {
    let mut emitter = Arm64Emitter::new(4);
    emitter.emit_mov64_imm(X2, 0);
    assert_eq!(words(&emitter.code), vec![0xAA1F03E2]);
}

fn compile_words(insns: &[BpfInsn]) -> Vec<u32> {
    let mut builder = ProgramBuilder::<EmbeddedProfile>::new(BpfProgType::SocketFilter);
    for i in insns {
        builder = builder.insn(*i);
    }
    let program = builder.build().expect("valid program");
    assert!(program.instructions().iter().all(|i| !jit_would_panic(i)));
    let compiled = Arm64JitCompiler::<EmbeddedProfile>::new().compile(&program).expect("compiles");
    words(compiled.code_bytes())
}

#[test]
fn immediates_never_overwrite_r0() {
    // r1 *= 3 with an immediate, then r2 %= r1: neither may write X7 (R0).
    let code = compile_words(&[
        BpfInsn::mov64_imm(0, 1),
        BpfInsn::new(0x27, 1, 0, 0, 3),
        BpfInsn::new(0x9f, 2, 1, 0, 0),
        BpfInsn::exit(),
    ]);
    let prologue = 8;
    let body = &code[prologue..code.len() - 7];
    // The first word moves 1 into X7; no later word of the body has X7 as its destination.
    assert!(body[1..].iter().all(|w| w & 0x1f != 7), "{:x?}", body);
}

#[test]
fn exit_frees_the_stack_the_prologue_allocated() {
    let code = compile_words(&[BpfInsn::mov64_imm(0, 0), BpfInsn::exit()]);
    let sub = code[5];
    let add = code[code.len() - 6];
    assert_eq!(sub & 0xFF00_0000, 0xD100_0000);
    assert_eq!(add & 0xFF00_0000, 0x9100_0000);
    assert_eq!((sub >> 10) & 0xfff, (add >> 10) & 0xfff);
}

#[test]
fn jset_compiles_to_test_and_branch() {
    let code = compile_words(&[
        BpfInsn::mov64_imm(0, 0),
        BpfInsn::new(0x4d, 0, 1, 1, 0),
        BpfInsn::mov64_imm(0, 1),
        BpfInsn::exit(),
    ]);
    // After the prologue and the zero move: TST X7, X0 then B.NE.
    assert_eq!(code[9], 0xEA00001F | (0 << 16) | (7 << 5));
    assert_eq!(code[10] & 0xFF00_001F, 0x5400_0001);
}

#[test]
fn byte_swaps_compile() {
    let code = compile_words(&[
        BpfInsn::mov64_imm(0, 0x1234),
        BpfInsn::new(0xdc, 0, 0, 0, 16),
        BpfInsn::new(0xdc, 0, 0, 0, 32),
        BpfInsn::new(0xdc, 0, 0, 0, 64),
        BpfInsn::exit(),
    ]);
    assert_eq!(&code[9..14], &[0x5AC004E7, 0x53003CE7, 0x5AC008E7, 0xDAC00CE7, 0x2A0703E7]);
}

#[test]
fn alu32_uses_32_bit_operations() {
    let code = compile_words(&[
        BpfInsn::mov64_imm(0, 0),
        // ADD32 r1, r2 -> ADD W0, W0, W1
        BpfInsn::new(0x0c, 1, 2, 0, 0),
        // MOV32 r0, -1 -> loads 0xFFFF_FFFF
        BpfInsn::new(0xb4, 0, 0, 0, -1),
        BpfInsn::exit(),
    ]);
    assert_eq!(code[9], 0x0B000000 | (1 << 16) | (0 << 5));
    assert_eq!(run_wide_moves(&words_bytes(&code[10..12]), 0), 0xFFFF_FFFF);
}

fn words_bytes(ws: &[u32]) -> Vec<u8> {
    ws.iter().flat_map(|w| w.to_le_bytes()).collect()
}
