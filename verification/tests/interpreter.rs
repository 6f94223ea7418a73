use std::cell::Cell;

use axiom_kernel::bpf_verifier::checks::verify_alu;
use axiom_kernel::bpf_verifier::state::VerifierState;
use axiom_kernel::bytecode::insn::BpfInsn;
use axiom_kernel::bytecode::registers::Register;
use axiom_kernel::bytecode::program::{BpfProgType, ProgramBuilder};
use axiom_kernel::execution::interpreter::Interpreter;
use axiom_kernel::execution::{default_executor, BpfContext, BpfEnvironment, EnvRequest, BpfError, BpfExecutor};
use axiom_kernel::profile::ActiveProfile;

/// A kernel stand-in: one map slot, whose address a lookup returns.
struct TestEnv {
    map_value: Cell<u64>,
}

impl TestEnv {
    fn new() -> Self {
        TestEnv { map_value: Cell::new(0) }
    }
}

impl BpfEnvironment for TestEnv {
    /// Every value this environment returns is an answer it may give.
    fn answers(&self, _req: EnvRequest, _v: u64) -> bool {
        true
    }

    fn context_address(&self, ctx: &BpfContext) -> u64 {
        let _ = ctx;
        0x1000
    }

    fn stack_address(&self, stack: &[u8]) -> u64 {
        let _ = stack;
        0x8000_0000
    }

    fn read(&self, _addr: u64, _size: usize) -> u64 {
        0
    }

    fn ktime_get_ns(&self) -> u64 {
        0
    }

    fn trace_printk(&self, _fmt: u64, _size: u32) -> i32 {
        0
    }

    fn map_lookup_elem(&self, _map_id: u32, _key: u64) -> u64 {
        0xdead_0000
    }

    fn map_update_elem(&self, _map_id: u32, _key: u64, value: u64, _flags: u64) -> i32 {
        if value != 0 {
            self.map_value.set(value);
        }
        0
    }

    fn map_delete_elem(&self, _map_id: u32, _key: u64) -> i32 {
        self.map_value.set(0);
        0
    }

    fn ringbuf_output(&self, _map_id: u32, _data: u64, _size: u64, _flags: u64) -> i64 {
        0
    }
}

#[test]
fn execute_simple_program() {
    let program = ProgramBuilder::<ActiveProfile>::new(BpfProgType::SocketFilter)
        .insn(BpfInsn::mov64_imm(0, 42))
        .exit()
        .build()
        .expect("valid program");

    let interpreter = Interpreter::<ActiveProfile>::new();
    let ctx = BpfContext::empty();

    let result = interpreter.execute(&program, &ctx, &TestEnv::new());
    assert_eq!(result, Ok(42));
}

#[test]
fn execute_arithmetic() {
    let program = ProgramBuilder::<ActiveProfile>::new(BpfProgType::SocketFilter)
        .insn(BpfInsn::mov64_imm(0, 10))
        .insn(BpfInsn::add64_imm(0, 5))
        .insn(BpfInsn::mov64_imm(1, 3))
        .insn(BpfInsn::add64_reg(0, 1))
        .exit()
        .build()
        .expect("valid program");

    let interpreter = Interpreter::<ActiveProfile>::new();
    let ctx = BpfContext::empty();

    let result = interpreter.execute(&program, &ctx, &TestEnv::new());
    assert_eq!(result, Ok(18));
}

#[test]
fn execute_conditional_jump() {
    let program = ProgramBuilder::<ActiveProfile>::new(BpfProgType::SocketFilter)
        .insn(BpfInsn::mov64_imm(0, 0))
        .insn(BpfInsn::jeq_imm(0, 0, 2))
        .insn(BpfInsn::mov64_imm(0, 2))
        .insn(BpfInsn::ja(1))
        .insn(BpfInsn::mov64_imm(0, 1))
        .exit()
        .build()
        .expect("valid program");

    let interpreter = Interpreter::<ActiveProfile>::new();
    let ctx = BpfContext::empty();

    let result = interpreter.execute(&program, &ctx, &TestEnv::new());
    assert_eq!(result, Ok(1));
}

#[test]
fn execute_timeout() {
    let program = ProgramBuilder::<ActiveProfile>::new(BpfProgType::SocketFilter)
        .insn(BpfInsn::mov64_imm(0, 0))
        .insn(BpfInsn::ja(-1))
        .exit()
        .build()
        .expect("valid program");

    let interpreter = Interpreter::<ActiveProfile>::new();
    let ctx = BpfContext::empty();

    let result = interpreter.execute(&program, &ctx, &TestEnv::new());
    assert_eq!(result, Err(BpfError::Timeout));
}

#[test]
fn execute_division_by_zero() {
    let program = ProgramBuilder::<ActiveProfile>::new(BpfProgType::SocketFilter)
        .insn(BpfInsn::mov64_imm(0, 10))
        .insn(BpfInsn::mov64_imm(1, 0))
        .insn(BpfInsn::new(0x3f, 0, 1, 0, 0))
        .exit()
        .build()
        .expect("valid program");

    let interpreter = Interpreter::<ActiveProfile>::new();
    let ctx = BpfContext::empty();

    let result = interpreter.execute(&program, &ctx, &TestEnv::new());
    assert_eq!(result, Err(BpfError::DivisionByZero));
}

#[test]
fn execute_map_lookup_helper() {
    let env = TestEnv::new();
    let program = ProgramBuilder::<ActiveProfile>::new(BpfProgType::SocketFilter)
        .insn(BpfInsn::mov64_imm(1, 0))
        .insn(BpfInsn::mov64_imm(2, 0))
        .insn(BpfInsn::call(3))
        .exit()
        .build()
        .expect("valid program");

    let interpreter = Interpreter::<ActiveProfile>::new();
    let ctx = BpfContext::empty();

    let result = interpreter.execute(&program, &ctx, &env);
    assert!(result.is_ok());
    assert_ne!(result.unwrap(), 0);
}

#[test]
fn execute_map_update_helper() {
    let env = TestEnv::new();
    assert_eq!(env.map_value.get(), 0);

    let program = ProgramBuilder::<ActiveProfile>::new(BpfProgType::SocketFilter)
        .insn(BpfInsn::mov64_imm(1, 0))
        .insn(BpfInsn::mov64_imm(2, 0))
        .insn(BpfInsn::mov64_imm(3, 0))
        .insn(BpfInsn::mov64_imm(4, 0))
        .insn(BpfInsn::call(4))
        .exit()
        .build()
        .expect("valid program");

    let interpreter = Interpreter::<ActiveProfile>::new();
    let ctx = BpfContext::empty();

    let result = interpreter.execute(&program, &ctx, &env);
    assert_eq!(result, Ok(0));
}

#[test]
fn execute_map_delete_helper() {
    let env = TestEnv::new();

    let program = ProgramBuilder::<ActiveProfile>::new(BpfProgType::SocketFilter)
        .insn(BpfInsn::mov64_imm(1, 0))
        .insn(BpfInsn::mov64_imm(2, 0))
        .insn(BpfInsn::call(5))
        .exit()
        .build()
        .expect("valid program");

    let interpreter = Interpreter::<ActiveProfile>::new();
    let ctx = BpfContext::empty();

    let result = interpreter.execute(&program, &ctx, &env);
    assert_eq!(result, Ok(0));
}

#[test]
fn empty_context() {
    let ctx = BpfContext::empty();
    assert_eq!(ctx.data, 0);
    assert_eq!(ctx.data_end, 0);
    assert_eq!(ctx.data_len(), 0);
}

#[test]
fn store_then_load_round_trips_through_the_stack() {
    // *(u32 *)(r10 - 8) = 0x11223344; r0 = *(u32 *)(r10 - 8)
    let program = ProgramBuilder::<ActiveProfile>::new(BpfProgType::SocketFilter)
        .insn(BpfInsn::new(0x62, 10, 0, -8, 0x11223344))
        .insn(BpfInsn::new(0x61, 0, 10, -8, 0))
        .exit()
        .build()
        .expect("valid program");
    let result = Interpreter::<ActiveProfile>::new().execute(&program, &BpfContext::empty(), &TestEnv::new());
    assert_eq!(result, Ok(0x11223344));
}

#[test]
fn default_executor_runs_programs() {
    let program = ProgramBuilder::<ActiveProfile>::new(BpfProgType::SocketFilter)
        .insn(BpfInsn::mov64_imm(0, 7))
        .exit()
        .build()
        .expect("valid program");
    let executor = default_executor::<ActiveProfile>();
    assert_eq!(executor.execute(&program, &BpfContext::empty(), &TestEnv::new()), Ok(7));
}

fn run64(insns: &[BpfInsn]) -> Result<u64, BpfError> {
    let mut builder = ProgramBuilder::<ActiveProfile>::new(BpfProgType::SocketFilter);
    for i in insns {
        builder = builder.insn(*i);
    }
    let program = builder.exit().build().expect("valid program");
    Interpreter::<ActiveProfile>::new().execute(&program, &BpfContext::empty(), &TestEnv::new())
}

#[test]
fn alu32_shift_works_on_the_low_word() {
    // r0 = 1 << 32; ALU32 RSH r0, 1 gives 0.
    let r = run64(&[BpfInsn::mov64_imm(0, 1), BpfInsn::new(0x67, 0, 0, 0, 32), BpfInsn::new(0x74, 0, 0, 0, 1)]);
    assert_eq!(r, Ok(0));
}

#[test]
fn alu32_shift_amount_is_taken_modulo_32() {
    // r0 = 1; ALU32 LSH r0, 33 shifts by 1.
    let r = run64(&[BpfInsn::mov64_imm(0, 1), BpfInsn::new(0x64, 0, 0, 0, 33)]);
    assert_eq!(r, Ok(2));
}

#[test]
fn alu32_arsh_sign_extends_the_low_word() {
    // r0 = 0x8000_0000 (MOV32); ALU32 ARSH r0, 4 gives 0xF800_0000.
    let r = run64(&[BpfInsn::new(0xb4, 0, 0, 0, i32::MIN), BpfInsn::new(0xc4, 0, 0, 0, 4)]);
    assert_eq!(r, Ok(0xF800_0000));
}

#[test]
fn jmp32_signed_compare_reads_the_low_word_as_i32() {
    // r1 = 0xFFFF_FFFF; JSLT32 r1, 0 is taken (-1 < 0).
    let r = run64(&[
        BpfInsn::new(0xb4, 1, 0, 0, -1),
        BpfInsn::mov64_imm(0, 2),
        BpfInsn::new(0xc6, 1, 0, 1, 0),
        BpfInsn::exit(),
        BpfInsn::mov64_imm(0, 1),
    ]);
    assert_eq!(r, Ok(1));
}

#[test]
fn unknown_helper_is_an_error() {
    let r = run64(&[BpfInsn::mov64_imm(0, 3), BpfInsn::call(99)]);
    assert_eq!(r, Err(BpfError::InvalidHelper(99)));
}

#[test]
fn stack_bytes_lie_below_the_frame_pointer_in_address_order() {
    // Store 0x01020304 as eight bytes at fp-8, then read single bytes back:
    // the lowest byte sits at fp-8, the next ones above it.
    let program = ProgramBuilder::<ActiveProfile>::new(BpfProgType::SocketFilter)
        .insn(BpfInsn::mov64_imm(1, 0x0102_0304))
        .insn(BpfInsn::new(0x7b, 10, 1, -8, 0))
        .insn(BpfInsn::new(0x71, 0, 10, -8, 0))
        .insn(BpfInsn::new(0x71, 2, 10, -5, 0))
        .insn(BpfInsn::new(0x0f, 0, 2, 0, 0))
        .exit()
        .build()
        .expect("valid program");
    let interpreter = Interpreter::<ActiveProfile>::new();
    let result = interpreter.execute(&program, &BpfContext::empty(), &TestEnv::new());
    assert_eq!(result, Ok(0x04 + 0x01));
}

#[test]
fn stack_access_past_the_frame_pointer_is_out_of_bounds() {
    let program = ProgramBuilder::<ActiveProfile>::new(BpfProgType::SocketFilter)
        .insn(BpfInsn::mov64_imm(1, 7))
        .insn(BpfInsn::new(0x7b, 10, 1, -4, 0))
        .insn(BpfInsn::mov64_imm(0, 0))
        .exit()
        .build()
        .expect("valid program");
    let interpreter = Interpreter::<ActiveProfile>::new();
    let result = interpreter.execute(&program, &BpfContext::empty(), &TestEnv::new());
    assert_eq!(result, Err(BpfError::OutOfBounds));
}

#[test]
fn verifier_bounds_hold_for_the_values_the_interpreter_computes() {
    let insns = [
        BpfInsn::mov64_imm(0, 100),
        BpfInsn::mov64_imm(1, 7),
        BpfInsn::new(0x3f, 0, 1, 0, 0),
        BpfInsn::new(0x07, 0, 0, 0, 3),
    ];
    let mut state = VerifierState::new_entry(512);
    for (i, insn) in insns.iter().enumerate() {
        assert_eq!(verify_alu(insn, &mut state, i), Ok(()));
    }
    let view = state.reg(Register::R0).scalar_value.expect("tracked");

    let mut builder = ProgramBuilder::<ActiveProfile>::new(BpfProgType::SocketFilter);
    for insn in insns {
        builder = builder.insn(insn);
    }
    let program = builder.exit().build().expect("valid program");
    let interpreter = Interpreter::<ActiveProfile>::new();
    let r0 = interpreter.execute(&program, &BpfContext::empty(), &TestEnv::new()).expect("runs");
    assert_eq!(r0, 17);
    assert!(view.min <= r0 && r0 <= view.max);
    assert_eq!(view.value, Some(r0));
}
