use axiom_kernel::bpf_verifier::error::VerifyError;
use axiom_kernel::bpf_verifier::streaming::StreamingVerifier;
use axiom_kernel::bytecode::insn::BpfInsn;
use axiom_kernel::bytecode::program::BpfProgType;
use axiom_kernel::profile::{ActiveProfile, CloudProfile, EmbeddedProfile};

#[test]
fn streaming_verify_empty_program() {
    let result = StreamingVerifier::<ActiveProfile>::verify(BpfProgType::SocketFilter, &[]);
    assert!(matches!(result, Err(VerifyError::EmptyProgram)));
}

#[test]
fn streaming_verify_minimal_program() {
    let insns = [BpfInsn::mov64_imm(0, 0), BpfInsn::exit()];
    let result = StreamingVerifier::<ActiveProfile>::verify(BpfProgType::SocketFilter, &insns);
    assert!(result.is_ok());
}

#[test]
fn streaming_verify_no_exit() {
    let insns = [BpfInsn::mov64_imm(0, 0), BpfInsn::nop()];
    let result = StreamingVerifier::<ActiveProfile>::verify(BpfProgType::SocketFilter, &insns);
    assert!(matches!(result, Err(VerifyError::NoExit)));
}

#[test]
fn streaming_verify_division_by_zero() {
    let insns = [BpfInsn::mov64_imm(0, 10), BpfInsn::new(0x37, 0, 0, 0, 0), BpfInsn::exit()];
    let result = StreamingVerifier::<ActiveProfile>::verify(BpfProgType::SocketFilter, &insns);
    assert!(matches!(result, Err(VerifyError::DivisionByZero { .. })));
}

#[test]
fn streaming_verify_write_to_r10() {
    let insns = [BpfInsn::mov64_imm(10, 0), BpfInsn::mov64_imm(0, 0), BpfInsn::exit()];
    let result = StreamingVerifier::<ActiveProfile>::verify(BpfProgType::SocketFilter, &insns);
    assert!(matches!(result, Err(VerifyError::WriteToReadOnly { .. })));
}

#[test]
fn streaming_verify_uninitialized_register() {
    let insns = [BpfInsn::add64_reg(0, 2), BpfInsn::exit()];
    let result = StreamingVerifier::<ActiveProfile>::verify(BpfProgType::SocketFilter, &insns);
    assert!(matches!(result, Err(VerifyError::UninitializedRegister { .. })));
}

#[test]
fn verify_conditional_branch() {
    let insns = [
        BpfInsn::mov64_imm(0, 0),
        BpfInsn::mov64_imm(1, 10),
        BpfInsn::jeq_imm(1, 0, 1),
        BpfInsn::add64_imm(0, 1),
        BpfInsn::exit(),
    ];
    let result = StreamingVerifier::<ActiveProfile>::verify(BpfProgType::SocketFilter, &insns);
    assert!(result.is_ok());
}

#[test]
fn verify_multiple_paths() {
    let insns = [
        BpfInsn::mov64_imm(0, 0),
        BpfInsn::mov64_imm(1, 5),
        BpfInsn::jeq_imm(1, 5, 2),
        BpfInsn::add64_imm(0, 1),
        BpfInsn::add64_imm(0, 2),
        BpfInsn::exit(),
    ];
    let result = StreamingVerifier::<ActiveProfile>::verify(BpfProgType::SocketFilter, &insns);
    assert!(result.is_ok());
}

#[test]
fn verify_forward_jump() {
    let insns = [
        BpfInsn::mov64_imm(0, 42),
        BpfInsn::ja(1),
        BpfInsn::mov64_imm(0, 0),
        BpfInsn::exit(),
    ];
    let result = StreamingVerifier::<ActiveProfile>::verify(BpfProgType::SocketFilter, &insns);
    assert!(result.is_ok());
}

#[test]
fn streaming_checks_registers_of_the_entry_block() {
    let insns = [BpfInsn::mov64_imm(0, 1), BpfInsn::add64_reg(0, 7), BpfInsn::exit()];
    let result = StreamingVerifier::<CloudProfile>::verify(BpfProgType::SocketFilter, &insns);
    assert!(matches!(result, Err(VerifyError::UninitializedRegister { .. })));
    let ok = [BpfInsn::mov64_imm(0, 1), BpfInsn::exit()];
    assert!(StreamingVerifier::<EmbeddedProfile>::verify(BpfProgType::SocketFilter, &ok).is_ok());
}

#[test]
fn streaming_walks_the_blocks_after_a_branch() {
    // r1 = 1; if r1 == 0 goto +1; r0 += r2; exit — r2 is never set.
    let insns = [
        BpfInsn::mov64_imm(1, 1),
        BpfInsn::jeq_imm(1, 0, 1),
        BpfInsn::add64_reg(0, 2),
        BpfInsn::exit(),
    ];
    let result = StreamingVerifier::<ActiveProfile>::verify(BpfProgType::SocketFilter, &insns);
    assert!(matches!(result, Err(VerifyError::UninitializedRegister { .. })));
}

#[test]
fn streaming_checks_exit_of_a_later_block() {
    // The target block exits without setting r0.
    let insns = [
        BpfInsn::mov64_imm(1, 1),
        BpfInsn::jeq_imm(1, 0, 2),
        BpfInsn::mov64_imm(0, 0),
        BpfInsn::exit(),
        BpfInsn::exit(),
    ];
    let result = StreamingVerifier::<ActiveProfile>::verify(BpfProgType::SocketFilter, &insns);
    assert!(matches!(result, Err(VerifyError::UninitializedRegister { .. })));
}

#[test]
fn streaming_accepts_a_counted_loop_in_the_cloud_profile() {
    // r0 = 0; r1 = 3; loop: r0 += 1; r1 -= 1; if r1 != 0 goto loop; exit
    let insns = [
        BpfInsn::mov64_imm(0, 0),
        BpfInsn::mov64_imm(1, 3),
        BpfInsn::add64_imm(0, 1),
        BpfInsn::new(0x17, 1, 0, 0, 1),
        BpfInsn::new(0x55, 1, 0, -3, 0),
        BpfInsn::exit(),
    ];
    let result = StreamingVerifier::<CloudProfile>::verify(BpfProgType::SocketFilter, &insns);
    assert!(result.is_ok(), "{:?}", result.err());
}
