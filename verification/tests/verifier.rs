use axiom_kernel::bpf_verifier::core_verifier::Verifier;
use axiom_kernel::bpf_verifier::error::VerifyError;
use axiom_kernel::bpf_verifier::pruner::{PruneDecision, StatePruner, StateSubsumes};
use axiom_kernel::bpf_verifier::state::{RegState, ScalarValue, VerifierState};
use axiom_kernel::bpf_verifier::tnum::TnumValue;
use axiom_kernel::bytecode::insn::BpfInsn;
use axiom_kernel::bytecode::program::BpfProgType;
use axiom_kernel::bytecode::registers::Register;
use axiom_kernel::profile::{ActiveProfile, CloudProfile, EmbeddedProfile};

fn entry_state() -> VerifierState {
    VerifierState::new_entry(512)
}

#[test]
fn empty_pruner_records_first_state() {
    let mut pruner = StatePruner::new();
    let s = entry_state();
    assert_eq!(pruner.check_or_record(0, &s), PruneDecision::Continue);
    assert_eq!(pruner.recorded(), 1);
}

#[test]
fn identical_state_is_pruned() {
    let mut pruner = StatePruner::new();
    let s = entry_state();
    pruner.check_or_record(0, &s);
    assert_eq!(pruner.check_or_record(0, &s), PruneDecision::Prune);
}

#[test]
fn different_pc_is_not_pruned() {
    let mut pruner = StatePruner::new();
    let s = entry_state();
    pruner.check_or_record(0, &s);
    assert_eq!(pruner.check_or_record(1, &s), PruneDecision::Continue);
}

#[test]
fn unknown_scalar_subsumes_constant_at_same_pc() {
    let mut pruner = StatePruner::new();

    let mut s_general = entry_state();
    s_general.regs[Register::R0 as usize] = RegState::scalar(Some(ScalarValue::unknown()));
    pruner.check_or_record(0, &s_general);

    let mut s_specific = entry_state();
    s_specific.regs[Register::R0 as usize] = RegState::scalar(Some(ScalarValue::constant(7)));
    assert_eq!(pruner.check_or_record(0, &s_specific), PruneDecision::Prune);
}

#[test]
fn constant_does_not_subsume_unknown() {
    let mut pruner = StatePruner::new();

    let mut s_specific = entry_state();
    s_specific.regs[Register::R0 as usize] = RegState::scalar(Some(ScalarValue::constant(7)));
    pruner.check_or_record(0, &s_specific);

    let mut s_general = entry_state();
    s_general.regs[Register::R0 as usize] = RegState::scalar(Some(ScalarValue::unknown()));
    assert_eq!(pruner.check_or_record(0, &s_general), PruneDecision::Continue);
}

#[test]
fn different_reg_types_do_not_subsume() {
    let r_scalar = RegState::scalar(Some(ScalarValue::unknown()));
    let r_stack = RegState::stack_ptr(-8);
    assert!(!r_scalar.subsumes(&r_stack));
    assert!(!r_stack.subsumes(&r_scalar));
}

#[test]
fn tnum_subsumption_lifts_to_regstate() {
    let mut sv_a = ScalarValue::unknown();
    sv_a.min = 0;
    sv_a.max = 255;
    sv_a.tnum = TnumValue { value: 0, mask: 0xff };

    let sv_b = ScalarValue::constant(42);

    let a = RegState::scalar(Some(sv_a));
    let b = RegState::scalar(Some(sv_b));

    assert!(a.subsumes(&b), "wider tnum + interval should subsume a contained constant");
    assert!(!b.subsumes(&a), "constant cannot subsume wider tnum");
}

#[test]
fn recorded_count_grows_only_on_continue() {
    let mut pruner = StatePruner::new();
    let s = entry_state();

    pruner.check_or_record(0, &s);
    pruner.check_or_record(0, &s);
    pruner.check_or_record(1, &s);
    pruner.check_or_record(1, &s);

    assert_eq!(pruner.recorded(), 2);
}

#[test]
fn core_verify_empty_program() {
    let result = Verifier::<ActiveProfile>::verify(BpfProgType::SocketFilter, &[]);
    assert!(matches!(result, Err(VerifyError::EmptyProgram)));
}

#[test]
fn core_verify_minimal_program() {
    let insns = [BpfInsn::mov64_imm(0, 0), BpfInsn::exit()];
    let result = Verifier::<ActiveProfile>::verify(BpfProgType::SocketFilter, &insns);
    assert!(result.is_ok());
}

#[test]
fn core_verify_no_exit() {
    let insns = [BpfInsn::mov64_imm(0, 0), BpfInsn::nop()];
    let result = Verifier::<ActiveProfile>::verify(BpfProgType::SocketFilter, &insns);
    assert!(matches!(result, Err(VerifyError::NoExit)));
}

#[test]
fn core_verify_division_by_zero() {
    let insns = [BpfInsn::mov64_imm(0, 10), BpfInsn::new(0x37, 0, 0, 0, 0), BpfInsn::exit()];
    let result = Verifier::<ActiveProfile>::verify(BpfProgType::SocketFilter, &insns);
    assert!(matches!(result, Err(VerifyError::DivisionByZero { .. })));
}

#[test]
fn core_verify_write_to_r10() {
    let insns = [BpfInsn::mov64_imm(10, 0), BpfInsn::mov64_imm(0, 0), BpfInsn::exit()];
    let result = Verifier::<ActiveProfile>::verify(BpfProgType::SocketFilter, &insns);
    assert!(matches!(result, Err(VerifyError::WriteToReadOnly { .. })));
}

#[test]
fn core_verify_uninitialized_register() {
    let insns = [BpfInsn::add64_reg(0, 2), BpfInsn::exit()];
    let result = Verifier::<ActiveProfile>::verify(BpfProgType::SocketFilter, &insns);
    assert!(matches!(result, Err(VerifyError::UninitializedRegister { .. })));
}

#[test]
fn embedded_rejects_back_edge_cloud_accepts_loop() {
    // r0 = 0; loop: r0 += 1; if r0 != 3 goto loop; exit
    let insns = [
        BpfInsn::mov64_imm(0, 0),
        BpfInsn::add64_imm(0, 1),
        BpfInsn::new(0x55, 0, 0, -2, 3),
        BpfInsn::exit(),
    ];
    let embedded = Verifier::<EmbeddedProfile>::verify(BpfProgType::SocketFilter, &insns);
    assert!(matches!(embedded, Err(VerifyError::UnboundedLoop { .. })));
    let cloud = Verifier::<CloudProfile>::verify(BpfProgType::SocketFilter, &insns);
    assert!(cloud.is_ok());
}

#[test]
fn verified_program_keeps_its_instructions() {
    let insns = [BpfInsn::mov64_imm(0, 9), BpfInsn::exit()];
    let program = Verifier::<ActiveProfile>::verify(BpfProgType::Xdp, &insns).expect("verifies");
    assert_eq!(program.len(), 2);
    assert_eq!(program.instructions()[0], insns[0]);
}

#[test]
fn verifier_error_variants() {
    // Register number out of range.
    let insns = [BpfInsn::new(0xb7, 11, 0, 0, 1), BpfInsn::exit()];
    assert!(matches!(
        Verifier::<CloudProfile>::verify(BpfProgType::SocketFilter, &insns),
        Err(VerifyError::InvalidRegister { insn_idx: 0, reg: 11 })
    ));

    // An instruction after the exit that nothing reaches.
    let insns = [BpfInsn::mov64_imm(0, 0), BpfInsn::exit(), BpfInsn::mov64_imm(0, 1)];
    assert!(matches!(
        Verifier::<CloudProfile>::verify(BpfProgType::SocketFilter, &insns),
        Err(VerifyError::UnreachableInstruction { insn_idx: 2 })
    ));

    // A helper with a negative number.
    let insns = [BpfInsn::call(-1), BpfInsn::exit()];
    assert!(matches!(
        Verifier::<CloudProfile>::verify(BpfProgType::SocketFilter, &insns),
        Err(VerifyError::InvalidHelper { insn_idx: 0, helper_id: -1 })
    ));

    // A load through a scalar.
    let insns = [BpfInsn::mov64_imm(2, 5), BpfInsn::new(0x79, 0, 2, 0, 0), BpfInsn::exit()];
    assert!(matches!(
        Verifier::<CloudProfile>::verify(BpfProgType::SocketFilter, &insns),
        Err(VerifyError::InvalidMemoryAccess { insn_idx: 1, .. })
    ));

    // A store above the frame pointer.
    let insns = [BpfInsn::mov64_imm(0, 0), BpfInsn::new(0x7b, 10, 0, 0, 0), BpfInsn::exit()];
    assert!(matches!(
        Verifier::<CloudProfile>::verify(BpfProgType::SocketFilter, &insns),
        Err(VerifyError::OutOfBoundsAccess { insn_idx: 1, offset: 0, size: 8 })
    ));
}

#[test]
fn verified_stack_size_counts_marked_slots() {
    // *(u64 *)(r10 - 16) = r0 marks the eight slots from r10 - 16 downwards,
    // so the deepest marked slot is r10 - 23.
    let insns = [BpfInsn::mov64_imm(0, 0), BpfInsn::new(0x7b, 10, 0, -16, 0), BpfInsn::exit()];
    let program = Verifier::<CloudProfile>::verify(BpfProgType::SocketFilter, &insns).expect("verifies");
    assert_eq!(program.stack_size(), 23);
}

#[test]
fn alu32_division_checks_the_low_half_of_the_divisor() {
    // r1 = 1 << 32: nonzero, but its low half is zero.
    let prog = |div_opcode: u8| {
        [
            BpfInsn::mov64_imm(0, 10),
            BpfInsn::mov64_imm(1, 1),
            BpfInsn::new(0x67, 1, 0, 0, 32),
            BpfInsn::new(div_opcode, 0, 1, 0, 0),
            BpfInsn::exit(),
        ]
    };
    assert!(matches!(
        Verifier::<CloudProfile>::verify(BpfProgType::SocketFilter, &prog(0x3c)),
        Err(VerifyError::DivisionByZero { insn_idx: 3 })
    ));
    assert!(Verifier::<CloudProfile>::verify(BpfProgType::SocketFilter, &prog(0x3f)).is_ok());
}

#[test]
fn stack_accesses_must_end_at_the_frame_pointer() {
    // A load back through the frame pointer of what was stored there.
    let insns = [
        BpfInsn::mov64_imm(1, 7),
        BpfInsn::new(0x7b, 10, 1, -8, 0),
        BpfInsn::new(0x79, 0, 10, -8, 0),
        BpfInsn::exit(),
    ];
    assert!(Verifier::<CloudProfile>::verify(BpfProgType::SocketFilter, &insns).is_ok());

    // Eight bytes from fp-1 reach past the frame pointer.
    let insns = [BpfInsn::mov64_imm(1, 7), BpfInsn::new(0x7b, 10, 1, -1, 0), BpfInsn::mov64_imm(0, 0), BpfInsn::exit()];
    assert!(matches!(
        Verifier::<CloudProfile>::verify(BpfProgType::SocketFilter, &insns),
        Err(VerifyError::OutOfBoundsAccess { insn_idx: 1, offset: -1, size: 8 })
    ));

    // A store of an immediate is held to the same bounds.
    let insns = [BpfInsn::new(0x7a, 10, 0, 0, 5), BpfInsn::mov64_imm(0, 0), BpfInsn::exit()];
    assert!(matches!(
        Verifier::<CloudProfile>::verify(BpfProgType::SocketFilter, &insns),
        Err(VerifyError::OutOfBoundsAccess { insn_idx: 0, offset: 0, size: 8 })
    ));
}
