use axiom_kernel::bpf_verifier::alu::compute_alu_result;
use axiom_kernel::bpf_verifier::checks::{verify_alu, verify_memory};
use axiom_kernel::bpf_verifier::error::VerifyError;
use axiom_kernel::bpf_verifier::state::{RegType, ScalarValue, VerifierState};
use axiom_kernel::bpf_verifier::tnum::TnumValue;
use axiom_kernel::bytecode::insn::BpfInsn;
use axiom_kernel::bytecode::opcode::AluOp;
use axiom_kernel::bytecode::registers::Register;

#[test]
fn mov_immediate_gives_a_constant() {
    let mut s = VerifierState::new_entry(512);
    assert_eq!(verify_alu(&BpfInsn::mov64_imm(0, 5), &mut s, 0), Ok(()));
    let r0 = s.reg(Register::R0);
    assert_eq!(r0.reg_type, RegType::Scalar);
    let sv = r0.scalar_value.expect("tracked");
    assert_eq!(sv.value, Some(5));
    assert_eq!((sv.min, sv.max), (5, 5));
}

#[test]
fn add_after_mov_tracks_the_sum() {
    let mut s = VerifierState::new_entry(512);
    assert_eq!(verify_alu(&BpfInsn::mov64_imm(2, 40), &mut s, 0), Ok(()));
    assert_eq!(verify_alu(&BpfInsn::add64_imm(2, 2), &mut s, 1), Ok(()));
    assert_eq!(s.reg(Register::R2).scalar_value.expect("tracked").value, Some(42));
}

#[test]
fn division_by_a_known_nonzero_register_is_accepted() {
    let mut s = VerifierState::new_entry(512);
    assert_eq!(verify_alu(&BpfInsn::mov64_imm(0, 10), &mut s, 0), Ok(()));
    assert_eq!(verify_alu(&BpfInsn::mov64_imm(1, 5), &mut s, 1), Ok(()));
    // DIV r0, r1
    assert_eq!(verify_alu(&BpfInsn::new(0x3f, 0, 1, 0, 0), &mut s, 2), Ok(()));
    assert_eq!(s.reg(Register::R0).scalar_value.expect("tracked").value, Some(2));
}

#[test]
fn alu32_operations_give_an_unknown_scalar() {
    let mut s = VerifierState::new_entry(512);
    assert_eq!(verify_alu(&BpfInsn::mov64_imm(0, 5), &mut s, 0), Ok(()));
    // ADD32 r0, 1
    assert_eq!(verify_alu(&BpfInsn::new(0x04, 0, 0, 0, 1), &mut s, 1), Ok(()));
    assert_eq!(s.reg(Register::R0).scalar_value, Some(ScalarValue::unknown()));
    // MOV32 r0, 7 keeps the constant
    assert_eq!(verify_alu(&BpfInsn::new(0xb4, 0, 0, 0, 7), &mut s, 2), Ok(()));
    assert_eq!(s.reg(Register::R0).scalar_value.expect("tracked").value, Some(7));
}

fn range(min: u64, max: u64) -> ScalarValue {
    ScalarValue { value: None, min, max, tnum: TnumValue::unknown() }
}

#[test]
fn overflowing_left_shift_widens() {
    let r = compute_alu_result(range(1, 1 << 63), AluOp::Lsh, ScalarValue::constant(1));
    assert_eq!((r.min, r.max), (0, u64::MAX));
    assert!(r.min <= 2 && 2 <= r.max);
}

#[test]
fn non_overflowing_left_shift_keeps_the_interval() {
    let r = compute_alu_result(range(1, 0xff), AluOp::Lsh, ScalarValue::constant(4));
    assert_eq!((r.min, r.max), (0x10, 0xff0));
}

#[test]
fn failed_memory_check_leaves_the_state() {
    let mut s = VerifierState::new_entry(512);
    let before: Vec<_> = (0..11).map(|i| *s.reg(Register::from_raw(i).unwrap())).collect();
    // LDXDW r0, [r3 + 0]: r3 holds nothing yet.
    let insn = BpfInsn::new(0x79, 0, 3, 0, 0);
    assert_eq!(
        verify_memory(&insn, &mut s, 0),
        Err(VerifyError::UninitializedRegister { insn_idx: 0, reg: Register::R3 })
    );
    for i in 0..11 {
        assert_eq!(*s.reg(Register::from_raw(i).unwrap()), before[i as usize]);
    }
}
