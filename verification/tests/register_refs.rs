use axiom_kernel::bpf_verifier::state::{RegState, ScalarValue, VerifierState};
use axiom_kernel::bytecode::registers::{Register, RegisterFile};

#[test]
fn writing_through_get_mut_sets_the_register() {
    let mut regs = RegisterFile::new();
    *regs.get_mut(Register::R3) = 77;
    assert_eq!(regs.get(Register::R3), 77);
    assert_eq!(regs.get(Register::R2), 0);
}

#[test]
fn writing_through_reg_mut_sets_the_register_state() {
    let mut state = VerifierState::new_entry(512);
    *state.reg_mut(Register::R4) = RegState::scalar(Some(ScalarValue::constant(9)));
    assert_eq!(state.reg(Register::R4).scalar_value, Some(ScalarValue::constant(9)));
}
