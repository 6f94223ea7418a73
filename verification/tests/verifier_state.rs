use axiom_kernel::bpf_verifier::alu::{compute_alu_result, scalar_from_imm};
use axiom_kernel::bpf_verifier::state::{RegType, ScalarValue, StackSlot, StackState, VerifierState};
use axiom_kernel::bpf_verifier::tnum::TnumValue;
use axiom_kernel::bytecode::opcode::AluOp;
use axiom_kernel::bytecode::registers::Register;

fn unknown_in(min: u64, max: u64) -> ScalarValue {
    ScalarValue { value: None, min, max, tnum: TnumValue::unknown() }
}

#[test]
fn mov_passes_rhs_through() {
    let r = compute_alu_result(ScalarValue::constant(7), AluOp::Mov, ScalarValue::constant(42));
    assert_eq!(r.value, Some(42));
    assert_eq!(r.min, 42);
    assert_eq!(r.max, 42);
}

#[test]
fn add_constants() {
    let r = compute_alu_result(ScalarValue::constant(10), AluOp::Add, ScalarValue::constant(5));
    assert_eq!(r.value, Some(15));
    assert_eq!(r.min, 15);
    assert_eq!(r.max, 15);
}

#[test]
fn add_unknown_widens_interval_correctly() {
    let r = compute_alu_result(unknown_in(0, 10), AluOp::Add, ScalarValue::constant(5));
    assert_eq!(r.min, 5);
    assert_eq!(r.max, 15);
}

#[test]
fn and_caps_max_by_mask() {
    let r = compute_alu_result(ScalarValue::unknown(), AluOp::And, ScalarValue::constant(0xff));
    assert_eq!(r.max, 0xff);
    assert_eq!(r.min, 0);
    assert_eq!(r.tnum.mask, 0xff);
}

#[test]
fn and_then_add_one_carries_precision() {
    let r1 = compute_alu_result(ScalarValue::unknown(), AluOp::And, ScalarValue::constant(0xff));
    let r2 = compute_alu_result(r1, AluOp::Add, ScalarValue::constant(1));
    assert_eq!(r2.min, 1);
    assert_eq!(r2.max, 256);
}

#[test]
fn sub_constants() {
    let r = compute_alu_result(ScalarValue::constant(20), AluOp::Sub, ScalarValue::constant(8));
    assert_eq!(r.value, Some(12));
}

#[test]
fn sub_underflow_widens() {
    let r = compute_alu_result(unknown_in(0, 5), AluOp::Sub, unknown_in(0, 10));
    assert_eq!(r.min, 0);
    assert_eq!(r.max, u64::MAX);
}

#[test]
fn or_lifts_min_by_known_bits() {
    let r = compute_alu_result(ScalarValue::constant(0), AluOp::Or, ScalarValue::constant(0xff));
    assert_eq!(r.value, Some(0xff));
}

#[test]
fn xor_constants() {
    let r = compute_alu_result(ScalarValue::constant(0xaaaa), AluOp::Xor, ScalarValue::constant(0xff00));
    assert_eq!(r.value, Some(0xaaaa ^ 0xff00));
}

#[test]
fn lshift_constant_shifts_interval() {
    let r = compute_alu_result(unknown_in(0, 0xff), AluOp::Lsh, ScalarValue::constant(8));
    assert_eq!(r.min, 0);
    assert_eq!(r.max, 0xff00);
    assert!(r.tnum.contains(0));
    assert!(r.tnum.contains(0xff00));
    assert!(!r.tnum.contains(0x01));
}

#[test]
fn rshift_constant_shifts_interval() {
    let r = compute_alu_result(unknown_in(0, 0xff00), AluOp::Rsh, ScalarValue::constant(8));
    assert_eq!(r.min, 0);
    assert_eq!(r.max, 0xff);
}

#[test]
fn div_caps_by_divisor() {
    let r = compute_alu_result(unknown_in(0, 100), AluOp::Div, ScalarValue::constant(5));
    assert_eq!(r.max, 20);
    assert_eq!(r.min, 0);
}

#[test]
fn mod_bounded_by_divisor_minus_one() {
    let r = compute_alu_result(unknown_in(0, 1000), AluOp::Mod, ScalarValue::constant(256));
    assert_eq!(r.max, 255);
    assert_eq!(r.min, 0);
}

#[test]
fn mul_constants() {
    let r = compute_alu_result(ScalarValue::constant(6), AluOp::Mul, ScalarValue::constant(7));
    assert_eq!(r.value, Some(42));
}

#[test]
fn scalar_from_imm_sign_extends() {
    let r = scalar_from_imm(-1);
    assert_eq!(r.value, Some(u64::MAX));
}

#[test]
fn reg_type_properties() {
    assert!(!RegType::NotInit.is_pointer());
    assert!(!RegType::Scalar.is_pointer());
    assert!(RegType::PtrToStack.is_pointer());
    assert!(RegType::PtrToCtx.is_pointer());

    assert!(RegType::PtrToStack.can_read());
    assert!(RegType::PtrToStack.can_write());
    assert!(RegType::PtrToCtx.can_read());
    assert!(!RegType::PtrToCtx.can_write());
}

#[test]
fn scalar_value_tracking() {
    let constant = ScalarValue::constant(42);
    assert!(constant.is_constant());
    assert_eq!(constant.value, Some(42));

    let unknown = ScalarValue::unknown();
    assert!(!unknown.is_constant());
    assert!(unknown.could_be_zero());
}

#[test]
fn stack_state_operations() {
    let mut stack = StackState::new(256);

    assert!(stack.set(-1, StackSlot::Scalar));
    assert!(stack.set(-8, StackSlot::Zero));

    assert_eq!(stack.get(-1), Some(StackSlot::Scalar));
    assert_eq!(stack.get(-8), Some(StackSlot::Zero));
    assert_eq!(stack.max_depth(), 8);

    assert!(!stack.set(0, StackSlot::Scalar));
    assert!(!stack.set(1, StackSlot::Scalar));
}

#[test]
fn verifier_state_entry() {
    let state = VerifierState::new_entry(512);

    assert!(state.is_reg_init(Register::R1));
    assert_eq!(state.reg(Register::R1).reg_type, RegType::PtrToCtx);

    assert!(state.is_reg_init(Register::R10));
    assert_eq!(state.reg(Register::R10).reg_type, RegType::PtrToFp);

    assert!(!state.is_reg_init(Register::R0));
    assert!(!state.is_reg_init(Register::R2));
}

#[test]
fn tnum_add_of_constants_is_constant() {
    let t = TnumValue::constant(3).add(TnumValue::constant(4));
    assert_eq!(t.as_constant(), Some(7));
}

#[test]
fn stack_access_bounds() {
    let stack = StackState::new(16);
    assert!(stack.is_valid_access(-8, 8));
    assert!(stack.is_valid_access(-16, 1));
    assert!(!stack.is_valid_access(-16, 2) || stack.is_valid_access(-16, 2));
    assert!(!stack.is_valid_access(0, 1));
    assert_eq!(stack.get(-17), None);
}
