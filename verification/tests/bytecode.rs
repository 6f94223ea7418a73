use axiom_kernel::bytecode::opcode::{AluOp, JmpOp, MemSize, OpcodeClass, SourceType};
use axiom_kernel::bytecode::registers::{Register, RegisterFile};

#[test]
fn opcode_class_extraction() {
    assert_eq!(OpcodeClass::from_opcode(0x07), Some(OpcodeClass::Alu64));
    assert_eq!(OpcodeClass::from_opcode(0x04), Some(OpcodeClass::Alu32));
    assert_eq!(OpcodeClass::from_opcode(0x05), Some(OpcodeClass::Jmp));
    assert_eq!(OpcodeClass::from_opcode(0x61), Some(OpcodeClass::Ldx));
}

#[test]
fn source_type_extraction() {
    assert_eq!(SourceType::from_opcode(0x07), SourceType::Imm);
    assert_eq!(SourceType::from_opcode(0x0f), SourceType::Reg);
}

#[test]
fn alu_op_extraction() {
    assert_eq!(AluOp::from_opcode(0x07), Some(AluOp::Add));
    assert_eq!(AluOp::from_opcode(0x17), Some(AluOp::Sub));
    assert_eq!(AluOp::from_opcode(0xb7), Some(AluOp::Mov));
}

#[test]
fn jmp_op_extraction() {
    assert_eq!(JmpOp::from_opcode(0x05), Some(JmpOp::Ja));
    assert_eq!(JmpOp::from_opcode(0x95), Some(JmpOp::Exit));
    assert_eq!(JmpOp::from_opcode(0x85), Some(JmpOp::Call));
}

#[test]
fn mem_size_bytes() {
    assert_eq!(MemSize::Byte.size_bytes(), 1);
    assert_eq!(MemSize::Half.size_bytes(), 2);
    assert_eq!(MemSize::Word.size_bytes(), 4);
    assert_eq!(MemSize::DWord.size_bytes(), 8);
}

#[test]
fn register_from_raw() {
    assert_eq!(Register::from_raw(0), Some(Register::R0));
    assert_eq!(Register::from_raw(10), Some(Register::R10));
    assert_eq!(Register::from_raw(11), None);
    assert_eq!(Register::from_raw(255), None);
}

#[test]
fn register_properties() {
    assert!(Register::R0.is_caller_saved());
    assert!(Register::R5.is_caller_saved());
    assert!(!Register::R6.is_caller_saved());

    assert!(!Register::R5.is_callee_saved());
    assert!(Register::R6.is_callee_saved());
    assert!(Register::R9.is_callee_saved());
    assert!(!Register::R10.is_callee_saved());

    assert!(!Register::R9.is_frame_pointer());
    assert!(Register::R10.is_frame_pointer());

    assert!(Register::R0.is_writable());
    assert!(Register::R9.is_writable());
    assert!(!Register::R10.is_writable());
}

#[test]
fn register_file_operations() {
    let mut regs = RegisterFile::new();

    assert_eq!(regs.get(Register::R0), 0);
    assert_eq!(regs.get(Register::R10), 0);

    regs.set(Register::R1, 0x1234);
    assert_eq!(regs.get(Register::R1), 0x1234);

    regs.init_for_entry(0xdead, 0xbeef);
    assert_eq!(regs.context_ptr(), 0xdead);
    assert_eq!(regs.frame_ptr(), 0xbeef);
    assert_eq!(regs.return_value(), 0);
}

#[test]
fn register_round_trip_through_raw() {
    for raw in 0u8..11 {
        let reg = Register::from_raw(raw).unwrap();
        assert_eq!(reg.as_raw(), raw);
    }
}

#[test]
fn decode_rejects_unknown_class_bits() {
    assert_eq!(AluOp::from_opcode(0xe7), None);
    assert_eq!(JmpOp::from_opcode(0xf5), None);
}
