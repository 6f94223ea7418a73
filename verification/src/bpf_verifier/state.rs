//! Verifier state: register types, scalar ranges, stack slots, and the
//! whole state at a program point.
use vstd::prelude::*;

use crate::bpf_verifier::tnum::TnumValue;
use crate::bytecode::registers::Register;

verus! {

/// Type of the value held in a register.
#[derive(Debug, Clone, Copy, PartialEq, Eq, Structural)]
pub enum RegType {
    /// Not initialized
    NotInit,
    /// Scalar (integer)
    Scalar,
    /// Pointer into the stack frame
    PtrToStack,
    /// Pointer to a map value
    PtrToMapValue,
    /// Pointer to a map key
    PtrToMapKey,
    /// Pointer to the context
    PtrToCtx,
    /// Pointer to packet data
    PtrToPacket,
    /// Pointer to the end of packet data
    PtrToPacketEnd,
    /// Pointer to packet metadata
    PtrToPacketMeta,
    /// Constant pointer to a map
    ConstPtrToMap,
    /// Frame pointer (R10, read-only)
    PtrToFp,
    /// Null pointer
    NullPtr,
}

impl Default for RegType {
    fn default() -> (r: Self)
        ensures
            r == RegType::NotInit,
    {
        RegType::NotInit
    }
}

impl RegType {
    pub open spec fn spec_is_pointer(&self) -> bool {
        !(*self is NotInit || *self is Scalar)
    }

    pub open spec fn spec_can_read(&self) -> bool {
        *self is PtrToStack || *self is PtrToMapValue || *self is PtrToCtx || *self is PtrToPacket
            || *self is PtrToPacketMeta
    }

    pub open spec fn spec_can_write(&self) -> bool {
        *self is PtrToStack || *self is PtrToMapValue || *self is PtrToPacket
    }

    /// Check if this is a pointer type.
    #[verifier::when_used_as_spec(spec_is_pointer)]
    pub fn is_pointer(&self) -> (r: bool)
        ensures
            r == self.spec_is_pointer(),
    {
        !matches!(self, RegType::NotInit | RegType::Scalar)
    }

    /// Check if this type can be dereferenced for reading.
    #[verifier::when_used_as_spec(spec_can_read)]
    pub fn can_read(&self) -> (r: bool)
        ensures
            r == self.spec_can_read(),
    {
        matches!(
            self,
            RegType::PtrToStack | RegType::PtrToMapValue | RegType::PtrToCtx | RegType::PtrToPacket
                | RegType::PtrToPacketMeta
        )
    }

    /// Check if this type can be dereferenced for writing.
    #[verifier::when_used_as_spec(spec_can_write)]
    pub fn can_write(&self) -> (r: bool)
        ensures
            r == self.spec_can_write(),
    {
        matches!(self, RegType::PtrToStack | RegType::PtrToMapValue | RegType::PtrToPacket)
    }
}

/// Tracked scalar value: exact value if known, unsigned interval, tnum.
#[derive(Debug, Clone, Copy, PartialEq, Eq, Structural)]
pub struct ScalarValue {
    /// Known exact value, if constant
    pub value: Option<u64>,
    /// Minimum possible value
    pub min: u64,
    /// Maximum possible value
    pub max: u64,
    /// Bit-level knowledge
    pub tnum: TnumValue,
}

impl ScalarValue {
    /// `x` is a value this scalar description admits.
    pub open spec fn has(self, x: u64) -> bool {
        &&& self.min <= x <= self.max
        &&& self.tnum.has(x)
        &&& (self.value matches Some(v) ==> x == v)
    }

    /// The tnum is well-formed.
    pub open spec fn wf(self) -> bool {
        self.tnum.wf()
    }

    pub open spec fn spec_constant(value: u64) -> ScalarValue {
        ScalarValue {
            value: Some(value),
            min: value,
            max: value,
            tnum: TnumValue { value, mask: 0 },
        }
    }

    pub open spec fn spec_unknown() -> ScalarValue {
        ScalarValue {
            value: None,
            min: 0,
            max: u64::MAX,
            tnum: TnumValue { value: 0, mask: u64::MAX },
        }
    }

    /// A known constant.
    pub fn constant(value: u64) -> (r: Self)
        ensures
            r == ScalarValue::spec_constant(value),
    {
        ScalarValue { value: Some(value), min: value, max: value, tnum: TnumValue::constant(value) }
    }

    /// A completely unknown value.
    pub fn unknown() -> (r: Self)
        ensures
            r == ScalarValue::spec_unknown(),
    {
        ScalarValue { value: None, min: 0, max: u64::MAX, tnum: TnumValue::unknown() }
    }

    /// Check if this is a known constant.
    pub fn is_constant(&self) -> (r: bool)
        ensures
            r == (self.value is Some),
    {
        self.value.is_some()
    }

    /// Check if the value is known to be zero.
    pub fn is_zero(&self) -> (r: bool)
        ensures
            r == (self.value == Some(0u64)),
    {
        match self.value {
            Some(v) => v == 0,
            None => false,
        }
    }

    /// Check if the value could be zero: its minimum is zero or it is the constant zero.
    pub fn could_be_zero(&self) -> (r: bool)
        ensures
            r == (self.min == 0 || self.value == Some(0u64)),
    {
        self.min == 0 || self.is_zero()
    }
}

/// A constant admits exactly itself.
pub proof fn lemma_constant_has_exactly(c: u64, x: u64)
    ensures
        ScalarValue::spec_constant(c).has(x) <==> x == c,
        ScalarValue::spec_constant(c).wf(),
{
    assert(x & !0u64 == x && c & 0u64 == 0) by (bit_vector);
}

/// The unknown scalar admits every value.
pub proof fn lemma_unknown_has_all(x: u64)
    ensures
        ScalarValue::spec_unknown().has(x),
        ScalarValue::spec_unknown().wf(),
{
    assert(x & !0xffff_ffff_ffff_ffffu64 == 0 && 0u64 & 0xffff_ffff_ffff_ffffu64 == 0)
        by (bit_vector);
}

/// A scalar that admits no value other than zero can never be zero only if
/// `could_be_zero` is false: when `could_be_zero` is false, zero is not admitted.
pub proof fn lemma_not_could_be_zero(s: ScalarValue)
    requires
        !(s.min == 0 || s.value == Some(0u64)),
    ensures
        !s.has(0),
{
}

impl Default for ScalarValue {
    fn default() -> (r: Self)
        ensures
            r == ScalarValue::spec_unknown(),
    {
        ScalarValue::unknown()
    }
}

/// State of a single register during verification.
#[derive(Debug, Clone, Copy, PartialEq, Eq, Structural)]
pub struct RegState {
    /// Type of the value in the register
    pub reg_type: RegType,
    /// For scalars: tracked value, if any
    pub scalar_value: Option<ScalarValue>,
    /// For pointers: offset from the base
    pub ptr_offset: i64,
    /// For map pointers: map ID
    pub map_id: Option<u32>,
}

impl RegState {
    pub open spec fn spec_uninit() -> RegState {
        RegState { reg_type: RegType::NotInit, scalar_value: None, ptr_offset: 0, map_id: None }
    }

    pub open spec fn spec_scalar(value: Option<ScalarValue>) -> RegState {
        RegState { reg_type: RegType::Scalar, scalar_value: value, ptr_offset: 0, map_id: None }
    }

    /// An uninitialized register.
    pub fn uninit() -> (r: Self)
        ensures
            r == RegState::spec_uninit(),
    {
        RegState { reg_type: RegType::NotInit, scalar_value: None, ptr_offset: 0, map_id: None }
    }

    /// A scalar register.
    pub fn scalar(value: Option<ScalarValue>) -> (r: Self)
        ensures
            r == RegState::spec_scalar(value),
    {
        RegState { reg_type: RegType::Scalar, scalar_value: value, ptr_offset: 0, map_id: None }
    }

    /// A pointer into the stack at `offset`.
    pub fn stack_ptr(offset: i64) -> (r: Self)
        ensures
            r == (RegState {
                reg_type: RegType::PtrToStack,
                scalar_value: None,
                ptr_offset: offset,
                map_id: None,
            }),
    {
        RegState {
            reg_type: RegType::PtrToStack,
            scalar_value: None,
            ptr_offset: offset,
            map_id: None,
        }
    }

    /// The frame pointer (R10).
    pub fn frame_ptr() -> (r: Self)
        ensures
            r == (RegState {
                reg_type: RegType::PtrToFp,
                scalar_value: None,
                ptr_offset: 0,
                map_id: None,
            }),
    {
        RegState { reg_type: RegType::PtrToFp, scalar_value: None, ptr_offset: 0, map_id: None }
    }

    /// The context pointer (R1 at entry).
    pub fn ctx_ptr() -> (r: Self)
        ensures
            r == (RegState {
                reg_type: RegType::PtrToCtx,
                scalar_value: None,
                ptr_offset: 0,
                map_id: None,
            }),
    {
        RegState { reg_type: RegType::PtrToCtx, scalar_value: None, ptr_offset: 0, map_id: None }
    }

    /// Check if the register is initialized.
    pub fn is_init(&self) -> (r: bool)
        ensures
            r == !(self.reg_type is NotInit),
    {
        !matches!(self.reg_type, RegType::NotInit)
    }
}

impl Default for RegState {
    fn default() -> (r: Self)
        ensures
            r == RegState::spec_uninit(),
    {
        RegState::uninit()
    }
}

/// State of a stack slot.
#[derive(Debug, Clone, Copy, PartialEq, Eq, Structural)]
pub enum StackSlot {
    /// Invalid or uninitialized
    Invalid,
    /// Spilled register
    Spill(Register),
    /// Scalar data
    Scalar,
    /// Zero
    Zero,
}

impl Default for StackSlot {
    fn default() -> (r: Self)
        ensures
            r == StackSlot::Invalid,
    {
        StackSlot::Invalid
    }
}

/// Stack state during verification: one slot per byte below the frame
/// pointer (slot 0 is FP-1), and the deepest slot written so far.
pub struct StackState {
    slots: Vec<StackSlot>,
    max_depth: usize,
}

impl StackState {
    /// The slots, slot `i` standing for FP-(i+1).
    pub closed spec fn slots(self) -> Seq<StackSlot> {
        self.slots@
    }

    /// Deepest written slot count.
    pub closed spec fn depth(self) -> nat {
        self.max_depth as nat
    }

    /// `offset` is a valid slot offset: negative and within the stack.
    pub open spec fn offset_in_range(self, offset: i64) -> bool {
        offset < 0 && -offset <= self.slots().len()
    }

    /// A stack of `max_size` invalid slots.
    pub fn new(max_size: usize) -> (r: Self)
        requires
            max_size <= i64::MAX,
        ensures
            r.slots() == Seq::new(max_size as nat, |i: int| StackSlot::Invalid),
            r.depth() == 0,
    {
        let mut slots: Vec<StackSlot> = Vec::new();
        let mut i: usize = 0;
        while i < max_size
            invariant
                i <= max_size,
                slots@ == Seq::new(i as nat, |j: int| StackSlot::Invalid),
            decreases max_size - i,
        {
            slots.push(StackSlot::Invalid);
            i = i + 1;
            assert(slots@ =~= Seq::new(i as nat, |j: int| StackSlot::Invalid));
        }
        StackState { slots, max_depth: 0 }
    }

    /// The slot at `offset` from FP, if the offset is in range.
    pub fn get(&self, offset: i64) -> (r: Option<StackSlot>)
        ensures
            self.offset_in_range(offset) ==> r == Some(self.slots()[-offset - 1]),
            !self.offset_in_range(offset) ==> r is None,
    {
        let len = self.slots.len() as i128;
        if offset >= 0 || (offset as i128) < -len {
            return None;
        }
        let idx = (-(offset as i128) - 1) as usize;
        Some(self.slots[idx])
    }

    /// Set the slot at `offset` from FP; false when the offset is out of range.
    pub fn set(&mut self, offset: i64, slot: StackSlot) -> (r: bool)
        ensures
            r == old(self).offset_in_range(offset),
            r ==> final(self).slots() == old(self).slots().update(-offset - 1, slot),
            r ==> final(self).depth() == (if -offset > old(self).depth() {
                (-offset) as nat
            } else {
                old(self).depth()
            }),
            !r ==> final(self).slots() == old(self).slots() && final(self).depth() == old(
                self,
            ).depth(),
    {
        let len = self.slots.len() as i128;
        if offset >= 0 || (offset as i128) < -len {
            return false;
        }
        let idx = (-(offset as i128) - 1) as usize;
        self.slots.set(idx, slot);
        let depth = idx + 1;
        if depth > self.max_depth {
            self.max_depth = depth;
        }
        true
    }

    /// The slot at index `idx` (standing for FP-(idx+1)), if in range.
    pub fn slot(&self, idx: usize) -> (r: Option<StackSlot>)
        ensures
            idx < self.slots().len() ==> r == Some(self.slots()[idx as int]),
            idx >= self.slots().len() ==> r is None,
    {
        if idx < self.slots.len() {
            Some(self.slots[idx])
        } else {
            None
        }
    }

    /// The deepest slot written so far.
    pub fn max_depth(&self) -> (r: usize)
        ensures
            r == self.depth(),
    {
        self.max_depth
    }

    /// Whether an access of `size` bytes at `offset` lies within the stack:
    /// the offset is negative, `offset - size + 1` is not below the bottom,
    /// and the bytes from `offset` on end at the frame pointer or below it.
    pub fn is_valid_access(&self, offset: i64, size: usize) -> (r: bool)
        ensures
            r == (offset < 0 && offset - size + 1 >= -(self.slots().len() as int) && offset + size <= 0),
    {
        if offset >= 0 {
            return false;
        }
        let len = self.slots.len() as i128;
        let end_offset = (offset as i128) - (size as i128) + 1;
        if end_offset < -len {
            return false;
        }
        if (offset as i128) + (size as i128) > 0 {
            return false;
        }
        true
    }

    /// Number of slots.
    pub fn capacity(&self) -> (r: usize)
        ensures
            r == self.slots().len(),
    {
        self.slots.len()
    }
}

impl Clone for StackState {
    fn clone(&self) -> (r: Self)
        ensures
            r.slots() == self.slots(),
            r.depth() == self.depth(),
    {
        StackState { slots: self.slots.clone(), max_depth: self.max_depth }
    }
}

/// The complete verifier state at a program point.
pub struct VerifierState {
    /// Register states
    pub regs: [RegState; 11],
    /// Stack state
    pub stack: StackState,
    /// Current instruction index
    pub insn_idx: usize,
    /// Number of instructions processed
    pub insn_processed: usize,
}

/// The parts of a verifier state that the analysis looks at.
pub struct AbsState {
    pub regs: Seq<RegState>,
    pub slots: Seq<StackSlot>,
    pub depth: nat,
}

/// Abstract view of a verifier state.
pub open spec fn abs_state(s: &VerifierState) -> AbsState {
    AbsState { regs: s.regs@, slots: s.stack.slots(), depth: s.stack.depth() }
}

/// The register states at program entry: R1 is the context pointer, R10
/// the frame pointer, the rest uninitialized.
pub open spec fn entry_regs() -> Seq<RegState> {
    Seq::new(
        11,
        |i: int|
            if i == 1 {
                RegState {
                    reg_type: RegType::PtrToCtx,
                    scalar_value: None,
                    ptr_offset: 0,
                    map_id: None,
                }
            } else if i == 10 {
                RegState {
                    reg_type: RegType::PtrToFp,
                    scalar_value: None,
                    ptr_offset: 0,
                    map_id: None,
                }
            } else {
                RegState::spec_uninit()
            },
    )
}

impl VerifierState {
    /// Register `reg` is initialized in this state.
    pub open spec fn reg_init(&self, reg: Register) -> bool {
        !(self.regs@[reg.index() as int].reg_type is NotInit)
    }

    /// The initial state at program entry.
    pub fn new_entry(stack_size: usize) -> (r: Self)
        requires
            stack_size <= i64::MAX,
        ensures
            r.regs@ == entry_regs(),
            r.stack.slots() == Seq::new(stack_size as nat, |i: int| StackSlot::Invalid),
            r.stack.depth() == 0,
            r.insn_idx == 0,
            r.insn_processed == 0,
    {
        let regs = [
            RegState::uninit(),
            RegState::ctx_ptr(),
            RegState::uninit(),
            RegState::uninit(),
            RegState::uninit(),
            RegState::uninit(),
            RegState::uninit(),
            RegState::uninit(),
            RegState::uninit(),
            RegState::uninit(),
            RegState::frame_ptr(),
        ];
        assert(regs@ =~= entry_regs());
        VerifierState { regs, stack: StackState::new(stack_size), insn_idx: 0, insn_processed: 0 }
    }

    /// The state of a register.
    pub fn reg(&self, reg: Register) -> (r: &RegState)
        ensures
            *r == self.regs@[reg.index() as int],
    {
        &self.regs[reg.as_index()]
    }

    /// A mutable reference to the state of a register; what is written
    /// through it becomes the register's state, and nothing else changes.
    pub fn reg_mut(&mut self, reg: Register) -> (r: &mut RegState)
        ensures
            *r == old(self).regs@[reg.index() as int],
            final(self).regs@ == old(self).regs@.update(reg.index() as int, *final(r)),
            final(self).stack == old(self).stack,
            final(self).insn_idx == old(self).insn_idx,
            final(self).insn_processed == old(self).insn_processed,
    {
        &mut self.regs[reg.as_index()]
    }

    /// Replace the state of a register.
    pub fn set_reg(&mut self, reg: Register, state: RegState)
        ensures
            final(self).regs@ == old(self).regs@.update(reg.index() as int, state),
            final(self).stack.slots() == old(self).stack.slots(),
            final(self).stack.depth() == old(self).stack.depth(),
            final(self).insn_idx == old(self).insn_idx,
            final(self).insn_processed == old(self).insn_processed,
    {
        self.regs[reg.as_index()] = state;
    }

    /// Check if a register is initialized.
    pub fn is_reg_init(&self, reg: Register) -> (r: bool)
        ensures
            r == self.reg_init(reg),
    {
        self.regs[reg.as_index()].is_init()
    }

    /// Mark a register as holding a scalar.
    pub fn set_scalar(&mut self, reg: Register, value: Option<ScalarValue>)
        ensures
            final(self).regs@ == old(self).regs@.update(
                reg.index() as int,
                RegState::spec_scalar(value),
            ),
            final(self).stack.slots() == old(self).stack.slots(),
            final(self).stack.depth() == old(self).stack.depth(),
            final(self).insn_idx == old(self).insn_idx,
            final(self).insn_processed == old(self).insn_processed,
    {
        self.regs[reg.as_index()] = RegState::scalar(value);
    }

    /// Advance to the next instruction.
    pub fn advance(&mut self)
        requires
            old(self).insn_idx < usize::MAX,
            old(self).insn_processed < usize::MAX,
        ensures
            final(self).insn_idx == old(self).insn_idx + 1,
            final(self).insn_processed == old(self).insn_processed + 1,
            final(self).regs == old(self).regs,
            final(self).stack.slots() == old(self).stack.slots(),
            final(self).stack.depth() == old(self).stack.depth(),
    {
        self.insn_idx = self.insn_idx + 1;
        self.insn_processed = self.insn_processed + 1;
    }

    /// Jump to instruction `idx`.
    pub fn jump_to(&mut self, idx: usize)
        requires
            old(self).insn_processed < usize::MAX,
        ensures
            final(self).insn_idx == idx,
            final(self).insn_processed == old(self).insn_processed + 1,
            final(self).regs == old(self).regs,
            final(self).stack.slots() == old(self).stack.slots(),
            final(self).stack.depth() == old(self).stack.depth(),
    {
        self.insn_idx = idx;
        self.insn_processed = self.insn_processed + 1;
    }
}

impl Clone for VerifierState {
    fn clone(&self) -> (r: Self)
        ensures
            r.regs == self.regs,
            r.stack.slots() == self.stack.slots(),
            r.stack.depth() == self.stack.depth(),
            r.insn_idx == self.insn_idx,
            r.insn_processed == self.insn_processed,
    {
        VerifierState {
            regs: self.regs,
            stack: self.stack.clone(),
            insn_idx: self.insn_idx,
            insn_processed: self.insn_processed,
        }
    }
}

} // verus!
