//! The streaming verifier for memory-constrained systems.
//!
//! Instructions are processed in a forward pass over basic blocks, with a
//! bounded worklist of pending blocks and a bounded set of merge points at
//! which incoming states are merged conservatively. Every queued block is
//! walked from the state it was queued with; a block is not queued again
//! when the state reaching it has the register types already merged at its
//! start. Verification itself is bounded: at most as many block walks as
//! the profile allows instructions.
use vstd::prelude::*;

use crate::bpf_verifier::checks::{
    basic_check, check_basic, insn_step, state_ok, verify_insn, InsnResult,
};
use crate::bpf_verifier::core_verifier::{allocating_helper, copy_insns, states_compatible};
use crate::bpf_verifier::error::VerifyError;
use crate::bpf_verifier::state::{
    abs_state, entry_regs, AbsState, RegState, RegType, ScalarValue, StackSlot, VerifierState,
};
use crate::bytecode::insn::BpfInsn;
use crate::bytecode::program::{BpfProgType, BpfProgram, ProgramError};
use crate::profile::PhysicalProfile;
use core::marker::PhantomData;

verus! {

/// Pending blocks the worklist holds at most.
pub open spec fn worklist_limit(strict: bool) -> usize {
    if strict {
        16
    } else {
        64
    }
}

/// Merge points kept at most.
pub open spec fn merge_limit(strict: bool) -> usize {
    if strict {
        32
    } else {
        256
    }
}

/// Times a loop header may be reached through a back edge.
pub open spec fn loop_limit(strict: bool) -> usize {
    if strict {
        100
    } else {
        1000
    }
}

/// The jump-class instruction at `j` makes `i` the start of a basic block:
/// `i` is its in-range target, or its fallthrough when it is conditional.
pub open spec fn marks_leader(insns: Seq<BpfInsn>, j: int, i: int) -> bool {
    let insn = insns[j];
    &&& !insn.spec_is_exit()
    &&& insn.spec_jmp_op() is Some
    &&& ((j + 1 + insn.offset == i && 0 <= i < insns.len()) || (
    insn.spec_jmp_op().unwrap().spec_is_conditional() && i == j + 1 && j + 1 < insns.len()))
}

/// `i` starts a basic block: the entry, or a block marked by a jump.
pub open spec fn is_leader(insns: Seq<BpfInsn>, i: int) -> bool {
    i == 0 || exists|j: int| 0 <= j < insns.len() && #[trigger] marks_leader(insns, j, i)
}

/// `leaders` lists the block starts of `insns` in increasing order.
pub open spec fn leaders_ok(leaders: Seq<usize>, insns: Seq<BpfInsn>) -> bool {
    &&& forall|a: int, b: int| 0 <= a < b < leaders.len() ==> leaders[a] < leaders[b]
    &&& forall|k: int| 0 <= k < leaders.len() ==> is_leader(insns, leaders[k] as int)
    &&& forall|i: int| #[trigger] is_leader(insns, i) ==> exists|k: int|
        0 <= k < leaders.len() && leaders[k] == i
}

/// The jump target of the instruction at `idx` with `offset`, when it is
/// not negative.
pub fn compute_jump_target(idx: usize, offset: i16) -> (r: Option<usize>)
    requires
        idx <= 0x1000_0000,
    ensures
        idx + 1 + offset >= 0 ==> r == Some((idx + 1 + offset) as usize),
        idx + 1 + offset < 0 ==> r is None,
{
    let target = (idx as i64) + 1 + (offset as i64);
    if target >= 0 {
        Some(target as usize)
    } else {
        None
    }
}

/// The block starts of `insns`, in increasing order.
pub fn block_leaders(insns: &[BpfInsn]) -> (r: Vec<usize>)
    requires
        0 < insns@.len() <= 0x1000_0000,
    ensures
        leaders_ok(r@, insns@),
{
    let n = insns.len();
    let mut flags: Vec<bool> = Vec::new();
    let mut k: usize = 0;
    while k < n
        invariant
            k <= n,
            flags@.len() == k,
            forall|i: int| 0 <= i < k ==> flags@[i] == (i == 0),
        decreases n - k,
    {
        flags.push(k == 0);
        k = k + 1;
    }
    let mut idx: usize = 0;
    while idx < n
        invariant
            idx <= n,
            n == insns@.len(),
            n <= 0x1000_0000,
            flags@.len() == n,
            forall|i: int|
                0 <= i < n ==> flags@[i] == (i == 0 || exists|j: int|
                    0 <= j < idx && #[trigger] marks_leader(insns@, j, i)),
        decreases n - idx,
    {
        let insn = insns[idx];
        let ghost before = flags@;
        if !insn.is_exit() {
            match insn.jmp_op() {
                Some(op) => {
                    match compute_jump_target(idx, insn.offset) {
                        Some(t) => {
                            if t < n {
                                flags.set(t, true);
                            }
                        },
                        None => {},
                    }
                    if op.is_conditional() && idx + 1 < n {
                        flags.set(idx + 1, true);
                    }
                },
                None => {},
            }
        }
        assert forall|i: int| 0 <= i < n implies flags@[i] == (i == 0 || exists|j: int|
            0 <= j < idx + 1 && #[trigger] marks_leader(insns@, j, i)) by {
            if marks_leader(insns@, idx as int, i) {
                assert(flags@[i]);
            } else {
                if exists|j: int| 0 <= j < idx + 1 && #[trigger] marks_leader(insns@, j, i) {
                    let j = choose|j: int| 0 <= j < idx + 1 && #[trigger] marks_leader(insns@, j, i);
                    assert(j < idx);
                }
                assert(flags@[i] == before[i]);
            }
        }
        idx = idx + 1;
    }
    let mut leaders: Vec<usize> = Vec::new();
    let mut i: usize = 0;
    while i < n
        invariant
            i <= n,
            n == insns@.len(),
            flags@.len() == n,
            forall|x: int|
                0 <= x < n ==> flags@[x] == (x == 0 || exists|j: int|
                    0 <= j < n && #[trigger] marks_leader(insns@, j, x)),
            forall|a: int, b: int| 0 <= a < b < leaders@.len() ==> leaders@[a] < leaders@[b],
            forall|k: int| 0 <= k < leaders@.len() ==> leaders@[k] < i,
            forall|k: int| 0 <= k < leaders@.len() ==> is_leader(insns@, leaders@[k] as int),
            forall|x: int|
                0 <= x < i && is_leader(insns@, x) ==> exists|k: int|
                    0 <= k < leaders@.len() && leaders@[k] == x,
        decreases n - i,
    {
        let ghost before = leaders@;
        assert(flags@[i as int] == is_leader(insns@, i as int));
        if flags[i] {
            leaders.push(i);
            assert(leaders@[leaders@.len() - 1] == i);
        }
        assert forall|x: int| 0 <= x < i + 1 && is_leader(insns@, x) implies exists|k: int|
            0 <= k < leaders@.len() && leaders@[k] == x by {
            if x < i {
                let k = choose|k: int| 0 <= k < before.len() && before[k] == x;
                assert(leaders@[k] == x);
            } else {
                assert(leaders@[leaders@.len() - 1] == x);
            }
        }
        i = i + 1;
    }
    assert forall|x: int| #[trigger] is_leader(insns@, x) implies exists|k: int|
        0 <= k < leaders@.len() && leaders@[k] == x by {
        if x != 0 {
            let j = choose|j: int| 0 <= j < insns@.len() && #[trigger] marks_leader(insns@, j, x);
            assert(0 <= x < n);
        }
    }
    leaders
}

/// Whether `x` occurs in the strictly increasing `leaders`.
pub fn sorted_contains(leaders: &Vec<usize>, x: usize) -> (r: bool)
    requires
        forall|a: int, b: int| 0 <= a < b < leaders@.len() ==> leaders@[a] < leaders@[b],
    ensures
        r == exists|k: int| 0 <= k < leaders@.len() && leaders@[k] == x,
{
    let mut lo: usize = 0;
    let mut hi: usize = leaders.len();
    while lo < hi
        invariant
            lo <= hi <= leaders@.len(),
            forall|a: int, b: int| 0 <= a < b < leaders@.len() ==> leaders@[a] < leaders@[b],
            forall|k: int| 0 <= k < lo ==> leaders@[k] < x,
            forall|k: int| hi <= k < leaders@.len() ==> leaders@[k] > x,
        decreases hi - lo,
    {
        let mid = lo + (hi - lo) / 2;
        if leaders[mid] == x {
            return true;
        } else if leaders[mid] < x {
            lo = mid + 1;
        } else {
            hi = mid;
        }
    }
    false
}

/// A register after merging `incoming` into `target`: the widest state
/// covering both. A register uninitialized on either side is
/// uninitialized; differing initialized types widen to an unknown scalar;
/// two scalars keep the union of their ranges, with no exact value and no
/// known bits, and a scalar without tracked bounds on either side has none.
pub open spec fn merged_reg(target: RegState, incoming: RegState) -> RegState {
    if target.reg_type is NotInit || incoming.reg_type is NotInit {
        RegState::spec_uninit()
    } else if target.reg_type != incoming.reg_type {
        RegState::spec_scalar(Some(ScalarValue::spec_unknown()))
    } else if target.reg_type is Scalar {
        match (target.scalar_value, incoming.scalar_value) {
            (Some(tv), Some(iv)) => RegState {
                scalar_value: Some(
                    ScalarValue {
                        value: None,
                        min: if iv.min < tv.min {
                            iv.min
                        } else {
                            tv.min
                        },
                        max: if iv.max > tv.max {
                            iv.max
                        } else {
                            tv.max
                        },
                        tnum: ScalarValue::spec_unknown().tnum,
                    },
                ),
                ..target
            },
            _ => RegState { scalar_value: None, ..target },
        }
    } else {
        target
    }
}

/// Merging widens: two scalar ranges merge into one that spans both.
pub proof fn lemma_merge_spans_both(target: RegState, incoming: RegState)
    requires
        target.reg_type is Scalar,
        incoming.reg_type is Scalar,
        target.scalar_value is Some,
        incoming.scalar_value is Some,
    ensures
        ({
            let m = merged_reg(target, incoming).scalar_value.unwrap();
            &&& m.min <= target.scalar_value.unwrap().min
            &&& m.min <= incoming.scalar_value.unwrap().min
            &&& m.max >= target.scalar_value.unwrap().max
            &&& m.max >= incoming.scalar_value.unwrap().max
            &&& m.value is None
        }),
{
}

/// Merging keeps registers initialized exactly where both sides are, and
/// a register merged with itself keeps its type.
pub proof fn lemma_merge_types(target: RegState, incoming: RegState)
    ensures
        (merged_reg(target, incoming).reg_type is NotInit) <==> (target.reg_type is NotInit
            || incoming.reg_type is NotInit),
        merged_reg(target, target).reg_type == target.reg_type,
{
}

/// The state of a streaming run: the pending blocks with the state at
/// their entry, the merge points with the register states merged there,
/// the number of arrivals at each loop header, and the deepest stack use
/// seen so far.
pub struct Stream {
    pub wl: Seq<(usize, AbsState)>,
    pub ms: Seq<(usize, Seq<RegState>)>,
    pub counts: Seq<(usize, usize)>,
    pub depth: nat,
}

/// Every register has the same type in both.
pub open spec fn regs_compatible(a: Seq<RegState>, b: Seq<RegState>) -> bool {
    forall|i: int| 0 <= i < 11 ==> (#[trigger] a[i]).reg_type == b[i].reg_type
}

/// The registers after merging `incoming` into `target`, one by one.
pub open spec fn merged_regs(target: Seq<RegState>, incoming: Seq<RegState>) -> Seq<RegState> {
    Seq::new(11, |i: int| merged_reg(target[i], incoming[i]))
}

/// The first merge point at or after position `k` that sits at `idx`.
pub open spec fn find_point(ms: Seq<(usize, Seq<RegState>)>, idx: usize, k: int) -> Option<int>
    decreases ms.len() - k,
{
    if k < 0 || k >= ms.len() {
        None
    } else if ms[k].0 == idx {
        Some(k)
    } else {
        find_point(ms, idx, k + 1)
    }
}

/// The first loop count at or after position `k` that belongs to `idx`.
pub open spec fn find_count(cs: Seq<(usize, usize)>, idx: usize, k: int) -> Option<int>
    decreases cs.len() - k,
{
    if k < 0 || k >= cs.len() {
        None
    } else if cs[k].0 == idx {
        Some(k)
    } else {
        find_count(cs, idx, k + 1)
    }
}

/// A merge point found is one at `idx`, at or after `k`.
proof fn lemma_find_point(ms: Seq<(usize, Seq<RegState>)>, idx: usize, k: int)
    requires
        0 <= k,
    ensures
        find_point(ms, idx, k) matches Some(j) ==> k <= j < ms.len() && ms[j].0 == idx,
    decreases ms.len() - k,
{
    if k < ms.len() && ms[k].0 != idx {
        lemma_find_point(ms, idx, k + 1);
    }
}

/// A loop count found is one for `idx`, at or after `k`.
proof fn lemma_find_count(cs: Seq<(usize, usize)>, idx: usize, k: int)
    requires
        0 <= k,
    ensures
        find_count(cs, idx, k) matches Some(j) ==> k <= j < cs.len() && cs[j].0 == idx,
    decreases cs.len() - k,
{
    if k < cs.len() && cs[k].0 != idx {
        lemma_find_count(cs, idx, k + 1);
    }
}

/// Merge the registers of `s` into the merge point at `idx`, creating one
/// when there is none; past the limit on merge points the program is
/// rejected.
pub open spec fn merge_at(st: Stream, idx: usize, s: AbsState, strict: bool) -> Result<Stream, VerifyError> {
    match find_point(st.ms, idx, 0) {
        Some(j) => Ok(Stream { ms: st.ms.update(j, (idx, merged_regs(st.ms[j].1, s.regs))), ..st }),
        None => if st.ms.len() >= merge_limit(strict) {
            Err(VerifyError::InfiniteLoop { insn_idx: idx })
        } else {
            Ok(Stream { ms: st.ms.push((idx, s.regs)), ..st })
        },
    }
}

/// Queue the block at `idx` with state `s`: nothing when the merge point
/// there has compatible registers; else the state is merged there and,
/// while the worklist has room, the block is queued.
pub open spec fn queue(st: Stream, idx: usize, s: AbsState, strict: bool) -> Result<Stream, VerifyError> {
    let covered = match find_point(st.ms, idx, 0) {
        Some(j) => regs_compatible(s.regs, st.ms[j].1),
        None => false,
    };
    if covered {
        Ok(st)
    } else if st.wl.len() >= worklist_limit(strict) {
        merge_at(st, idx, s, strict)
    } else {
        match merge_at(st, idx, s, strict) {
            Err(e) => Err(e),
            Ok(st2) => Ok(Stream { wl: st2.wl.push((idx, s)), ..st2 }),
        }
    }
}

/// A back edge from `from` to the loop header `to` with state `s`: the
/// arrival is counted, the program is rejected past the profile's limit,
/// the state is merged at the header, and the header is queued again for
/// its first two arrivals.
pub open spec fn back_edge(st: Stream, from: usize, to: usize, s: AbsState, strict: bool) -> Result<
    Stream,
    VerifyError,
> {
    let (counts, c) = match find_count(st.counts, to, 0) {
        Some(k) => (st.counts.update(k, (to, (st.counts[k].1 + 1) as usize)), st.counts[k].1 + 1),
        None => (st.counts.push((to, 1usize)), 1int),
    };
    if c > loop_limit(strict) {
        if strict {
            Err(VerifyError::UnboundedLoop { insn_idx: from })
        } else {
            Err(VerifyError::InfiniteLoop { insn_idx: from })
        }
    } else {
        match merge_at(Stream { counts, ..st }, to, s, strict) {
            Err(e) => Err(e),
            Ok(st2) => if c <= 2 {
                Ok(Stream { wl: st2.wl.push((to, s)), ..st2 })
            } else {
                Ok(st2)
            },
        }
    }
}

/// The walk of a block from instruction `idx` in state `s`: each
/// instruction is checked in turn, the deepest stack use recorded, until
/// the block ends. A block that falls into the start of another queues it;
/// a jump queues its target, or for a back edge counts the arrival at the
/// loop header; a branch does so for its target and queues the next
/// instruction; an exit ends the path.
pub open spec fn block_walk(insns: Seq<BpfInsn>, idx: int, s: AbsState, st: Stream, strict: bool) -> Result<
    Stream,
    VerifyError,
>
    decreases insns.len() + 2 - idx,
{
    if idx < 0 || idx >= insns.len() {
        Err(
            VerifyError::InvalidJump {
                insn_idx: if idx > 0 {
                    (idx - 1) as usize
                } else {
                    0
                },
                target: idx as i32,
            },
        )
    } else {
        let st1 = Stream {
            depth: if s.depth > st.depth {
                s.depth
            } else {
                st.depth
            },
            ..st
        };
        match insn_step(insns[idx], idx as usize, s) {
            Err(e) => Err(e),
            Ok((res, t)) => match res {
                InsnResult::Continue => {
                    let next = if insns[idx].spec_is_wide() {
                        idx + 2
                    } else {
                        idx + 1
                    };
                    if is_leader(insns, next) {
                        queue(st1, next as usize, t, strict)
                    } else {
                        block_walk(insns, next, t, st1, strict)
                    }
                },
                InsnResult::Jump(target) => if target <= idx {
                    back_edge(st1, idx as usize, target, t, strict)
                } else {
                    queue(st1, target, t, strict)
                },
                InsnResult::Branch { fallthrough, target } => {
                    let first = if target <= idx {
                        back_edge(st1, idx as usize, target, t, strict)
                    } else {
                        queue(st1, target, t, strict)
                    };
                    match first {
                        Err(e) => Err(e),
                        Ok(st2) => queue(st2, fallthrough, t, strict),
                    }
                },
                InsnResult::Exit => Ok(st1),
            },
        }
    }
}

/// The run from `st` with `fuel` block walks left: the last pending block
/// is walked until none is pending; the outcome is the deepest stack use
/// seen, or the first error. A program whose blocks would be walked more
/// often than the fuel allows is rejected as a loop at the pending block.
pub open spec fn stream_run(insns: Seq<BpfInsn>, st: Stream, fuel: nat, strict: bool) -> Result<nat, VerifyError>
    decreases fuel,
{
    if st.wl.len() == 0 {
        Ok(st.depth)
    } else if fuel == 0 {
        Err(VerifyError::InfiniteLoop { insn_idx: st.wl.last().0 })
    } else {
        let (idx, s) = st.wl.last();
        match block_walk(insns, idx as int, s, Stream { wl: st.wl.drop_last(), ..st }, strict) {
            Err(e) => Err(e),
            Ok(st2) => stream_run(insns, st2, (fuel - 1) as nat, strict),
        }
    }
}

/// A walk never keeps more merge points than the profile allows: the
/// memory the streaming verifier spends on merge point states is bounded
/// by the limit, whatever the program.
pub proof fn lemma_walk_keeps_merge_bound(insns: Seq<BpfInsn>, idx: int, s: AbsState, st: Stream, strict: bool)
    requires
        st.ms.len() <= merge_limit(strict),
    ensures
        block_walk(insns, idx, s, st, strict) matches Ok(t) ==> t.ms.len() <= merge_limit(strict),
    decreases insns.len() + 2 - idx,
{
    lemma_find_point(st.ms, idx as usize, 0);
    if 0 <= idx < insns.len() {
        let st1 = Stream {
            depth: if s.depth > st.depth {
                s.depth
            } else {
                st.depth
            },
            ..st
        };
        if let Ok((res, t)) = insn_step(insns[idx], idx as usize, s) {
            if res is Continue {
                let next = if insns[idx].spec_is_wide() {
                    idx + 2
                } else {
                    idx + 1
                };
                if is_leader(insns, next) {
                    lemma_queue_keeps_merge_bound(st1, next as usize, t, strict);
                } else {
                    lemma_walk_keeps_merge_bound(insns, next, t, st1, strict);
                }
            } else if let InsnResult::Jump(target) = res {
                lemma_queue_keeps_merge_bound(st1, target, t, strict);
                lemma_back_edge_keeps_merge_bound(st1, idx as usize, target, t, strict);
            } else if let InsnResult::Branch { fallthrough, target } = res {
                lemma_queue_keeps_merge_bound(st1, target, t, strict);
                lemma_back_edge_keeps_merge_bound(st1, idx as usize, target, t, strict);
                let first = if target <= idx {
                    back_edge(st1, idx as usize, target, t, strict)
                } else {
                    queue(st1, target, t, strict)
                };
                if let Ok(st2) = first {
                    lemma_queue_keeps_merge_bound(st2, fallthrough, t, strict);
                }
            }
        }
    }
}

/// Merging at a point keeps the merge points within the limit.
proof fn lemma_merge_at_keeps_merge_bound(st: Stream, idx: usize, s: AbsState, strict: bool)
    requires
        st.ms.len() <= merge_limit(strict),
    ensures
        merge_at(st, idx, s, strict) matches Ok(t) ==> t.ms.len() <= merge_limit(strict),
{
    lemma_find_point(st.ms, idx, 0);
}

/// Queueing a block keeps the merge points within the limit.
proof fn lemma_queue_keeps_merge_bound(st: Stream, idx: usize, s: AbsState, strict: bool)
    requires
        st.ms.len() <= merge_limit(strict),
    ensures
        queue(st, idx, s, strict) matches Ok(t) ==> t.ms.len() <= merge_limit(strict),
{
    lemma_merge_at_keeps_merge_bound(st, idx, s, strict);
}

/// Taking a back edge keeps the merge points within the limit.
proof fn lemma_back_edge_keeps_merge_bound(st: Stream, from: usize, to: usize, s: AbsState, strict: bool)
    requires
        st.ms.len() <= merge_limit(strict),
    ensures
        back_edge(st, from, to, s, strict) matches Ok(t) ==> t.ms.len() <= merge_limit(strict),
{
    let counts = match find_count(st.counts, to, 0) {
        Some(k) => st.counts.update(k, (to, (st.counts[k].1 + 1) as usize)),
        None => st.counts.push((to, 1usize)),
    };
    lemma_merge_at_keeps_merge_bound(Stream { counts, ..st }, to, s, strict);
}

/// The entry state with a stack of `stack` bytes.
pub open spec fn entry_state(stack: usize) -> AbsState {
    AbsState {
        regs: entry_regs(),
        slots: Seq::new(stack as nat, |i: int| StackSlot::Invalid),
        depth: 0,
    }
}

/// The run at the start: the entry block pending in the entry state.
pub open spec fn initial_stream(stack: usize) -> Stream {
    Stream { wl: seq![(0usize, entry_state(stack))], ms: Seq::empty(), counts: Seq::empty(), depth: 0 }
}

/// The outcome of streaming verification: the structural checks, then the
/// run from the entry block, walking at most `max_insns` blocks.
pub open spec fn streaming_check(insns: Seq<BpfInsn>, max_insns: usize, stack: usize, strict: bool) -> Result<
    nat,
    VerifyError,
> {
    match basic_check(insns, max_insns) {
        Err(e) => Err(e),
        Ok(_) => stream_run(insns, initial_stream(stack), max_insns as nat, strict),
    }
}

/// A pending block: where it starts, and the state at its entry.
struct WorklistEntry {
    start_idx: usize,
    state: VerifierState,
}

/// The merged state at a control flow merge point.
struct MergePoint {
    idx: usize,
    state: VerifierState,
    visit_count: usize,
}

/// The pending blocks as the run sees them.
spec fn worklist_view(wl: Seq<WorklistEntry>) -> Seq<(usize, AbsState)> {
    wl.map_values(|e: WorklistEntry| (e.start_idx, abs_state(&e.state)))
}

/// The merge points as the run sees them.
spec fn points_view(ms: Seq<MergePoint>) -> Seq<(usize, Seq<RegState>)> {
    ms.map_values(|m: MergePoint| (m.idx, m.state.regs@))
}

/// Every pending state is uniformly valid, with a stack of `stack` bytes.
spec fn pending_ok(wl: Seq<WorklistEntry>, stack: usize) -> bool {
    forall|k: int|
        0 <= k < wl.len() ==> state_ok(abs_state(&(#[trigger] wl[k]).state))
            && wl[k].state.stack.slots().len() == stack
}

/// No loop header was reached more often than `limit` allows.
spec fn counts_bounded(counts: Seq<(usize, usize)>, limit: usize) -> bool {
    forall|k: int| 0 <= k < counts.len() ==> #[trigger] counts[k].1 <= limit
}

/// The streaming BPF verifier.
pub struct StreamingVerifier<P: PhysicalProfile> {
    worklist: Vec<WorklistEntry>,
    merge_states: Vec<MergePoint>,
    current_state: Option<VerifierState>,
    insns: Vec<BpfInsn>,
    block_leaders: Vec<usize>,
    loop_counts: Vec<(usize, usize)>,
    max_stack_depth: usize,
    _profile: PhantomData<P>,
}

impl<P: PhysicalProfile> StreamingVerifier<P> {
    /// Nothing pending, merged, counted or loaded yet.
    pub closed spec fn fresh(&self) -> bool {
        &&& self.worklist@.len() == 0
        &&& self.merge_states@.len() == 0
        &&& self.current_state is None
        &&& self.insns@.len() == 0
        &&& self.block_leaders@.len() == 0
        &&& self.loop_counts@.len() == 0
        &&& self.max_stack_depth == 0
    }

    /// A verifier with nothing loaded.
    pub fn new() -> (r: Self)
        ensures
            r.fresh(),
    {
        StreamingVerifier {
            worklist: Vec::new(),
            merge_states: Vec::new(),
            current_state: None,
            insns: Vec::new(),
            block_leaders: Vec::new(),
            loop_counts: Vec::new(),
            max_stack_depth: 0,
            _profile: PhantomData,
        }
    }

    fn max_worklist_depth() -> (r: usize)
        ensures
            r == worklist_limit(P::STRICT_CONSTRAINTS),
    {
        if P::STRICT_CONSTRAINTS {
            16
        } else {
            64
        }
    }

    fn max_merge_points() -> (r: usize)
        ensures
            r == merge_limit(P::STRICT_CONSTRAINTS),
    {
        if P::STRICT_CONSTRAINTS {
            32
        } else {
            256
        }
    }

    fn max_loop_iterations() -> (r: usize)
        ensures
            r == loop_limit(P::STRICT_CONSTRAINTS),
    {
        if P::STRICT_CONSTRAINTS {
            100
        } else {
            1000
        }
    }

    /// Verify a program with the streaming algorithm and build it.
    pub fn verify(prog_type: BpfProgType, insns: &[BpfInsn]) -> (r: Result<BpfProgram<P>, VerifyError>)
        ensures
            match streaming_check(insns@, P::MAX_INSN_COUNT, P::MAX_STACK_SIZE, P::STRICT_CONSTRAINTS) {
                Ok(d) => r matches Ok(p) && p.insns() == insns@ && p.spec_prog_type() == prog_type
                    && p.spec_stack_size() == d && p.wf(),
                Err(e) => r == Err::<BpfProgram<P>, VerifyError>(e),
            },
    {
        let mut verifier = Self::new();
        verifier.insns = copy_insns(insns);
        verifier.check_basic()?;
        proof {
            P::lemma_limits();
        }
        verifier.compute_block_leaders();
        let stack_size = verifier.verify_streaming()?;
        verifier.verify_profile_constraints()?;
        match BpfProgram::new(prog_type, copy_insns(insns), stack_size) {
            Ok(p) => Ok(p),
            Err(ProgramError::StackSizeExceeded { required, limit }) => Err(
                VerifyError::StackExceeded { used: required, limit },
            ),
            Err(ProgramError::InsnCountExceeded { count, limit }) => Err(
                VerifyError::InsnCountExceeded { count, limit },
            ),
            Err(ProgramError::EmptyProgram) => Err(VerifyError::EmptyProgram),
        }
    }

    /// The structural checks on the loaded instructions.
    fn check_basic(&self) -> (r: Result<(), VerifyError>)
        ensures
            r == basic_check(self.insns@, P::MAX_INSN_COUNT),
    {
        check_basic(self.insns.as_slice(), P::MAX_INSN_COUNT)
    }

    /// Record the block starts of the loaded instructions.
    fn compute_block_leaders(&mut self)
        requires
            0 < old(self).insns@.len() <= 0x1000_0000,
        ensures
            leaders_ok(final(self).block_leaders@, final(self).insns@),
            final(self).insns == old(self).insns,
            final(self).worklist == old(self).worklist,
            final(self).merge_states == old(self).merge_states,
            final(self).loop_counts == old(self).loop_counts,
            final(self).max_stack_depth == old(self).max_stack_depth,
            final(self).current_state == old(self).current_state,
    {
        self.block_leaders = block_leaders(self.insns.as_slice());
    }

    /// Whether a block starts at `idx`.
    fn is_block_leader(&self, idx: usize) -> (r: bool)
        requires
            leaders_ok(self.block_leaders@, self.insns@),
        ensures
            r == is_leader(self.insns@, idx as int),
    {
        sorted_contains(&self.block_leaders, idx)
    }

    /// The run as this verifier holds it.
    closed spec fn stream(&self) -> Stream {
        Stream {
            wl: worklist_view(self.worklist@),
            ms: points_view(self.merge_states@),
            counts: self.loop_counts@,
            depth: self.max_stack_depth as nat,
        }
    }

    /// What stays true between block walks.
    closed spec fn running(&self) -> bool {
        &&& leaders_ok(self.block_leaders@, self.insns@)
        &&& 0 < self.insns@.len() <= 0x1000_0000
        &&& counts_bounded(self.loop_counts@, loop_limit(P::STRICT_CONSTRAINTS))
        &&& self.max_stack_depth <= P::MAX_STACK_SIZE
        &&& pending_ok(self.worklist@, P::MAX_STACK_SIZE)
        &&& P::MAX_STACK_SIZE <= 0x1000_0000
    }

    /// The merge point at `idx`, by its position: the first one there.
    fn find_merge_point(&self, idx: usize) -> (r: Option<usize>)
        ensures
            r matches Some(j) ==> j < self.merge_states@.len() && find_point(
                points_view(self.merge_states@),
                idx,
                0,
            ) == Some(j as int),
            r is None ==> find_point(points_view(self.merge_states@), idx, 0) is None,
    {
        proof {
            lemma_find_point(points_view(self.merge_states@), idx, 0);
        }
        let ghost v = points_view(self.merge_states@);
        let mut j: usize = 0;
        while j < self.merge_states.len()
            invariant
                j <= self.merge_states@.len(),
                v == points_view(self.merge_states@),
                find_point(v, idx, 0) == find_point(v, idx, j as int),
            decreases self.merge_states@.len() - j,
        {
            if self.merge_states[j].idx == idx {
                return Some(j);
            }
            j = j + 1;
        }
        None
    }

    /// Merge `incoming` into the merge point at `idx`, creating one when
    /// there is none and the limit allows.
    fn merge_state_at(&mut self, idx: usize, incoming: &VerifierState) -> (r: Result<(), VerifyError>)
        ensures
            match merge_at(old(self).stream(), idx, abs_state(incoming), P::STRICT_CONSTRAINTS) {
                Ok(st) => r is Ok && final(self).stream() == st,
                Err(e) => r == Err::<(), VerifyError>(e),
            },
            final(self).worklist == old(self).worklist,
            final(self).insns == old(self).insns,
            final(self).block_leaders == old(self).block_leaders,
            final(self).loop_counts == old(self).loop_counts,
            final(self).max_stack_depth == old(self).max_stack_depth,
            final(self).current_state == old(self).current_state,
    {
        let ghost before = self.merge_states@;
        match self.find_merge_point(idx) {
            Some(j) => {
                let mut merged = self.merge_states[j].state.clone();
                Self::merge_states_conservative(&mut merged, incoming);
                let count = self.merge_states[j].visit_count.saturating_add(1);
                self.merge_states.set(j, MergePoint { idx, state: merged, visit_count: count });
                proof {
                    assert(merged.regs@ =~= merged_regs(points_view(before)[j as int].1, abs_state(incoming).regs));
                    assert(points_view(self.merge_states@) =~= points_view(before).update(
                        j as int,
                        (idx, merged_regs(points_view(before)[j as int].1, abs_state(incoming).regs)),
                    ));
                    assert(self.stream() == Stream {
                        ms: points_view(before).update(
                            j as int,
                            (idx, merged_regs(points_view(before)[j as int].1, abs_state(incoming).regs)),
                        ),
                        ..old(self).stream()
                    });
                }
                Ok(())
            },
            None => {
                if self.merge_states.len() >= Self::max_merge_points() {
                    return Err(VerifyError::InfiniteLoop { insn_idx: idx });
                }
                self.merge_states.push(MergePoint { idx, state: incoming.clone(), visit_count: 1 });
                proof {
                    assert(points_view(self.merge_states@) =~= points_view(before).push(
                        (idx, abs_state(incoming).regs),
                    ));
                    assert(self.stream() == Stream {
                        ms: points_view(before).push((idx, abs_state(incoming).regs)),
                        ..old(self).stream()
                    });
                }
                Ok(())
            },
        }
    }

    /// Queue the block at `idx` with `state`, unless a compatible state is
    /// already merged there; when the worklist is full the state is only
    /// merged.
    fn add_to_worklist(&mut self, idx: usize, state: VerifierState) -> (r: Result<(), VerifyError>)
        requires
            old(self).running(),
            state_ok(abs_state(&state)),
            state.stack.slots().len() == P::MAX_STACK_SIZE,
        ensures
            match queue(old(self).stream(), idx, abs_state(&state), P::STRICT_CONSTRAINTS) {
                Ok(st) => r is Ok && final(self).stream() == st && final(self).running(),
                Err(e) => r == Err::<(), VerifyError>(e),
            },
            final(self).insns == old(self).insns,
            final(self).block_leaders == old(self).block_leaders,
            final(self).current_state == old(self).current_state,
    {
        match self.find_merge_point(idx) {
            Some(j) => {
                if states_compatible(&state, &self.merge_states[j].state) {
                    return Ok(());
                }
            },
            None => {},
        }
        if self.worklist.len() >= Self::max_worklist_depth() {
            return self.merge_state_at(idx, &state);
        }
        self.merge_state_at(idx, &state)?;
        let ghost before = self.worklist@;
        let ghost s = abs_state(&state);
        self.worklist.push(WorklistEntry { start_idx: idx, state });
        proof {
            assert(worklist_view(self.worklist@) =~= worklist_view(before).push((idx, s)));
            assert forall|k: int| 0 <= k < self.worklist@.len() implies state_ok(
                abs_state(&(#[trigger] self.worklist@[k]).state),
            ) && self.worklist@[k].state.stack.slots().len() == P::MAX_STACK_SIZE by {
                if k < before.len() {
                    assert(self.worklist@[k] == before[k]);
                }
            }
        }
        Ok(())
    }

    /// A back edge from `from_idx` to `to_idx`: count the arrival at the
    /// loop header, reject the program past the profile's limit, merge the
    /// state at the header, and queue the header again for its first two
    /// arrivals.
    fn handle_back_edge(&mut self, from_idx: usize, to_idx: usize, state: &VerifierState) -> (r:
        Result<(), VerifyError>)
        requires
            old(self).running(),
            state_ok(abs_state(state)),
            state.stack.slots().len() == P::MAX_STACK_SIZE,
        ensures
            match back_edge(old(self).stream(), from_idx, to_idx, abs_state(state), P::STRICT_CONSTRAINTS) {
                Ok(st) => r is Ok && final(self).stream() == st && final(self).running(),
                Err(e) => r == Err::<(), VerifyError>(e),
            },
            final(self).insns == old(self).insns,
            final(self).block_leaders == old(self).block_leaders,
            final(self).current_state == old(self).current_state,
    {
        let limit = Self::max_loop_iterations();
        let count: usize;
        let ghost counts0 = self.loop_counts@;
        match self.find_loop_count(to_idx) {
            Some(k) => {
                let (_, c) = self.loop_counts[k];
                assert(counts0[k as int].1 <= limit);
                count = c + 1;
                self.loop_counts.set(k, (to_idx, count));
            },
            None => {
                self.loop_counts.push((to_idx, 1));
                count = 1;
            },
        }
        if count > limit {
            if P::STRICT_CONSTRAINTS {
                return Err(VerifyError::UnboundedLoop { insn_idx: from_idx });
            } else {
                return Err(VerifyError::InfiniteLoop { insn_idx: from_idx });
            }
        }
        assert(counts_bounded(self.loop_counts@, limit)) by {
            assert forall|k: int| 0 <= k < self.loop_counts@.len() implies #[trigger] self.loop_counts@[k].1
                <= limit by {
                if k < counts0.len() {
                    assert(self.loop_counts@[k] == counts0[k] || self.loop_counts@[k].1 == count);
                }
            }
        }
        self.merge_state_at(to_idx, state)?;
        if count <= 2 {
            let ghost before = self.worklist@;
            let st2 = state.clone();
            assert(abs_state(&st2) == abs_state(state));
            self.worklist.push(WorklistEntry { start_idx: to_idx, state: st2 });
            proof {
                assert(worklist_view(self.worklist@) =~= worklist_view(before).push((to_idx, abs_state(state))));
                assert forall|k: int| 0 <= k < self.worklist@.len() implies state_ok(
                    abs_state(&(#[trigger] self.worklist@[k]).state),
                ) && self.worklist@[k].state.stack.slots().len() == P::MAX_STACK_SIZE by {
                    if k < before.len() {
                        assert(self.worklist@[k] == before[k]);
                    }
                }
            }
        }
        Ok(())
    }

    /// The position of the loop count of the header at `to_idx`: the first
    /// one for it.
    fn find_loop_count(&self, to_idx: usize) -> (r: Option<usize>)
        ensures
            r matches Some(k) ==> k < self.loop_counts@.len() && find_count(self.loop_counts@, to_idx, 0)
                == Some(k as int),
            r is None ==> find_count(self.loop_counts@, to_idx, 0) is None,
    {
        proof {
            lemma_find_count(self.loop_counts@, to_idx, 0);
        }
        let mut k: usize = 0;
        while k < self.loop_counts.len()
            invariant
                k <= self.loop_counts@.len(),
                find_count(self.loop_counts@, to_idx, 0) == find_count(self.loop_counts@, to_idx, k as int),
            decreases self.loop_counts@.len() - k,
        {
            if self.loop_counts[k].0 == to_idx {
                return Some(k);
            }
            k = k + 1;
        }
        None
    }

    /// Walk the block that starts at `start_idx` in the current state.
    #[verifier::rlimit(50)]
    fn verify_block(&mut self, start_idx: usize) -> (r: Result<(), VerifyError>)
        requires
            old(self).running(),
            old(self).current_state is Some,
            state_ok(abs_state(&old(self).current_state.unwrap())),
            old(self).current_state.unwrap().stack.slots().len() == P::MAX_STACK_SIZE,
        ensures
            match block_walk(
                old(self).insns@,
                start_idx as int,
                abs_state(&old(self).current_state.unwrap()),
                old(self).stream(),
                P::STRICT_CONSTRAINTS,
            ) {
                Ok(st) => r is Ok && final(self).stream() == st && final(self).running(),
                Err(e) => r == Err::<(), VerifyError>(e),
            },
            final(self).insns == old(self).insns,
            final(self).block_leaders == old(self).block_leaders,
            final(self).current_state is None,
    {
        let mut state = match self.current_state.take() {
            Some(s) => s,
            None => return Err(VerifyError::EmptyProgram),
        };
        let ghost s0 = abs_state(&state);
        let ghost st0 = self.stream();
        state.insn_idx = start_idx;
        let n = self.insns.len();
        loop
            invariant
                n == self.insns@.len(),
                self.insns == old(self).insns,
                self.block_leaders == old(self).block_leaders,
                self.running(),
                self.current_state is None,
                state_ok(abs_state(&state)),
                state.stack.slots().len() == P::MAX_STACK_SIZE,
                state.insn_idx == start_idx || (start_idx < state.insn_idx <= n + 1),
                s0 == abs_state(&old(self).current_state.unwrap()),
                st0 == old(self).stream(),
                block_walk(self.insns@, start_idx as int, s0, st0, P::STRICT_CONSTRAINTS) == block_walk(
                    self.insns@,
                    state.insn_idx as int,
                    abs_state(&state),
                    self.stream(),
                    P::STRICT_CONSTRAINTS,
                ),
            decreases n + 2 - state.insn_idx,
        {
            let idx = state.insn_idx;
            if idx >= n {
                return Err(
                    VerifyError::InvalidJump { insn_idx: idx.saturating_sub(1), target: idx as i32 },
                );
            }
            let ghost sa = abs_state(&state);
            let ghost sta = self.stream();
            let ghost walk = block_walk(self.insns@, idx as int, sa, sta, P::STRICT_CONSTRAINTS);
            if state.stack.max_depth() > self.max_stack_depth {
                self.max_stack_depth = state.stack.max_depth();
            }
            let ghost st1 = self.stream();
            assert(st1 == Stream {
                depth: if sa.depth > sta.depth {
                    sa.depth
                } else {
                    sta.depth
                },
                ..sta
            });
            let insn = self.insns[idx];
            let ghost step = insn_step(insn, idx, sa);
            let result = match verify_insn(&insn, &mut state, idx) {
                Ok(res) => res,
                Err(e) => {
                    assert(step == Err::<(InsnResult, AbsState), VerifyError>(e));
                    assert(walk == Err::<Stream, VerifyError>(e));
                    return Err(e);
                },
            };
            let ghost t = abs_state(&state);
            assert(step == Ok::<(InsnResult, AbsState), VerifyError>((result, t)));
            match result {
                InsnResult::Continue => {
                    if insn.is_wide() {
                        state.insn_idx = idx + 2;
                    } else {
                        state.insn_idx = idx + 1;
                    }
                    state.insn_processed = state.insn_processed.saturating_add(1);
                    assert(abs_state(&state) == t);
                    if self.is_block_leader(state.insn_idx) {
                        let next = state.insn_idx;
                        assert(walk == queue(st1, next, t, P::STRICT_CONSTRAINTS));
                        return self.add_to_worklist(next, state);
                    }
                    assert(walk == block_walk(self.insns@, state.insn_idx as int, t, st1, P::STRICT_CONSTRAINTS));
                },
                InsnResult::Jump(target) => {
                    if target <= idx {
                        assert(walk == back_edge(st1, idx, target, t, P::STRICT_CONSTRAINTS));
                        return self.handle_back_edge(idx, target, &state);
                    } else {
                        assert(walk == queue(st1, target, t, P::STRICT_CONSTRAINTS));
                        return self.add_to_worklist(target, state);
                    }
                },
                InsnResult::Branch { fallthrough, target } => {
                    let branch_state = state.clone();
                    assert(abs_state(&branch_state) == t);
                    if target <= idx {
                        self.handle_back_edge(idx, target, &branch_state)?;
                    } else {
                        self.add_to_worklist(target, branch_state)?;
                    }
                    return self.add_to_worklist(fallthrough, state);
                },
                InsnResult::Exit => {
                    return Ok(());
                },
            }
        }
    }

    /// Verify from the entry state until no block is pending, walking at
    /// most `MAX_INSN_COUNT` blocks; the deepest stack use seen.
    fn verify_streaming(&mut self) -> (r: Result<usize, VerifyError>)
        requires
            old(self).worklist@.len() == 0,
            old(self).merge_states@.len() == 0,
            old(self).loop_counts@.len() == 0,
            old(self).max_stack_depth == 0,
            leaders_ok(old(self).block_leaders@, old(self).insns@),
            0 < old(self).insns@.len() <= 0x1000_0000,
            P::MAX_STACK_SIZE <= 0x1000_0000,
        ensures
            match stream_run(
                old(self).insns@,
                initial_stream(P::MAX_STACK_SIZE),
                P::MAX_INSN_COUNT as nat,
                P::STRICT_CONSTRAINTS,
            ) {
                Ok(d) => r == Ok::<usize, VerifyError>(d as usize) && d <= P::MAX_STACK_SIZE,
                Err(e) => r == Err::<usize, VerifyError>(e),
            },
    {
        let initial = VerifierState::new_entry(P::MAX_STACK_SIZE);
        assert(abs_state(&initial) == entry_state(P::MAX_STACK_SIZE));
        self.worklist.push(WorklistEntry { start_idx: 0, state: initial });
        self.current_state = None;
        proof {
            assert(self.stream().wl =~= initial_stream(P::MAX_STACK_SIZE).wl);
            assert(self.stream().ms =~= initial_stream(P::MAX_STACK_SIZE).ms);
            assert(self.stream().counts =~= initial_stream(P::MAX_STACK_SIZE).counts);
            assert(self.stream() == initial_stream(P::MAX_STACK_SIZE));
            assert(self.running());
        }
        let mut budget: usize = P::MAX_INSN_COUNT;
        loop
            invariant
                self.insns == old(self).insns,
                self.running(),
                self.current_state is None,
                stream_run(
                    self.insns@,
                    initial_stream(P::MAX_STACK_SIZE),
                    P::MAX_INSN_COUNT as nat,
                    P::STRICT_CONSTRAINTS,
                ) == stream_run(self.insns@, self.stream(), budget as nat, P::STRICT_CONSTRAINTS),
            decreases budget,
        {
            if self.worklist.len() == 0 {
                return Ok(self.max_stack_depth);
            }
            if budget == 0 {
                let last = self.worklist.len() - 1;
                assert(self.stream().wl.last().0 == self.worklist@[last as int].start_idx);
                return Err(VerifyError::InfiniteLoop { insn_idx: self.worklist[last].start_idx });
            }
            let ghost wl0 = self.worklist@;
            let entry = self.worklist.pop().unwrap();
            proof {
                assert(wl0[wl0.len() - 1] == entry);
                assert(worklist_view(self.worklist@) =~= worklist_view(wl0).drop_last());
                assert forall|k: int| 0 <= k < self.worklist@.len() implies state_ok(
                    abs_state(&(#[trigger] self.worklist@[k]).state),
                ) && self.worklist@[k].state.stack.slots().len() == P::MAX_STACK_SIZE by {
                    assert(self.worklist@[k] == wl0[k]);
                }
            }
            let start = entry.start_idx;
            self.current_state = Some(entry.state);
            self.verify_block(start)?;
            budget = budget - 1;
        }
    }

    /// The profile's constraints. The streaming walk already bounds loops,
    /// so only the embedded check on allocating helpers remains.
    fn verify_profile_constraints(&self) -> (r: Result<(), VerifyError>)
        ensures
            r is Ok,
    {
        if P::STRICT_CONSTRAINTS {
            self.verify_embedded_constraints()
        } else {
            Ok(())
        }
    }

    /// No call of the program may reach a dynamically allocating helper.
    fn verify_embedded_constraints(&self) -> (r: Result<(), VerifyError>)
        ensures
            r is Ok,
    {
        let mut idx: usize = 0;
        while idx < self.insns.len()
            invariant
                idx <= self.insns@.len(),
            decreases self.insns@.len() - idx,
        {
            if self.insns[idx].is_call() && allocating_helper(self.insns[idx].imm) {
                return Err(VerifyError::DynamicAllocationAttempted { insn_idx: idx });
            }
            idx = idx + 1;
        }
        Ok(())
    }

    /// Merge `incoming` into `target`, register by register.
    fn merge_states_conservative(target: &mut VerifierState, incoming: &VerifierState)
        ensures
            final(target).regs@ == Seq::new(
                11,
                |i: int| merged_reg(old(target).regs@[i], incoming.regs@[i]),
            ),
            final(target).stack.slots() == old(target).stack.slots(),
            final(target).stack.depth() == old(target).stack.depth(),
            final(target).insn_idx == old(target).insn_idx,
            final(target).insn_processed == old(target).insn_processed,
    {
        let mut i: usize = 0;
        while i < 11
            invariant
                i <= 11,
                target.regs@.len() == 11,
                forall|k: int|
                    0 <= k < i ==> target.regs@[k] == merged_reg(
                        old(target).regs@[k],
                        incoming.regs@[k],
                    ),
                forall|k: int| i <= k < 11 ==> target.regs@[k] == old(target).regs@[k],
                target.stack.slots() == old(target).stack.slots(),
                target.stack.depth() == old(target).stack.depth(),
                target.insn_idx == old(target).insn_idx,
                target.insn_processed == old(target).insn_processed,
            decreases 11 - i,
        {
            let t = target.regs[i];
            let inc = incoming.regs[i];
            let m = if !t.is_init() || !inc.is_init() {
                RegState::uninit()
            } else if t.reg_type != inc.reg_type {
                RegState::scalar(Some(ScalarValue::unknown()))
            } else if t.reg_type == RegType::Scalar {
                match (t.scalar_value, inc.scalar_value) {
                    (Some(tv), Some(iv)) => {
                        let min = if iv.min < tv.min {
                            iv.min
                        } else {
                            tv.min
                        };
                        let max = if iv.max > tv.max {
                            iv.max
                        } else {
                            tv.max
                        };
                        RegState {
                            scalar_value: Some(
                                ScalarValue { value: None, min, max, tnum: ScalarValue::unknown().tnum },
                            ),
                            ..t
                        }
                    },
                    _ => RegState { scalar_value: None, ..t },
                }
            } else {
                t
            };
            target.regs[i] = m;
            i = i + 1;
        }
        assert(target.regs@ =~= Seq::new(
            11,
            |i: int| merged_reg(old(target).regs@[i], incoming.regs@[i]),
        ));
    }
}

impl<P: PhysicalProfile> Default for StreamingVerifier<P> {
    fn default() -> (r: Self)
        ensures
            r.fresh(),
    {
        StreamingVerifier::new()
    }
}

} // verus!
