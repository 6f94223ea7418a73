//! The path-sensitive verifier: structural checks, reachability, a
//! depth-first exploration of every path with per-instruction checks, and
//! the profile's constraints.
use vstd::prelude::*;

use crate::bpf_verifier::cfg::{back_edges_below, reachable, ControlFlowGraph};
use crate::bpf_verifier::checks::{
    basic_check, check_basic, insn_step, state_ok, verify_insn, InsnResult,
};
use crate::bpf_verifier::error::VerifyError;
use crate::bpf_verifier::state::{abs_state, entry_regs, AbsState, StackSlot, VerifierState};
use crate::bytecode::insn::BpfInsn;
use crate::bytecode::program::{program_check, BpfProgType, BpfProgram, ProgramError};
use crate::profile::PhysicalProfile;
use core::marker::PhantomData;

verus! {

/// The first instruction index at or after `from` that is not reachable,
/// is not an exit, and does not follow a 64-bit immediate load.
pub open spec fn first_unreachable(insns: Seq<BpfInsn>, reach: Seq<bool>, from: int) -> Option<usize>
    decreases insns.len() - from,
{
    if from < 0 || from >= insns.len() {
        None
    } else if !(from > 0 && insns[from - 1].spec_is_wide()) && !reach[from]
        && !insns[from].spec_is_exit() {
        Some(from as usize)
    } else {
        first_unreachable(insns, reach, from + 1)
    }
}

/// The reachability flags of `insns`.
pub open spec fn reach_flags(insns: Seq<BpfInsn>) -> Seq<bool> {
    Seq::new(insns.len(), |i: int| reachable(insns, i))
}

/// Whether helper `id` allocates memory dynamically. No helper of this
/// kernel does.
pub fn allocating_helper(id: i32) -> (r: bool)
    ensures
        !r,
{
    false
}

/// The profile's constraints: under strict constraints, a reachable back
/// edge rejects the program (the first one by source index).
pub open spec fn profile_check(strict: bool, insns: Seq<BpfInsn>) -> Result<(), VerifyError> {
    let edges = back_edges_below(insns, reach_flags(insns), insns.len() as int);
    if strict && edges.len() > 0 {
        Err(VerifyError::UnboundedLoop { insn_idx: edges[0].0 })
    } else {
        Ok(())
    }
}

/// Two abstract states give every register the same type.
pub open spec fn abs_compatible(a: AbsState, b: AbsState) -> bool {
    forall|i: int| 0 <= i < 11 ==> (#[trigger] a.regs[i]).reg_type == b.regs[i].reg_type
}

/// The abstract states recorded per instruction.
pub open spec fn cache_of(states: Seq<Option<VerifierState>>) -> Seq<Option<AbsState>> {
    Seq::new(
        states.len(),
        |i: int|
            match states[i] {
                Some(s) => Some(abs_state(&s)),
                None => None,
            },
    )
}

/// The abstract state at program entry with a stack of `stack_size` bytes.
pub open spec fn entry_abs(stack_size: usize) -> AbsState {
    AbsState {
        regs: entry_regs(),
        slots: Seq::new(stack_size as nat, |i: int| StackSlot::Invalid),
        depth: 0,
    }
}

/// The depth-first exploration from instruction `idx` in state `s`, with
/// `processed` instructions processed so far on this path and `cache`
/// holding the state recorded at each instruction: its outcome, and the
/// states recorded when it ends. A path stops with an error when it leaves
/// the program or exceeds `limit` instructions, and with success at an exit
/// or at an instruction already recorded with a compatible state. Each
/// checked instruction records the state it was reached in; a branch
/// explores its target first, then its fallthrough.
pub open spec fn explore(
    insns: Seq<BpfInsn>,
    limit: int,
    cache: Seq<Option<AbsState>>,
    s: AbsState,
    idx: int,
    processed: int,
) -> (Result<(), VerifyError>, Seq<Option<AbsState>>)
    decreases limit + 2 - processed,
{
    if idx < 0 || idx >= insns.len() {
        (
            Err(
                VerifyError::InvalidJump {
                    insn_idx: (if idx >= 1 {
                        idx - 1
                    } else {
                        0
                    }) as usize,
                    target: idx as i32,
                },
            ),
            cache,
        )
    } else if processed > limit {
        (Err(VerifyError::InfiniteLoop { insn_idx: idx as usize }), cache)
    } else if cache[idx] is Some && abs_compatible(s, cache[idx].unwrap()) {
        (Ok(()), cache)
    } else {
        match insn_step(insns[idx], idx as usize, s) {
            Err(e) => (Err(e), cache),
            Ok((res, t)) => {
                let c = cache.update(idx, Some(s));
                match res {
                    InsnResult::Continue => explore(
                        insns,
                        limit,
                        c,
                        t,
                        if insns[idx].spec_is_wide() {
                            idx + 2
                        } else {
                            idx + 1
                        },
                        processed + 1,
                    ),
                    InsnResult::Jump(target) => explore(insns, limit, c, t, target as int, processed + 1),
                    InsnResult::Branch { fallthrough, target } => {
                        let (r1, c1) = explore(insns, limit, c, t, target as int, processed + 1);
                        if r1 is Err {
                            (r1, c1)
                        } else {
                            explore(insns, limit, c1, t, fallthrough as int, processed + 1)
                        }
                    },
                    InsnResult::Exit => (Ok(()), c),
                }
            },
        }
    }
}

/// The deepest stack use among the first `j` recorded states.
pub open spec fn cache_max_depth(c: Seq<Option<AbsState>>, j: int) -> nat
    decreases j,
{
    if j <= 0 {
        0
    } else {
        let m = cache_max_depth(c, j - 1);
        match c[j - 1] {
            Some(a) => if a.depth > m {
                a.depth
            } else {
                m
            },
            None => m,
        }
    }
}

/// The outcome of the safety phase: the first unreachable instruction, or
/// the exploration from the entry state; on success, the deepest stack use
/// of any recorded state.
pub open spec fn safety_result(insns: Seq<BpfInsn>, max_insns: usize, max_stack: usize) -> Result<usize, VerifyError> {
    match first_unreachable(insns, reach_flags(insns), 0) {
        Some(u) => Err(VerifyError::UnreachableInstruction { insn_idx: u }),
        None => {
            let (r, c) = explore(
                insns,
                max_insns as int,
                Seq::new(insns.len(), |i: int| None::<AbsState>),
                entry_abs(max_stack),
                0,
                0,
            );
            match r {
                Err(e) => Err(e),
                Ok(()) => Ok(cache_max_depth(c, insns.len() as int) as usize),
            }
        },
    }
}

/// The outcome of verifying `insns` under limits `max_insns` and
/// `max_stack`, strict or not: the stack size of the program on success.
pub open spec fn verify_result(insns: Seq<BpfInsn>, max_insns: usize, max_stack: usize, strict: bool) -> Result<usize, VerifyError> {
    match basic_check(insns, max_insns) {
        Err(e) => Err(e),
        Ok(()) => match safety_result(insns, max_insns, max_stack) {
            Err(e) => Err(e),
            Ok(d) => match profile_check(strict, insns) {
                Err(e) => Err(e),
                Ok(()) => match program_check(insns.len(), d, max_insns, max_stack) {
                    Ok(()) => Ok(d),
                    Err(ProgramError::StackSizeExceeded { required, limit }) => Err(
                        VerifyError::StackExceeded { used: required, limit },
                    ),
                    Err(ProgramError::InsnCountExceeded { count, limit }) => Err(
                        VerifyError::InsnCountExceeded { count, limit },
                    ),
                    Err(ProgramError::EmptyProgram) => Err(VerifyError::EmptyProgram),
                },
            },
        },
    }
}

/// The path-sensitive BPF verifier.
pub struct Verifier<P: PhysicalProfile> {
    cfg: Option<ControlFlowGraph>,
    states: Vec<Option<VerifierState>>,
    _profile: PhantomData<P>,
}

impl<P: PhysicalProfile> Verifier<P> {
    /// Every recorded state is valid and passed the check of its instruction.
    pub closed spec fn states_checked(&self, insns: Seq<BpfInsn>) -> bool {
        &&& self.states@.len() == insns.len()
        &&& forall|i: int|
            0 <= i < insns.len() ==> (#[trigger] self.states@[i] matches Some(s) ==> state_ok(
                abs_state(&s),
            ) && s.stack.slots().len() == P::MAX_STACK_SIZE && insn_step(
                insns[i],
                i as usize,
                abs_state(&s),
            ) is Ok)
    }

    /// No graph built and no state recorded.
    pub closed spec fn fresh(&self) -> bool {
        self.states@.len() == 0 && self.cfg is None
    }

    /// A verifier with no state.
    pub fn new() -> (r: Self)
        ensures
            r.fresh(),
    {
        Verifier { cfg: None, states: Vec::new(), _profile: PhantomData }
    }

    /// Verify a program and build it.
    ///
    /// The structural checks come first, then every instruction that is
    /// neither an exit nor the second slot of a wide load must be
    /// reachable, then every path is explored from the entry state, and
    /// finally the profile's constraints are applied.
    pub fn verify(prog_type: BpfProgType, insns: &[BpfInsn]) -> (r: Result<BpfProgram<P>, VerifyError>)
        ensures
            match verify_result(insns@, P::MAX_INSN_COUNT, P::MAX_STACK_SIZE, P::STRICT_CONSTRAINTS) {
                Ok(d) => r matches Ok(p) && p.insns() == insns@ && p.spec_prog_type() == prog_type
                    && p.spec_stack_size() == d && p.wf(),
                Err(e) => r == Err::<BpfProgram<P>, VerifyError>(e),
            },
    {
        let mut verifier = Verifier::<P>::new();
        check_basic(insns, P::MAX_INSN_COUNT)?;
        proof {
            P::lemma_limits();
        }
        let cfg = ControlFlowGraph::build(insns);
        let r = verifier.verify_safety(insns, &cfg);
        let stack_size = match r {
            Ok(s) => s,
            Err(e) => return Err(e),
        };
        Self::verify_profile_constraints(&cfg, insns)?;
        verifier.cfg = Some(cfg);
        match BpfProgram::new(prog_type, copy_insns(insns), stack_size) {
            Ok(p) => Ok(p),
            Err(ProgramError::StackSizeExceeded { required, limit }) => Err(
                VerifyError::StackExceeded { used: required, limit },
            ),
            Err(ProgramError::InsnCountExceeded { count, limit }) => Err(
                VerifyError::InsnCountExceeded { count, limit },
            ),
            Err(ProgramError::EmptyProgram) => Err(VerifyError::EmptyProgram),
        }
    }

    /// Reachability check, path exploration, and the deepest stack use.
    fn verify_safety(&mut self, insns: &[BpfInsn], cfg: &ControlFlowGraph) -> (r: Result<usize, VerifyError>)
        requires
            basic_check(insns@, P::MAX_INSN_COUNT) is Ok,
            0 < insns@.len() <= 0x1000_0000,
            cfg.describes(insns@),
            P::MAX_STACK_SIZE <= 0x1000_0000,
            0 < P::MAX_INSN_COUNT <= 0x1000_0000,
        ensures
            r == safety_result(insns@, P::MAX_INSN_COUNT, P::MAX_STACK_SIZE),
            r matches Ok(d) ==> d <= P::MAX_STACK_SIZE,
    {
        let n = insns.len();
        assert(cfg.reach() =~= reach_flags(insns@));
        let mut idx: usize = 0;
        while idx < n
            invariant
                idx <= n,
                n == insns@.len(),
                cfg.describes(insns@),
                cfg.reach() == reach_flags(insns@),
                first_unreachable(insns@, reach_flags(insns@), 0) == first_unreachable(
                    insns@,
                    reach_flags(insns@),
                    idx as int,
                ),
            decreases n - idx,
        {
            let skip = idx > 0 && insns[idx - 1].is_wide();
            if !skip && !cfg.is_reachable(idx) && !insns[idx].is_exit() {
                return Err(VerifyError::UnreachableInstruction { insn_idx: idx });
            }
            idx = idx + 1;
        }
        let mut states: Vec<Option<VerifierState>> = Vec::new();
        let mut k: usize = 0;
        while k < n
            invariant
                k <= n,
                states@.len() == k,
                forall|i: int| 0 <= i < k ==> (#[trigger] states@[i]) is None,
            decreases n - k,
        {
            states.push(None);
            k = k + 1;
        }
        self.states = states;
        let initial = VerifierState::new_entry(P::MAX_STACK_SIZE);
        assert(self.states_checked(insns@));
        assert(state_ok(abs_state(&initial)));
        proof {
            assert(cache_of(self.states@) =~= Seq::new(insns@.len(), |i: int| None::<AbsState>));
            assert(abs_state(&initial) =~= entry_abs(P::MAX_STACK_SIZE));
        }
        self.verify_path(insns, 0, initial)?;
        let ghost c = cache_of(self.states@);
        let mut max_stack: usize = 0;
        let mut j: usize = 0;
        while j < self.states.len()
            invariant
                j <= self.states@.len(),
                self.states_checked(insns@),
                self.states@.len() == insns@.len(),
                c == cache_of(self.states@),
                max_stack == cache_max_depth(c, j as int),
                max_stack <= P::MAX_STACK_SIZE,
                0 < insns@.len(),
            decreases self.states@.len() - j,
        {
            proof {
                assert(c[j as int] == match self.states@[j as int] {
                    Some(s) => Some(abs_state(&s)),
                    None => None::<AbsState>,
                });
            }
            match &self.states[j] {
                Some(s) => {
                    let d = s.stack.max_depth();
                    if d > max_stack {
                        max_stack = d;
                    }
                },
                None => {},
            }
            j = j + 1;
        }
        Ok(max_stack)
    }

    /// Explore the path that starts at `start_idx` in `state`, and every
    /// branch off it, depth first, recording the state each checked
    /// instruction is reached in.
    fn verify_path(&mut self, insns: &[BpfInsn], start_idx: usize, entry: VerifierState) -> (r: Result<(), VerifyError>)
        requires
            old(self).states_checked(insns@),
            0 < insns@.len() <= 0x1000_0000,
            state_ok(abs_state(&entry)),
            entry.stack.slots().len() == P::MAX_STACK_SIZE,
            entry.insn_processed <= P::MAX_INSN_COUNT + 1,
            start_idx <= 0x1001_0000,
            0 < P::MAX_INSN_COUNT <= 0x1000_0000,
        ensures
            final(self).states_checked(insns@),
            (r, cache_of(final(self).states@)) == explore(
                insns@,
                P::MAX_INSN_COUNT as int,
                cache_of(old(self).states@),
                abs_state(&entry),
                start_idx as int,
                entry.insn_processed as int,
            ),
        decreases P::MAX_INSN_COUNT + 2 - entry.insn_processed,
    {
        let ghost p0 = entry.insn_processed;
        let ghost goal = explore(
            insns@,
            P::MAX_INSN_COUNT as int,
            cache_of(self.states@),
            abs_state(&entry),
            start_idx as int,
            entry.insn_processed as int,
        );
        let mut state = entry;
        state.insn_idx = start_idx;
        loop
            invariant
                self.states_checked(insns@),
                0 < insns@.len() <= 0x1000_0000,
                state_ok(abs_state(&state)),
                state.stack.slots().len() == P::MAX_STACK_SIZE,
                state.insn_processed <= P::MAX_INSN_COUNT + 1,
                state.insn_processed >= p0,
                p0 == entry.insn_processed,
                state.insn_idx <= 0x1001_0000,
                0 < P::MAX_INSN_COUNT <= 0x1000_0000,
                goal == explore(
                    insns@,
                    P::MAX_INSN_COUNT as int,
                    cache_of(old(self).states@),
                    abs_state(&entry),
                    start_idx as int,
                    entry.insn_processed as int,
                ),
                goal == explore(
                    insns@,
                    P::MAX_INSN_COUNT as int,
                    cache_of(self.states@),
                    abs_state(&state),
                    state.insn_idx as int,
                    state.insn_processed as int,
                ),
            decreases P::MAX_INSN_COUNT + 2 - state.insn_processed,
        {
            let idx = state.insn_idx;
            if idx >= insns.len() {
                return Err(
                    VerifyError::InvalidJump {
                        insn_idx: idx.saturating_sub(1),
                        target: idx as i32,
                    },
                );
            }
            if state.insn_processed > P::MAX_INSN_COUNT {
                return Err(VerifyError::InfiniteLoop { insn_idx: idx });
            }
            match &self.states[idx] {
                Some(existing) => {
                    if states_compatible(&state, existing) {
                        proof {
                            assert(cache_of(self.states@)[idx as int] == Some(abs_state(existing)));
                        }
                        return Ok(());
                    }
                    proof {
                        assert(cache_of(self.states@)[idx as int] == Some(abs_state(existing)));
                    }
                },
                None => {
                    proof {
                        assert(cache_of(self.states@)[idx as int] is None);
                    }
                },
            }
            let insn = insns[idx];
            let mut checked = state.clone();
            let result = verify_insn(&insn, &mut checked, idx);
            let result = match result {
                Ok(res) => res,
                Err(e) => return Err(e),
            };
            let ghost before = self.states@;
            self.states.set(idx, Some(state.clone()));
            proof {
                assert(cache_of(self.states@) =~= cache_of(before).update(idx as int, Some(abs_state(&state))));
            }
            assert(self.states_checked(insns@)) by {
                assert(insn_step(insns@[idx as int], idx, abs_state(&state)) is Ok);
            }
            state = checked;
            match result {
                InsnResult::Continue => {
                    if insn.is_wide() {
                        state.insn_idx = idx + 2;
                    } else {
                        state.insn_idx = idx + 1;
                    }
                    state.insn_processed = state.insn_processed + 1;
                },
                InsnResult::Jump(target) => {
                    state.insn_idx = target;
                    state.insn_processed = state.insn_processed + 1;
                },
                InsnResult::Branch { fallthrough, target } => {
                    let mut branch_state = state.clone();
                    branch_state.insn_idx = target;
                    branch_state.insn_processed = branch_state.insn_processed + 1;
                    self.verify_path(insns, target, branch_state)?;
                    state.insn_idx = fallthrough;
                    state.insn_processed = state.insn_processed + 1;
                },
                InsnResult::Exit => {
                    return Ok(());
                },
            }
        }
    }

    /// The profile's constraints.
    fn verify_profile_constraints(cfg: &ControlFlowGraph, insns: &[BpfInsn]) -> (r: Result<(), VerifyError>)
        requires
            cfg.describes(insns@),
        ensures
            r == profile_check(P::STRICT_CONSTRAINTS, insns@),
    {
        if P::STRICT_CONSTRAINTS {
            Self::verify_embedded_constraints(cfg, insns)
        } else {
            Ok(())
        }
    }

    /// Embedded constraints: no reachable loop, no allocating helper.
    fn verify_embedded_constraints(cfg: &ControlFlowGraph, insns: &[BpfInsn]) -> (r: Result<(), VerifyError>)
        requires
            cfg.describes(insns@),
        ensures
            r == profile_check(true, insns@),
    {
        assert(cfg.reach() =~= reach_flags(insns@));
        if cfg.has_loops() {
            let edges = cfg.back_edges();
            let (from, _to) = edges[0];
            return Err(VerifyError::UnboundedLoop { insn_idx: from });
        }
        let mut idx: usize = 0;
        while idx < insns.len()
            invariant
                idx <= insns@.len(),
            decreases insns@.len() - idx,
        {
            if insns[idx].is_call() && allocating_helper(insns[idx].imm) {
                return Err(VerifyError::DynamicAllocationAttempted { insn_idx: idx });
            }
            idx = idx + 1;
        }
        Ok(())
    }
}

/// A copy of `insns` in a vector of its own.
pub fn copy_insns(insns: &[BpfInsn]) -> (v: Vec<BpfInsn>)
    ensures
        v@ == insns@,
{
    let mut v: Vec<BpfInsn> = Vec::new();
    let mut i: usize = 0;
    while i < insns.len()
        invariant
            i <= insns@.len(),
            v@ == insns@.subrange(0, i as int),
        decreases insns@.len() - i,
    {
        v.push(insns[i]);
        i = i + 1;
    }
    v
}

/// Two states are compatible when every register has the same type.
pub open spec fn compatible(s1: &VerifierState, s2: &VerifierState) -> bool {
    forall|i: int| 0 <= i < 11 ==> (#[trigger] s1.regs@[i]).reg_type == s2.regs@[i].reg_type
}

/// Whether every register has the same type in both states.
pub fn states_compatible(s1: &VerifierState, s2: &VerifierState) -> (r: bool)
    ensures
        r == compatible(s1, s2),
{
    let mut i: usize = 0;
    while i < 11
        invariant
            i <= 11,
            forall|j: int| 0 <= j < i ==> (#[trigger] s1.regs@[j]).reg_type == s2.regs@[j].reg_type,
        decreases 11 - i,
    {
        if s1.regs[i].reg_type != s2.regs[i].reg_type {
            return false;
        }
        i = i + 1;
    }
    true
}

impl<P: PhysicalProfile> Default for Verifier<P> {
    fn default() -> (r: Self)
        ensures
            r.fresh(),
    {
        Verifier::new()
    }
}

} // verus!

verus! {

/// Under strict constraints (the embedded profile) a verified program has
/// no reachable back edge, so no loop; and every verified program passed
/// the structural checks and has every instruction reachable.
pub proof fn lemma_verified_program_shape(insns: Seq<BpfInsn>, max_insns: usize, max_stack: usize, strict: bool)
    requires
        verify_result(insns, max_insns, max_stack, strict) is Ok,
    ensures
        basic_check(insns, max_insns) is Ok,
        first_unreachable(insns, reach_flags(insns), 0) is None,
        strict ==> back_edges_below(insns, reach_flags(insns), insns.len() as int).len() == 0,
        verify_result(insns, max_insns, max_stack, strict).unwrap() <= max_stack,
{
    let d = safety_result(insns, max_insns, max_stack).unwrap();
    assert(program_check(insns.len(), d, max_insns, max_stack) is Ok);
}

} // verus!
