//! State pruning for the path-sensitive verifier.
//!
//! If a state already explored at a program counter is at least as general
//! as the one about to be explored there, exploring the new one again is
//! redundant. `StateSubsumes` decides "at least as general" and
//! `StatePruner` keeps the explored states per program counter.
use vstd::prelude::*;

use crate::bpf_verifier::state::{abs_state, AbsState, RegState, RegType, ScalarValue, StackSlot, VerifierState};
use crate::bpf_verifier::tnum::{
    lemma_tnum_subsumes_preorder, lemma_tnum_subsumes_sound, tnum_subsumes_spec,
};
use crate::bytecode::registers::Register;

verus! {

/// Result of consulting the pruner before exploring a state.
#[derive(Debug, Clone, Copy, PartialEq, Eq, Structural)]
pub enum PruneDecision {
    /// No recorded state at this pc subsumes the current one; it has been
    /// recorded and exploration continues.
    Continue,
    /// A recorded state subsumes the current one; skip it.
    Prune,
}

/// The slot at `offset` from FP, if in range (the view of `StackState::get`).
pub open spec fn slot_at(slots: Seq<StackSlot>, offset: int) -> Option<StackSlot> {
    if offset < 0 && -offset <= slots.len() {
        Some(slots[-offset - 1])
    } else {
        None
    }
}

/// Register state `a` is at least as general as `b`.
pub open spec fn reg_subsumes(a: RegState, b: RegState) -> bool {
    if a.reg_type != b.reg_type {
        false
    } else {
        match a.reg_type {
            RegType::NotInit => true,
            RegType::Scalar => match (a.scalar_value, b.scalar_value) {
                (None, _) => true,
                (Some(_), None) => false,
                (Some(x), Some(y)) => x.min <= y.min && x.max >= y.max && tnum_subsumes_spec(
                    x.tnum,
                    y.tnum,
                ),
            },
            _ => a.ptr_offset == b.ptr_offset && a.map_id == b.map_id,
        }
    }
}

/// Whole state `a` is at least as general as `b`: every register subsumes,
/// and the stacks have the same depth and the same slots above it.
pub open spec fn state_subsumes(a: AbsState, b: AbsState) -> bool {
    &&& a.regs.len() == 11 && b.regs.len() == 11
    &&& forall|i: int| 0 <= i < 11 ==> #[trigger] reg_subsumes(a.regs[i], b.regs[i])
    &&& a.depth == b.depth
    &&& forall|off: int| -(a.depth as int) <= off < 0 ==> #[trigger] slot_at(a.slots, off)
        == slot_at(b.slots, off)
}

/// Trait for "`self` is at least as general as `other`".
pub trait StateSubsumes {
    fn subsumes(&self, other: &Self) -> bool;
}

impl StateSubsumes for RegState {
    fn subsumes(&self, other: &Self) -> (r: bool)
        ensures
            r == reg_subsumes(*self, *other),
    {
        if self.reg_type != other.reg_type {
            return false;
        }
        match self.reg_type {
            RegType::NotInit => true,
            RegType::Scalar => match (&self.scalar_value, &other.scalar_value) {
                (None, _) => true,
                (Some(_), None) => false,
                (Some(a), Some(b)) => {
                    let interval_ok = a.min <= b.min && a.max >= b.max;
                    let tnum_ok = a.tnum.subsumes(&b.tnum);
                    interval_ok && tnum_ok
                },
            },
            _ => self.ptr_offset == other.ptr_offset && match (self.map_id, other.map_id) {
                (None, None) => true,
                (Some(x), Some(y)) => x == y,
                _ => false,
            },
        }
    }
}

fn slot_eq(a: Option<StackSlot>, b: Option<StackSlot>) -> (r: bool)
    ensures
        r == (a == b),
{
    match (a, b) {
        (None, None) => true,
        (Some(x), Some(y)) => x == y,
        _ => false,
    }
}

impl StateSubsumes for VerifierState {
    fn subsumes(&self, other: &Self) -> (r: bool)
        ensures
            r == state_subsumes(abs_state(self), abs_state(other)),
    {
        let mut i: usize = 0;
        while i < 11
            invariant
                0 <= i <= 11,
                self.regs@.len() == 11,
                other.regs@.len() == 11,
                forall|j: int| 0 <= j < i ==> #[trigger] reg_subsumes(self.regs@[j], other.regs@[j]),
            decreases 11 - i,
        {
            if !self.regs[i].subsumes(&other.regs[i]) {
                return false;
            }
            i = i + 1;
        }
        let depth = self.stack.max_depth();
        if depth != other.stack.max_depth() {
            return false;
        }
        let mut k: usize = 0;
        while k < depth
            invariant
                0 <= k <= depth,
                depth == self.stack.depth(),
                forall|off: int| -(k as int) <= off < 0 ==> #[trigger] slot_at(self.stack.slots(), off)
                    == slot_at(other.stack.slots(), off),
            decreases depth - k,
        {
            let a = self.stack.slot(k);
            let b = other.stack.slot(k);
            assert(a == slot_at(self.stack.slots(), -(k as int) - 1));
            assert(b == slot_at(other.stack.slots(), -(k as int) - 1));
            if !slot_eq(a, b) {
                return false;
            }
            k = k + 1;
        }
        true
    }
}

/// A state with this many explored states per pc, together with the
/// order in which they were recorded.
pub open spec fn states_at(log: Seq<(usize, AbsState)>, pc: usize) -> Seq<AbsState>
    decreases log.len(),
{
    if log.len() == 0 {
        Seq::empty()
    } else {
        let last = log.last();
        let rest = states_at(log.drop_last(), pc);
        if last.0 == pc {
            rest.push(last.1)
        } else {
            rest
        }
    }
}

/// `usize` keys are totally ordered as the map requires.
proof fn lemma_usize_key_order()
    ensures
        vstd::laws_cmp::obeys_cmp::<usize>(),
{
    broadcast use vstd::laws_cmp::group_laws_cmp;

}

/// The per-pc storage holds, for each pc, exactly the states recorded at it.
pub open spec fn storage_matches(
    m: Map<usize, Vec<VerifierState>>,
    log: Seq<(usize, AbsState)>,
) -> bool {
    forall|pc: usize|
        #![trigger m.contains_key(pc)]
        #![trigger states_at(log, pc)]
        {
            &&& m.contains_key(pc) ==> m[pc]@.map_values(|s: VerifierState| abs_state(&s))
                == states_at(log, pc)
            &&& !m.contains_key(pc) ==> states_at(log, pc).len() == 0
        }
}

/// Records explored states keyed by program counter.
pub struct StatePruner {
    by_pc: std::collections::BTreeMap<usize, Vec<VerifierState>>,
    total: usize,
    log: Ghost<Seq<(usize, AbsState)>>,
}

impl StatePruner {
    /// The recorded (pc, state) pairs, in recording order.
    pub closed spec fn history(&self) -> Seq<(usize, AbsState)> {
        self.log@
    }

    /// Internal consistency of the per-pc storage with the history.
    pub closed spec fn wf(&self) -> bool {
        &&& self.total == self.log@.len()
        &&& storage_matches(self.by_pc@, self.log@)
    }

    /// An empty pruner.
    pub fn new() -> (r: Self)
        ensures
            r.wf(),
            r.history() == Seq::<(usize, AbsState)>::empty(),
    {
        let r = StatePruner {
            by_pc: std::collections::BTreeMap::new(),
            total: 0,
            log: Ghost(Seq::empty()),
        };
        r
    }

    /// If a recorded state at `pc` subsumes `state`, prune; otherwise record
    /// `state` at `pc` and continue.
    pub fn check_or_record(&mut self, pc: usize, state: &VerifierState) -> (r: PruneDecision)
        requires
            old(self).wf(),
            old(self).history().len() < usize::MAX,
        ensures
            final(self).wf(),
            (r == PruneDecision::Prune) <==> exists|i: int|
                0 <= i < states_at(old(self).history(), pc).len() && state_subsumes(
                    #[trigger] states_at(old(self).history(), pc)[i],
                    abs_state(state),
                ),
            r == PruneDecision::Prune ==> final(self).history() == old(self).history(),
            r == PruneDecision::Continue ==> final(self).history() == old(self).history().push(
                (pc, abs_state(state)),
            ),
    {
        broadcast use vstd::std_specs::btree::group_btree_axioms;

        let ghost old_log = self.log@;
        let ghost old_map = self.by_pc@;
        proof {
            lemma_usize_key_order();
        }
        let mut entries = match self.by_pc.remove(&pc) {
            Some(v) => v,
            None => Vec::new(),
        };
        let ghost entries_abs = entries@.map_values(|s: VerifierState| abs_state(&s));
        assert(entries_abs =~= states_at(old_log, pc));
        assert(old_map.contains_key(pc) ==> entries == old_map[pc]);
        assert(!old_map.contains_key(pc) ==> entries@.len() == 0);
        let mut i: usize = 0;
        while i < entries.len()
            invariant
                0 <= i <= entries@.len(),
                entries_abs == entries@.map_values(|s: VerifierState| abs_state(&s)),
                entries_abs == states_at(old_log, pc),
                old_map.contains_key(pc) ==> entries == old_map[pc],
                !old_map.contains_key(pc) ==> entries@.len() == 0,
                self.by_pc@ == old_map.remove(pc),
                self.log@ == old_log,
                self.total == old_log.len(),
                old_log.len() < usize::MAX,
                storage_matches(old_map, old_log),
                old(self).log@ == old_log,
                forall|j: int| 0 <= j < i ==> !state_subsumes(
                    #[trigger] entries_abs[j],
                    abs_state(state),
                ),
            decreases entries@.len() - i,
        {
            if entries[i].subsumes(state) {
                let ghost ii = i as int;
                assert(state_subsumes(entries_abs[ii], abs_state(state)));
                self.by_pc.insert(pc, entries);
                assert(self.by_pc@ =~= old_map);
                assert(old(self).history() == old_log);
                assert(states_at(old(self).history(), pc)[ii] == entries_abs[ii]);
                assert(0 <= ii < states_at(old(self).history(), pc).len());
                assert(self.wf());
                return PruneDecision::Prune;
            }
            i = i + 1;
        }
        entries.push(state.clone());
        self.by_pc.insert(pc, entries);
        self.total = self.total + 1;
        proof {
            let new_log = old_log.push((pc, abs_state(state)));
            self.log@ = new_log;
            assert(new_log.drop_last() =~= old_log);
            assert forall|p: usize| #![auto] true implies {
                &&& self.by_pc@.contains_key(p) ==> self.by_pc@[p]@.map_values(
                    |s: VerifierState| abs_state(&s),
                ) == states_at(self.log@, p)
                &&& !self.by_pc@.contains_key(p) ==> states_at(self.log@, p).len() == 0
            } by {
                assert(old_map.contains_key(p) ==> old_map[p]@.map_values(
                    |s: VerifierState| abs_state(&s),
                ) == states_at(old_log, p));
                assert(states_at(new_log, p) == (if p == pc {
                    states_at(old_log, p).push(abs_state(state))
                } else {
                    states_at(old_log, p)
                }));
                if p == pc {
                    assert(self.by_pc@[p]@.map_values(|s: VerifierState| abs_state(&s))
                        =~= entries_abs.push(abs_state(state)));
                } else {
                    assert(self.by_pc@.contains_key(p) == old_map.contains_key(p));
                    if old_map.contains_key(p) {
                        assert(self.by_pc@[p] == old_map[p]);
                    }
                }
            }
        }
        PruneDecision::Continue
    }

    /// Drop all recorded states.
    pub fn clear(&mut self)
        ensures
            final(self).wf(),
            final(self).history() == Seq::<(usize, AbsState)>::empty(),
    {
        self.by_pc.clear();
        self.total = 0;
        self.log = Ghost(Seq::empty());
    }

    /// Total number of recorded states over all program counters.
    pub fn recorded(&self) -> (r: usize)
        requires
            self.wf(),
        ensures
            r == self.history().len(),
    {
        self.total
    }
}

impl Default for StatePruner {
    fn default() -> (r: Self)
        ensures
            r.wf(),
            r.history() == Seq::<(usize, AbsState)>::empty(),
    {
        StatePruner::new()
    }
}

/// A scalar description whose exact value, when present, is pinned down by
/// its tnum or its interval.
pub open spec fn value_pinned(s: ScalarValue) -> bool {
    s.value matches Some(v) ==> ((s.tnum.mask == 0 && s.tnum.value == v) || (s.min == v && s.max
        == v))
}

/// What a register state admits as a concrete scalar: an unknown scalar
/// (no tracked value) admits everything.
pub open spec fn reg_admits_scalar(r: RegState, x: u64) -> bool {
    r.reg_type is Scalar && match r.scalar_value {
        None => true,
        Some(s) => s.has(x),
    }
}

/// Subsumption is sound for scalars: a concrete value admitted by `b` is
/// admitted by any `a` that subsumes it, when `a`'s exact value (if any)
/// is pinned down by its tnum or interval.
pub proof fn lemma_reg_subsumes_sound(a: RegState, b: RegState, x: u64)
    requires
        reg_subsumes(a, b),
        reg_admits_scalar(b, x),
        a.scalar_value matches Some(s) ==> value_pinned(s),
    ensures
        reg_admits_scalar(a, x),
{
    if let (Some(sa), Some(sb)) = (a.scalar_value, b.scalar_value) {
        lemma_tnum_subsumes_sound(sa.tnum, sb.tnum, x);
        if sa.value is Some && sa.tnum.mask == 0 {
            let (v, m) = (sa.tnum.value, sa.tnum.mask);
            assert(m == 0 && x & !m == v ==> x == v) by (bit_vector);
        }
    }
}

/// The tracked scalar of a register, if any, has a well-formed tnum.
pub open spec fn reg_tnum_wf(r: RegState) -> bool {
    r.scalar_value matches Some(s) ==> s.tnum.wf()
}

/// Subsumption of register states is a preorder: reflexive on states
/// with well-formed tnums, and transitive.
pub proof fn lemma_reg_subsumes_preorder(a: RegState, b: RegState, c: RegState)
    ensures
        reg_tnum_wf(a) ==> reg_subsumes(a, a),
        reg_subsumes(a, b) && reg_subsumes(b, c) ==> reg_subsumes(a, c),
{
    if let Some(s) = a.scalar_value {
        lemma_tnum_subsumes_preorder(s.tnum, s.tnum, s.tnum);
    }
    if let (Some(sa), Some(sb), Some(sc)) = (a.scalar_value, b.scalar_value, c.scalar_value) {
        lemma_tnum_subsumes_preorder(sa.tnum, sb.tnum, sc.tnum);
    }
}

/// Subsumption of whole states is reflexive (on states whose scalar tnums
/// are well-formed) and transitive.
pub proof fn lemma_state_subsumes_preorder(a: AbsState, b: AbsState, c: AbsState)
    ensures
        (a.regs.len() == 11 && forall|i: int| 0 <= i < 11 ==> reg_tnum_wf(#[trigger] a.regs[i]))
            ==> state_subsumes(a, a),
        state_subsumes(a, b) && state_subsumes(b, c) ==> state_subsumes(a, c),
{
    assert forall|i: int| 0 <= i < 11 implies (reg_tnum_wf(a.regs[i]) ==> reg_subsumes(
        a.regs[i],
        a.regs[i],
    )) && (reg_subsumes(
        a.regs[i],
        b.regs[i],
    ) && reg_subsumes(b.regs[i], c.regs[i]) ==> reg_subsumes(a.regs[i], c.regs[i])) by {
        lemma_reg_subsumes_preorder(a.regs[i], b.regs[i], c.regs[i]);
    }
}

} // verus!
