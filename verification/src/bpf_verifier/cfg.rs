//! Control-flow graph of a program: successor edges, reachability from the
//! entry instruction, and back edges (jumps to the same or an earlier
//! instruction).
use vstd::prelude::*;

use crate::bytecode::insn::BpfInsn;
use crate::bytecode::opcode::JmpOp;

verus! {

/// Target of a jump at `idx` with offset `offset`: `idx + 1 + offset`.
pub open spec fn jump_target(idx: int, offset: i16) -> int {
    idx + 1 + offset
}

/// Instruction `j` directly follows instruction `i` in some execution.
pub open spec fn edge(insns: Seq<BpfInsn>, i: int, j: int) -> bool {
    let insn = insns[i];
    &&& 0 <= i < insns.len()
    &&& 0 <= j < insns.len()
    &&& !insn.spec_is_exit()
    &&& match insn.spec_jmp_op() {
        Some(op) => match op {
            JmpOp::Exit => false,
            JmpOp::Call => j == i + 1,
            JmpOp::Ja => j == jump_target(i, insn.offset),
            _ => j == i + 1 || j == jump_target(i, insn.offset),
        },
        None => if insn.spec_is_wide() {
            j == i + 2
        } else {
            j == i + 1
        },
    }
}

/// `path` is a walk along edges from instruction 0 to its last element.
pub open spec fn is_path(insns: Seq<BpfInsn>, path: Seq<int>) -> bool {
    &&& path.len() > 0
    &&& path[0] == 0
    &&& forall|k: int| 0 <= k < path.len() - 1 ==> #[trigger] edge(insns, path[k], path[k + 1])
}

/// Instruction `i` is reachable from the entry instruction.
pub open spec fn reachable(insns: Seq<BpfInsn>, i: int) -> bool {
    exists|path: Seq<int>| is_path(insns, path) && path.last() == i
}

/// A jump from `i` to a target at or before `i`.
pub open spec fn back_edge_at(insns: Seq<BpfInsn>, i: int) -> bool {
    &&& 0 <= i < insns.len()
    &&& insns[i].spec_jmp_op() matches Some(op)
    &&& !(op is Exit || op is Call)
    &&& 0 <= jump_target(i, insns[i].offset) <= i
}

/// Back edges from reachable instructions below `n`, in increasing order of source.
pub open spec fn back_edges_below(insns: Seq<BpfInsn>, reach: Seq<bool>, n: int) -> Seq<
    (usize, usize),
>
    decreases n,
{
    if n <= 0 {
        Seq::empty()
    } else {
        let rest = back_edges_below(insns, reach, n - 1);
        let i = n - 1;
        if reach[i] && back_edge_at(insns, i) {
            rest.push((i as usize, jump_target(i, insns[i].offset) as usize))
        } else {
            rest
        }
    }
}

/// Control-flow graph of a program.
pub struct ControlFlowGraph {
    reachable: Vec<bool>,
    back_edges: Vec<(usize, usize)>,
}

impl ControlFlowGraph {
    /// Reachability flag of each instruction.
    pub closed spec fn reach(&self) -> Seq<bool> {
        self.reachable@
    }

    /// The back edges, by increasing source.
    pub closed spec fn edges_back(&self) -> Seq<(usize, usize)> {
        self.back_edges@
    }

    /// The graph of `insns`: the flags are exactly the reachable
    /// instructions and the back edges are those from reachable instructions.
    pub open spec fn describes(&self, insns: Seq<BpfInsn>) -> bool {
        &&& self.reach().len() == insns.len()
        &&& forall|i: int| 0 <= i < insns.len() ==> (#[trigger] self.reach()[i] <==> reachable(insns, i))
        &&& self.edges_back() == back_edges_below(insns, self.reach(), insns.len() as int)
    }

    /// Build the graph of a program.
    pub fn build(insns: &[BpfInsn]) -> (r: Self)
        requires
            insns@.len() <= 0x1000_0000,
        ensures
            r.describes(insns@),
    {
        let n = insns.len();
        let mut marked: Vec<bool> = Vec::new();
        let mut k: usize = 0;
        while k < n
            invariant
                k <= n,
                n == insns@.len(),
                marked@ == Seq::new(k as nat, |i: int| false),
            decreases n - k,
        {
            marked.push(false);
            k = k + 1;
            assert(marked@ =~= Seq::new(k as nat, |i: int| false));
        }
        let mut work: Vec<usize> = Vec::new();
        if n > 0 {
            marked.set(0, true);
            work.push(0);
            proof {
                let p = seq![0int];
                assert(is_path(insns@, p));
                assert(p.last() == 0);
                assert(reachable(insns@, 0));
                assert forall|i: int| 0 <= i < n && #[trigger] marked@[i] implies i == 0 by {}
                assert(work@[0] == 0);
            }
        }
        let ghost mut popped: Seq<bool> = Seq::new(n as nat, |i: int| false);
        // Every marked instruction is reachable; every marked instruction not
        // on the work list has all its successors marked.
        while work.len() > 0
            invariant
                n == insns@.len(),
                n <= 0x1000_0000,
                marked@.len() == n,
                popped.len() == n,
                n > 0 ==> marked@[0],
                forall|i: int| 0 <= i < n && #[trigger] marked@[i] ==> reachable(insns@, i),
                forall|k: int| 0 <= k < work@.len() ==> (work@[k] as int) < n && marked@[work@[k] as int],
                forall|i: int| 0 <= i < n && #[trigger] popped[i] ==> marked@[i],
                forall|i: int, j: int|
                    0 <= i < n && popped[i] && #[trigger] edge(insns@, i, j) ==> marked@[j],
                forall|i: int|
                    0 <= i < n && #[trigger] marked@[i] && !popped[i] ==> work@.contains(i as usize),
                work@.no_duplicates(),
                forall|k: int| 0 <= k < work@.len() ==> !popped[work@[k] as int],
            decreases count_false(marked@) + work@.len(),
        {
            let ghost pre = work@;
            let i = work.pop().unwrap();
            assert(pre =~= work@.push(i));
            let insn = insns[i];
            let mut next: Vec<usize> = Vec::new();
            if !insn.is_exit() {
                match insn.jmp_op() {
                    Some(op) => {
                        let t = (i as i64) + 1 + (insn.offset as i64);
                        match op {
                            JmpOp::Exit => {},
                            JmpOp::Call => {
                                next.push(i + 1);
                            },
                            JmpOp::Ja => {
                                if t >= 0 {
                                    next.push(t as usize);
                                }
                            },
                            _ => {
                                next.push(i + 1);
                                if t >= 0 {
                                    next.push(t as usize);
                                }
                            },
                        }
                    },
                    None => {
                        if insn.is_wide() {
                            next.push(i + 2);
                        } else {
                            next.push(i + 1);
                        }
                    },
                }
            }
            assert forall|j: int| #[trigger] edge(insns@, i as int, j) implies next@.contains(
                j as usize,
            ) by {
                if j == i + 1 && !(insn.spec_jmp_op() matches Some(op) && op is Ja) {
                    assert(next@[0] == j as usize);
                } else if insn.spec_jmp_op() is Some {
                    assert(next@[next@.len() - 1] == j as usize);
                } else {
                    assert(next@[0] == j as usize);
                }
            }
            assert forall|m: int| 0 <= m < next@.len() && (next@[m] as int) < n implies edge(
                insns@,
                i as int,
                next@[m] as int,
            ) by {}
            let ghost old_work = pre;
            assert forall|ii: int|
                0 <= ii < n && #[trigger] marked@[ii] && !popped.update(i as int, true)[ii] implies work@.contains(
                ii as usize,
            ) by {
                assert(old_work.contains(ii as usize));
                let m = choose|m: int| 0 <= m < old_work.len() && old_work[m] == ii as usize;
                assert(m != old_work.len() - 1);
                assert(work@[m] == ii as usize);
            }
            let ghost old_measure = count_false(marked@) + work@.len() + 1;
            proof {
                popped = popped.update(i as int, true);
            }
            let mut q: usize = 0;
            while q < next.len()
                invariant
                    n == insns@.len(),
                    n <= 0x1000_0000,
                    marked@.len() == n,
                    popped.len() == n,
                    0 <= i < n,
                    popped[i as int],
                    marked@[i as int],
                    n > 0 ==> marked@[0],
                    forall|j: int| #[trigger] edge(insns@, i as int, j) ==> next@.contains(j as usize),
                    forall|m: int| 0 <= m < next@.len() ==> (next@[m] as int) < n ==> edge(insns@, i as int, next@[m] as int),
                    forall|ii: int| 0 <= ii < n && #[trigger] marked@[ii] ==> reachable(insns@, ii),
                    forall|k: int| 0 <= k < work@.len() ==> (work@[k] as int) < n && marked@[work@[k] as int],
                    forall|ii: int| 0 <= ii < n && #[trigger] popped[ii] ==> marked@[ii],
                    forall|ii: int, j: int|
                        0 <= ii < n && ii != i && popped[ii] && #[trigger] edge(insns@, ii, j) ==> marked@[j],
                    forall|m: int| 0 <= m < q ==> (next@[m] as int) < n ==> marked@[next@[m] as int],
                    forall|ii: int|
                        0 <= ii < n && #[trigger] marked@[ii] && !popped[ii] ==> work@.contains(ii as usize),
                    work@.no_duplicates(),
                    forall|k: int| 0 <= k < work@.len() ==> !popped[work@[k] as int],
                    count_false(marked@) + work@.len() < old_measure,
                decreases next@.len() - q,
            {
                let j = next[q];
                if j < n && !marked[j] {
                    proof {
                        lemma_count_false_update(marked@, j as int);
                        let path_i = choose|path: Seq<int>| is_path(insns@, path) && path.last() == i as int;
                        let path_j = path_i.push(j as int);
                        assert(edge(insns@, i as int, j as int));
                        assert(is_path(insns@, path_j));
                        assert(path_j.last() == j as int);
                        assert(reachable(insns@, j as int));
                    }
                    let ghost w0 = work@;
                    marked.set(j, true);
                    work.push(j);
                    proof {
                        assert forall|ii: int|
                            0 <= ii < n && #[trigger] marked@[ii] && !popped[ii] implies work@.contains(
                            ii as usize,
                        ) by {
                            if ii == j {
                                assert(work@[work@.len() - 1] == j);
                            } else {
                                assert(w0.contains(ii as usize));
                                let m = choose|m: int| 0 <= m < w0.len() && w0[m] == ii as usize;
                                assert(work@[m] == ii as usize);
                            }
                        }
                    }
                }
                q = q + 1;
            }
        }
        // Completeness: every reachable instruction is marked.
        assert forall|i: int| 0 <= i < n && #[trigger] marked@[i] implies popped[i] by {
            if !popped[i] {
                assert(work@.contains(i as usize));
            }
        }
        assert forall|i: int| 0 <= i < n && reachable(insns@, i) implies marked@[i] by {
            let path = choose|path: Seq<int>| is_path(insns@, path) && path.last() == i;
            lemma_path_marked(insns@, marked@, popped, path);
        }
        let mut back: Vec<(usize, usize)> = Vec::new();
        let mut b: usize = 0;
        while b < n
            invariant
                b <= n,
                n == insns@.len(),
                n <= 0x1000_0000,
                marked@.len() == n,
                back@ == back_edges_below(insns@, marked@, b as int),
            decreases n - b,
        {
            let insn = insns[b];
            if marked[b] {
                match insn.jmp_op() {
                    Some(op) => {
                        if !matches!(op, JmpOp::Exit | JmpOp::Call) {
                            let t = (b as i64) + 1 + (insn.offset as i64);
                            if t >= 0 && t <= b as i64 {
                                back.push((b, t as usize));
                            }
                        }
                    },
                    None => {},
                }
            }
            b = b + 1;
        }
        ControlFlowGraph { reachable: marked, back_edges: back }
    }

    /// Whether instruction `idx` is reachable from the entry.
    pub fn is_reachable(&self, idx: usize) -> (r: bool)
        ensures
            r == (idx < self.reach().len() && self.reach()[idx as int]),
    {
        idx < self.reachable.len() && self.reachable[idx]
    }

    /// Indices of the reachable instructions, in increasing order.
    pub fn reachable_instructions(&self) -> (r: Vec<usize>)
        ensures
            forall|i: int|
                0 <= i < self.reach().len() ==> (self.reach()[i] <==> r@.contains(i as usize)),
    {
        let mut out: Vec<usize> = Vec::new();
        let mut i: usize = 0;
        while i < self.reachable.len()
            invariant
                i <= self.reach().len(),
                forall|k: int| 0 <= k < out@.len() ==> (out@[k] as int) < i && self.reach()[out@[k] as int],
                forall|k: int| 0 <= k < i && self.reach()[k] ==> out@.contains(k as usize),
            decreases self.reach().len() - i,
        {
            if self.reachable[i] {
                let ghost prev = out@;
                out.push(i);
                proof {
                    assert forall|k: int| 0 <= k <= i && self.reach()[k] implies out@.contains(
                        k as usize,
                    ) by {
                        if k == i {
                            assert(out@[out@.len() - 1] == i);
                        } else {
                            assert(prev.contains(k as usize));
                            let m = choose|m: int| 0 <= m < prev.len() && prev[m] == k as usize;
                            assert(out@[m] == k as usize);
                        }
                    }
                }
            }
            i = i + 1;
        }
        out
    }

    /// Whether the program has a back edge reachable from the entry.
    pub fn has_loops(&self) -> (r: bool)
        ensures
            r == (self.edges_back().len() > 0),
    {
        self.back_edges.len() > 0
    }

    /// The back edges `(from, to)` by increasing source.
    pub fn back_edges(&self) -> (r: &[(usize, usize)])
        ensures
            r@ == self.edges_back(),
    {
        self.back_edges.as_slice()
    }
}

/// Number of `false` entries.
pub open spec fn count_false(s: Seq<bool>) -> nat
    decreases s.len(),
{
    if s.len() == 0 {
        0
    } else {
        count_false(s.drop_last()) + if s.last() {
            0nat
        } else {
            1nat
        }
    }
}

proof fn lemma_count_false_update(s: Seq<bool>, i: int)
    requires
        0 <= i < s.len(),
        !s[i],
    ensures
        count_false(s.update(i, true)) + 1 == count_false(s),
    decreases s.len(),
{
    let t = s.update(i, true);
    if i == s.len() - 1 {
        assert(t.drop_last() =~= s.drop_last());
    } else {
        assert(t.drop_last() =~= s.drop_last().update(i, true));
        lemma_count_false_update(s.drop_last(), i);
    }
}

/// Along a path, every instruction is marked, given the closure facts.
proof fn lemma_path_marked(insns: Seq<BpfInsn>, marked: Seq<bool>, popped: Seq<bool>, path: Seq<int>)
    requires
        is_path(insns, path),
        marked.len() == insns.len(),
        popped.len() == insns.len(),
        insns.len() > 0 ==> marked[0],
        forall|i: int| 0 <= i < insns.len() && #[trigger] marked[i] ==> popped[i],
        forall|i: int, j: int|
            0 <= i < insns.len() && popped[i] && #[trigger] edge(insns, i, j) ==> marked[j],
    ensures
        0 <= path.last() < insns.len() ==> marked[path.last()],
    decreases path.len(),
{
    if path.len() == 1 {
    } else {
        let prefix = path.drop_last();
        assert(is_path(insns, prefix)) by {
            assert forall|k: int| 0 <= k < prefix.len() - 1 implies #[trigger] edge(insns, prefix[k], prefix[k + 1]) by {
                assert(edge(insns, path[k], path[k + 1]));
            }
        }
        let k = path.len() - 2;
        assert(edge(insns, path[k], path[k + 1]));
        lemma_path_marked(insns, marked, popped, prefix);
    }
}

} // verus!
