//! Iteration over the file names of a path, from either end. A file name
//! is a maximal run of bytes without a separator; empty names do not occur.
use vstd::prelude::*;
use vstd::string::*;

use crate::vfs::path::{
    after_separator, run_end, run_start, skip_seps, skip_seps_back, split_at_separator, Path,
    SEPARATOR,
};

verus! {

/// The file names of a path not yet taken from the front or the back.
pub struct Filenames<'a> {
    rest: &'a str,
}

impl<'a> Filenames<'a> {
    /// The bytes of the part of the path whose names are not taken yet.
    pub closed spec fn remaining(&self) -> Seq<u8> {
        self.rest.spec_bytes()
    }

    /// The file names not taken yet, in order.
    pub open spec fn names(&self) -> Seq<Seq<u8>> {
        components(self.remaining())
    }

    /// The file names of `p`.
    pub fn new(p: Path<'a>) -> (r: Self)
        ensures
            r.remaining() == p.bytes(),
            r.names() == components(p.bytes()),
    {
        Filenames { rest: p.as_str() }
    }

    /// Take the first remaining file name.
    pub fn next(&mut self) -> (r: Option<&'a str>)
        ensures
            ({
                let b = old(self).remaining();
                let s = skip_seps(b, 0);
                if s >= b.len() {
                    r is None && final(self).remaining().len() == 0
                } else {
                    let e = run_end(b, s);
                    &&& r is Some
                    &&& r.unwrap().spec_bytes() == b.subrange(s, e)
                    &&& final(self).remaining() == b.subrange(e, b.len() as int)
                }
            }),
            old(self).names().len() == 0 ==> r is None && final(self).names().len() == 0,
            old(self).names().len() > 0 ==> r is Some && r.unwrap().spec_bytes() == old(
                self,
            ).names()[0] && final(self).names() == old(self).names().drop_first(),
    {
        proof {
            lemma_next_takes_first_component(self.rest.spec_bytes());
            assert(components(Seq::<u8>::empty()).len() == 0);
        }
        let ghost b = self.rest.spec_bytes();
        let mut rest: &'a str = self.rest;
        let ghost mut k: int = 0;
        while rest.as_bytes().len() > 0 && rest.as_bytes()[0] == SEPARATOR
            invariant
                0 <= k <= b.len(),
                rest.spec_bytes() == b.subrange(k, b.len() as int),
                skip_seps(b, 0) == skip_seps(b, k),
            decreases b.len() - k,
        {
            rest = after_separator(rest);
            proof {
                k = k + 1;
            }
        }
        assert(skip_seps(b, k) == k);
        let bytes = rest.as_bytes();
        let n = bytes.len();
        if n == 0 {
            self.rest = rest;
            return None;
        }
        let mut i: usize = 0;
        while i < n && bytes[i] != SEPARATOR
            invariant
                n == bytes@.len(),
                0 <= k <= b.len(),
                k + n == b.len(),
                bytes@ == b.subrange(k, b.len() as int),
                0 <= i <= n,
                run_end(b, k) == run_end(b, k + i),
            decreases n - i,
        {
            i = i + 1;
        }
        assert(run_end(b, k + i) == k + i);
        let (name, tail) = split_at_separator(rest, i);
        assert(name.spec_bytes() =~= b.subrange(k, k + i));
        assert(tail.spec_bytes() =~= b.subrange(k + i, b.len() as int));
        self.rest = tail;
        Some(name)
    }

    /// Take the last remaining file name.
    pub fn next_back(&mut self) -> (r: Option<&'a str>)
        ensures
            ({
                let b = old(self).remaining();
                let e = skip_seps_back(b, b.len() as int);
                if e <= 0 {
                    r is None && final(self).remaining().len() == 0
                } else {
                    let s = run_start(b, e);
                    &&& r is Some
                    &&& r.unwrap().spec_bytes() == b.subrange(s, e)
                    &&& final(self).remaining() == (if s == 0 {
                        Seq::<u8>::empty()
                    } else {
                        b.subrange(0, s - 1)
                    })
                }
            }),
            old(self).names().len() == 0 ==> r is None && final(self).names().len() == 0,
            old(self).names().len() > 0 ==> r is Some && r.unwrap().spec_bytes() == old(
                self,
            ).names().last() && final(self).names() == old(self).names().drop_last(),
    {
        proof {
            lemma_next_back_takes_last_component(self.rest.spec_bytes());
            assert(components(Seq::<u8>::empty()).len() == 0);
        }
        let ghost b = self.rest.spec_bytes();
        let mut rest: &'a str = self.rest;
        let ghost mut j: int = b.len() as int;
        while rest.as_bytes().len() > 0 && rest.as_bytes()[rest.as_bytes().len() - 1] == SEPARATOR
            invariant
                0 <= j <= b.len(),
                rest.spec_bytes() == b.subrange(0, j),
                skip_seps_back(b, b.len() as int) == skip_seps_back(b, j),
            decreases j,
        {
            let n = rest.as_bytes().len();
            let (left, _) = split_at_separator(rest, n - 1);
            rest = left;
            proof {
                j = j - 1;
            }
        }
        assert(skip_seps_back(b, j) == j);
        let bytes = rest.as_bytes();
        let n = bytes.len();
        if n == 0 {
            self.rest = rest;
            return None;
        }
        let mut i: usize = n;
        while i > 0 && bytes[i - 1] != SEPARATOR
            invariant
                n == bytes@.len(),
                0 <= j <= b.len(),
                n == j,
                bytes@ == b.subrange(0, j),
                0 <= i <= n,
                run_start(b, j) == run_start(b, i as int),
            decreases i,
        {
            i = i - 1;
        }
        assert(run_start(b, i as int) == i);
        if i == 0 {
            let (empty, _) = split_at_separator(rest, 0);
            assert(rest.spec_bytes() =~= b.subrange(0, j));
            self.rest = empty;
            return Some(rest);
        }
        let (left, right) = split_at_separator(rest, i - 1);
        let name = after_separator(right);
        assert(name.spec_bytes() =~= b.subrange(i as int, j));
        assert(left.spec_bytes() =~= b.subrange(0, i - 1));
        self.rest = left;
        Some(name)
    }
}

} // verus!

verus! {

/// Scanning forward from `i` stays within `i..=len`, stopping at a
/// separator or the end for a name, and at a non-separator or the end for
/// separators.
pub proof fn lemma_forward_scans(b: Seq<u8>, i: int)
    requires
        0 <= i <= b.len(),
    ensures
        i <= skip_seps(b, i) <= b.len(),
        skip_seps(b, i) < b.len() ==> b[skip_seps(b, i)] != SEPARATOR,
        i <= run_end(b, i) <= b.len(),
        run_end(b, i) < b.len() ==> b[run_end(b, i)] == SEPARATOR,
        forall|k: int| i <= k < run_end(b, i) ==> b[k] != SEPARATOR,
    decreases b.len() - i,
{
    if i < b.len() {
        lemma_forward_scans(b, i + 1);
    }
}

/// The file names of a path with bytes `b`, in order: the maximal runs of
/// bytes without a separator.
pub open spec fn components(b: Seq<u8>) -> Seq<Seq<u8>>
    decreases b.len(),
{
    let s = skip_seps(b, 0);
    if s < 0 || s >= b.len() {
        Seq::empty()
    } else {
        let e = run_end(b, s);
        if e <= s || e > b.len() {
            Seq::empty()
        } else {
            seq![b.subrange(s, e)] + components(b.subrange(e, b.len() as int))
        }
    }
}

/// Taking names from the front gives the path's file names in order: the
/// first name that `next` returns is the first component, and the rest of
/// the components are those of what remains.
pub proof fn lemma_next_takes_first_component(b: Seq<u8>)
    ensures
        skip_seps(b, 0) >= b.len() ==> components(b).len() == 0,
        skip_seps(b, 0) < b.len() ==> components(b) == seq![b.subrange(skip_seps(b, 0), run_end(b, skip_seps(b, 0)))]
            + components(b.subrange(run_end(b, skip_seps(b, 0)), b.len() as int)),
{
    lemma_forward_scans(b, 0);
    let s = skip_seps(b, 0);
    if s < b.len() {
        lemma_forward_scans(b, s);
    }
}

/// Every file name is non-empty and holds no separator.
pub proof fn lemma_components_are_names(b: Seq<u8>)
    ensures
        forall|j: int| 0 <= j < components(b).len() ==> (#[trigger] components(b)[j]).len() > 0
            && !components(b)[j].contains(SEPARATOR),
    decreases b.len(),
{
    lemma_forward_scans(b, 0);
    let s = skip_seps(b, 0);
    if s < b.len() {
        lemma_forward_scans(b, s);
        let e = run_end(b, s);
        let rest = b.subrange(e, b.len() as int);
        lemma_components_are_names(rest);
        let name = b.subrange(s, e);
        assert(!name.contains(SEPARATOR)) by {
            assert forall|k: int| 0 <= k < name.len() implies name[k] != SEPARATOR by {
                assert(name[k] == b[s + k]);
            }
        }
        assert forall|j: int| 0 <= j < components(b).len() implies (#[trigger] components(b)[j]).len() > 0
            && !components(b)[j].contains(SEPARATOR) by {
            if j > 0 {
                assert(components(b)[j] == components(rest)[j - 1]);
            }
        }
    }
}

} // verus!

verus! {

/// Scanning forward inside `b[a..c]` finds what scanning `b` finds, capped
/// at `c`.
proof fn lemma_scan_in_subrange(b: Seq<u8>, a: int, c: int, j: int)
    requires
        0 <= a <= j <= c <= b.len(),
    ensures
        skip_seps(b.subrange(a, c), j - a) + a == (if skip_seps(b, j) <= c {
            skip_seps(b, j)
        } else {
            c
        }),
        run_end(b.subrange(a, c), j - a) + a == (if run_end(b, j) <= c {
            run_end(b, j)
        } else {
            c
        }),
    decreases c - j,
{
    lemma_forward_scans(b, j);
    if j < c {
        lemma_scan_in_subrange(b, a, c, j + 1);
        assert(b.subrange(a, c)[j - a] == b[j]);
    }
}

/// Scanning back from `j` passes only separators (for `skip_seps_back`) or
/// only other bytes (for `run_start`), and stops after one of the other
/// kind or at 0.
proof fn lemma_back_scans(b: Seq<u8>, j: int)
    requires
        0 <= j <= b.len(),
    ensures
        0 <= skip_seps_back(b, j) <= j,
        forall|k: int| skip_seps_back(b, j) <= k < j ==> b[k] == SEPARATOR,
        skip_seps_back(b, j) > 0 ==> b[skip_seps_back(b, j) - 1] != SEPARATOR,
        0 <= run_start(b, j) <= j,
        forall|k: int| run_start(b, j) <= k < j ==> b[k] != SEPARATOR,
        run_start(b, j) > 0 ==> b[run_start(b, j) - 1] == SEPARATOR,
    decreases j,
{
    if j > 0 {
        lemma_back_scans(b, j - 1);
    }
}

/// A path of separators only has no file names.
proof fn lemma_no_components(b: Seq<u8>)
    requires
        forall|k: int| 0 <= k < b.len() ==> b[k] == SEPARATOR,
    ensures
        components(b).len() == 0,
{
    assert(skip_seps(b, 0) >= b.len()) by {
        lemma_forward_scans(b, 0);
    }
}

/// Cutting a path at a separator splits its file names without joining or
/// cutting any of them.
proof fn lemma_components_split(b: Seq<u8>, k: int)
    requires
        0 <= k < b.len(),
        b[k] == SEPARATOR,
    ensures
        components(b) == components(b.subrange(0, k)) + components(b.subrange(k, b.len() as int)),
    decreases b.len(),
{
    let n = b.len() as int;
    lemma_forward_scans(b, 0);
    let s = skip_seps(b, 0);
    let left = b.subrange(0, k);
    let right = b.subrange(k, n);
    lemma_scan_in_subrange(b, 0, k, 0);
    lemma_scan_in_subrange(b, k, n, k);
    if s >= n {
        assert forall|i: int| 0 <= i < left.len() implies left[i] == SEPARATOR by {
            assert(left[i] == b[i]);
            if left[i] != SEPARATOR {
                lemma_skip_stops(b, 0, i);
            }
        }
        lemma_no_components(left);
        assert forall|i: int| 0 <= i < right.len() implies right[i] == SEPARATOR by {
            assert(right[i] == b[k + i]);
            if right[i] != SEPARATOR {
                lemma_skip_stops(b, 0, k + i);
            }
        }
        lemma_no_components(right);
        assert forall|i: int| 0 <= i < b.len() implies b[i] == SEPARATOR by {
            if b[i] != SEPARATOR {
                lemma_skip_stops(b, 0, i);
            }
        }
        lemma_no_components(b);
        assert(components(left) + components(right) =~= components(b));
    } else if s >= k {
        assert forall|i: int| 0 <= i < left.len() implies left[i] == SEPARATOR by {
            assert(left[i] == b[i]);
            if left[i] != SEPARATOR {
                lemma_skip_stops(b, 0, i);
            }
        }
        lemma_no_components(left);
        lemma_forward_scans(b, s);
        let e = run_end(b, s);
        lemma_scan_in_subrange(b, k, n, s);
        assert(skip_seps(right, 0) == s - k) by {
            lemma_skip_from_inside(b, k, s);
        }
        assert(right.subrange(s - k, e - k) =~= b.subrange(s, e));
        assert(right.subrange(e - k, right.len() as int) =~= b.subrange(e, n));
        assert(components(left) + components(right) =~= components(right));
    } else {
        lemma_forward_scans(b, s);
        let e = run_end(b, s);
        assert(e <= k) by {
            if e > k {
                assert(b[k] != SEPARATOR);
            }
        }
        lemma_scan_in_subrange(b, 0, k, s);
        let mid = b.subrange(e, n);
        if e < n {
            lemma_components_split(mid, k - e);
            assert(mid.subrange(0, k - e) =~= b.subrange(e, k));
            assert(mid.subrange(k - e, mid.len() as int) =~= right);
        } else {
            assert(k == e);
        }
        assert(left.subrange(s, e) =~= b.subrange(s, e));
        assert(left.subrange(e, left.len() as int) =~= b.subrange(e, k));
        if e == k {
            assert(b.subrange(e, k) =~= Seq::<u8>::empty());
            assert(components(Seq::<u8>::empty()).len() == 0);
            assert(mid =~= right);
        }
        assert(components(b) =~= components(left) + components(right));
    }
}

/// `skip_seps` from 0 passes every index before where it stops.
proof fn lemma_skip_stops(b: Seq<u8>, i: int, k: int)
    requires
        0 <= i <= k < b.len(),
        b[k] != SEPARATOR,
    ensures
        skip_seps(b, i) <= k,
    decreases k - i,
{
    if i < k && b[i] == SEPARATOR {
        lemma_skip_stops(b, i + 1, k);
    }
}

/// When every byte in `b[j..s)` is a separator and `skip_seps(b, j) == s`,
/// scanning from any point in between also stops at `s`.
proof fn lemma_skip_from_inside(b: Seq<u8>, j: int, s: int)
    requires
        0 <= j <= s <= b.len(),
        skip_seps(b, 0) == s,
    ensures
        skip_seps(b, j) == s,
{
    lemma_skip_prefix(b, 0, j, s);
}

/// Scanning separators from `i` passes `j` on its way to `s`.
proof fn lemma_skip_prefix(b: Seq<u8>, i: int, j: int, s: int)
    requires
        0 <= i <= j <= s <= b.len(),
        skip_seps(b, i) == s,
    ensures
        skip_seps(b, j) == s,
    decreases j - i,
{
    if i < j {
        lemma_forward_scans(b, i);
        assert(b[i] == SEPARATOR) by {
            if b[i] != SEPARATOR {
                assert(skip_seps(b, i) == i);
            }
        }
        lemma_skip_prefix(b, i + 1, j, s);
    }
}

/// Taking a name from the back gives the last file name, and the names
/// before it are those of what remains.
pub proof fn lemma_next_back_takes_last_component(b: Seq<u8>)
    ensures
        ({
            let e = skip_seps_back(b, b.len() as int);
            let s = run_start(b, e);
            let rest = if s == 0 {
                Seq::<u8>::empty()
            } else {
                b.subrange(0, s - 1)
            };
            &&& e <= 0 ==> components(b).len() == 0
            &&& e > 0 ==> components(b) == components(rest) + seq![b.subrange(s, e)]
        }),
{
    let n = b.len() as int;
    lemma_back_scans(b, n);
    let e = skip_seps_back(b, n);
    lemma_back_scans(b, e);
    let s = run_start(b, e);
    if e <= 0 {
        lemma_no_components(b);
    } else {
        let front = b.subrange(0, e);
        if e < n {
            lemma_components_split(b, e);
            let tail = b.subrange(e, n);
            assert forall|i: int| 0 <= i < tail.len() implies tail[i] == SEPARATOR by {
                assert(tail[i] == b[e + i]);
            }
            lemma_no_components(tail);
            assert(components(b) =~= components(front));
        } else {
            assert(front =~= b);
        }
        let name = b.subrange(s, e);
        if s == 0 {
            lemma_forward_scans(front, 0);
            assert(front[0] != SEPARATOR);
            assert(skip_seps(front, 0) == 0);
            lemma_run_to_end(front, 0);
            assert(front.subrange(0, e) =~= name);
            assert(front.subrange(e, e) =~= Seq::<u8>::empty());
            assert(components(Seq::<u8>::empty()).len() == 0);
            assert(components(front) =~= components(Seq::<u8>::empty()) + seq![name]);
        } else {
            lemma_components_split(front, s - 1);
            let last = front.subrange(s - 1, e);
            assert(front.subrange(0, s - 1) =~= b.subrange(0, s - 1));
            assert(last[0] == SEPARATOR);
            assert(last[1] == b[s]);
            assert(skip_seps(last, 1) == 1);
            assert(skip_seps(last, 0) == 1);
            lemma_run_to_end(last, 1);
            assert(last.subrange(1, last.len() as int) =~= name);
            assert(last.subrange(last.len() as int, last.len() as int) =~= Seq::<u8>::empty());
            assert(components(Seq::<u8>::empty()).len() == 0);
            assert(components(last) =~= seq![name]);
        }
    }
}

/// A run from `i` with no separator up to the end ends at the end.
proof fn lemma_run_to_end(b: Seq<u8>, i: int)
    requires
        0 <= i <= b.len(),
        forall|k: int| i <= k < b.len() ==> b[k] != SEPARATOR,
    ensures
        run_end(b, i) == b.len(),
    decreases b.len() - i,
{
    if i < b.len() {
        lemma_run_to_end(b, i + 1);
    }
}

} // verus!

verus! {

/// Taking names from both ends, in either order, leaves the names in
/// between: a `next` then a `next_back` (or the two the other way round)
/// from names `n` leave `n` without its first and last.
pub proof fn lemma_front_and_back(f0: Filenames, f1: Filenames, f2: Filenames, g1: Filenames, g2: Filenames)
    requires
        f0.names().len() >= 2,
        f1.names() == f0.names().drop_first(),
        f2.names() == f1.names().drop_last(),
        g1.names() == f0.names().drop_last(),
        g2.names() == g1.names().drop_first(),
    ensures
        f2.names() == f0.names().subrange(1, f0.names().len() - 1),
        g2.names() == f2.names(),
{
    assert(f2.names() =~= f0.names().subrange(1, f0.names().len() - 1));
    assert(g2.names() =~= f0.names().subrange(1, f0.names().len() - 1));
}

} // verus!

verus! {

/// The part `[lo, hi)` of the names still to be taken after the first `i`
/// calls, `dirs[j]` telling whether call `j` took from the front (`next`)
/// or the back (`next_back`); a call on no names changes nothing.
pub open spec fn span(len: int, dirs: Seq<bool>, i: int) -> (int, int)
    decreases i,
{
    if i <= 0 {
        (0, len)
    } else {
        let (lo, hi) = span(len, dirs, i - 1);
        if lo >= hi {
            (lo, hi)
        } else if dirs[i - 1] {
            (lo + 1, hi)
        } else {
            (lo, hi - 1)
        }
    }
}

/// What one call gives: the first or the last name, or nothing when no
/// names are left; and the names left after it.
pub open spec fn one_call(names: Seq<Seq<u8>>, front: bool, got: Option<Seq<u8>>, left: Seq<Seq<u8>>) -> bool {
    &&& names.len() == 0 ==> got is None && left.len() == 0
    &&& names.len() > 0 && front ==> got == Some(names[0]) && left == names.drop_first()
    &&& names.len() > 0 && !front ==> got == Some(names.last()) && left == names.drop_last()
}

/// Any interleaving of `next` and `next_back`, as their contracts say
/// (`states[i]` the names before call `i`, `dirs[i]` its direction,
/// `got[i]` its result): the names left are always a contiguous part
/// `[lo, hi)` of the first names; `next` returns the name at `lo`,
/// `next_back` the one before `hi`, and both return nothing once the part
/// is empty. So every name is returned exactly once, those from the front
/// in order and those from the back in reverse order; taking from the
/// front only returns the names in order, then nothing.
#[verifier::spinoff_prover]
#[verifier::rlimit(50)]
pub proof fn lemma_interleaved_calls(states: Seq<Seq<Seq<u8>>>, dirs: Seq<bool>, got: Seq<Option<Seq<u8>>>)
    requires
        states.len() == dirs.len() + 1,
        got.len() == dirs.len(),
        forall|i: int| 0 <= i < dirs.len() ==> one_call(#[trigger] states[i], dirs[i], got[i], states[i + 1]),
    ensures
        forall|i: int|
            0 <= i <= dirs.len() ==> {
                let (lo, hi) = #[trigger] span(states[0].len() as int, dirs, i);
                &&& 0 <= lo <= hi <= states[0].len()
                &&& states[i] == states[0].subrange(lo, hi)
            },
        forall|i: int|
            0 <= i < dirs.len() ==> {
                let (lo, hi) = #[trigger] span(states[0].len() as int, dirs, i);
                &&& lo >= hi ==> got[i] is None
                &&& lo < hi && dirs[i] ==> got[i] == Some(states[0][lo])
                &&& lo < hi && !dirs[i] ==> got[i] == Some(states[0][hi - 1])
            },
    decreases dirs.len(),
{
    let n0 = states[0];
    let len = n0.len() as int;
    if dirs.len() > 0 {
        let k = dirs.len() - 1;
        let states2 = states.drop_last();
        let dirs2 = dirs.drop_last();
        let got2 = got.drop_last();
        assert forall|i: int| 0 <= i < dirs2.len() implies one_call(
            #[trigger] states2[i],
            dirs2[i],
            got2[i],
            states2[i + 1],
        ) by {
            assert(one_call(states[i], dirs[i], got[i], states[i + 1]));
        }
        lemma_interleaved_calls(states2, dirs2, got2);
        assert forall|i: int| 0 <= i <= k implies #[trigger] span(len, dirs, i) == span(len, dirs2, i) by {
            lemma_span_prefix(len, dirs, dirs2, i);
        }
        assert(states2[0] == n0);
        assert(span(len, dirs2, k) == span(len, dirs, k));
        let (lo, hi) = span(len, dirs, k);
        assert(0 <= lo <= hi <= len && states2[k] == n0.subrange(lo, hi));
        assert(states[k] == n0.subrange(lo, hi)) by {
            assert(states2[k] == states[k]);
        }
        assert(one_call(states[k], dirs[k], got[k], states[k + 1]));
        if lo < hi {
            if dirs[k] {
                assert(states[k + 1] =~= n0.subrange(lo + 1, hi));
            } else {
                assert(states[k + 1] =~= n0.subrange(lo, hi - 1));
            }
        } else {
            assert(states[k + 1] =~= n0.subrange(lo, hi));
        }
        assert forall|i: int| 0 <= i <= dirs.len() implies {
            let (lo, hi) = #[trigger] span(len, dirs, i);
            &&& 0 <= lo <= hi <= len
            &&& states[i] == n0.subrange(lo, hi)
        } by {
            if i <= k {
                assert(span(len, dirs, i) == span(len, dirs2, i));
                assert(states[i] == states2[i]);
            }
        }
        assert forall|i: int| 0 <= i < dirs.len() implies {
            let (lo, hi) = #[trigger] span(len, dirs, i);
            &&& lo >= hi ==> got[i] is None
            &&& lo < hi && dirs[i] ==> got[i] == Some(n0[lo])
            &&& lo < hi && !dirs[i] ==> got[i] == Some(n0[hi - 1])
        } by {
            if i < k {
                assert(span(len, dirs, i) == span(len, dirs2, i));
                assert(got[i] == got2[i] && dirs[i] == dirs2[i]);
            }
        }
    } else {
        assert(states[0] =~= n0.subrange(0, len));
    }
}

/// The part left after `i` calls depends only on the first `i` directions.
proof fn lemma_span_prefix(len: int, dirs: Seq<bool>, pre: Seq<bool>, i: int)
    requires
        0 <= i <= pre.len() <= dirs.len(),
        forall|j: int| 0 <= j < pre.len() ==> pre[j] == dirs[j],
    ensures
        span(len, dirs, i) == span(len, pre, i),
    decreases i,
{
    if i > 0 {
        lemma_span_prefix(len, dirs, pre, i - 1);
    }
}

} // verus!
