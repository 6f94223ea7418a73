//! Hash map with linear probing.
//!
//! Buckets are empty, occupied, or deleted (tombstones). A key lives in
//! the first bucket of its probe sequence, starting at its FNV-1a hash
//! modulo the capacity, that was free when it was inserted; a lookup
//! follows the same sequence until it finds the key or an empty bucket.
use vstd::prelude::*;

use crate::maps::{BpfMap, MapDef, MapError, MapResult, MapType};
use crate::profile::memory::MemoryStrategy;
use crate::profile::{CloudProfile, PhysicalProfile};
use core::marker::PhantomData;

verus! {

/// State of a bucket.
#[derive(Debug, Clone, Copy, PartialEq, Eq, Structural)]
enum BucketState {
    /// Never used since the map was created
    Empty,
    /// Holds an entry
    Occupied,
    /// Held an entry that was deleted (tombstone)
    Deleted,
}

/// A bucket: its state, key bytes and value bytes.
struct Bucket {
    state: BucketState,
    key: Vec<u8>,
    value: Vec<u8>,
}

/// FNV-1a hash of `key`.
pub open spec fn fnv1a(key: Seq<u8>) -> u64
    decreases key.len(),
{
    if key.len() == 0 {
        0xcbf29ce484222325u64
    } else {
        (fnv1a(key.drop_last()) ^ (key.last() as u64)).wrapping_mul(0x100000001b3u64)
    }
}

/// Position `j` of the probe sequence that starts at `s` in `cap` buckets.
pub open spec fn probe(s: int, j: int, cap: int) -> int {
    if s + j < cap {
        s + j
    } else {
        s + j - cap
    }
}

/// How far bucket `i` lies along the probe sequence that starts at `s`.
pub open spec fn dist(s: int, i: int, cap: int) -> int {
    if i >= s {
        i - s
    } else {
        i + cap - s
    }
}

/// A copy of `bytes`.
fn copy_bytes(bytes: &[u8]) -> (r: Vec<u8>)
    ensures
        r@ == bytes@,
{
    let mut v: Vec<u8> = Vec::new();
    let mut i: usize = 0;
    while i < bytes.len()
        invariant
            i <= bytes@.len(),
            v@ == bytes@.subrange(0, i as int),
        decreases bytes@.len() - i,
    {
        v.push(bytes[i]);
        i = i + 1;
    }
    v
}

/// Whether two byte strings are equal.
fn bytes_eq(a: &[u8], b: &[u8]) -> (r: bool)
    ensures
        r == (a@ == b@),
{
    if a.len() != b.len() {
        return false;
    }
    let mut i: usize = 0;
    while i < a.len()
        invariant
            i <= a@.len(),
            a@.len() == b@.len(),
            forall|k: int| 0 <= k < i ==> a@[k] == b@[k],
        decreases a@.len() - i,
    {
        if a[i] != b[i] {
            return false;
        }
        i = i + 1;
    }
    assert(a@ =~= b@);
    true
}

/// The buckets of a hash map and what they hold.
struct HashStorage {
    buckets: Vec<Bucket>,
    key_size: usize,
    value_size: usize,
    count: usize,
    capacity: usize,
    contents: Ghost<Map<Seq<u8>, Seq<u8>>>,
}

impl HashStorage {
    /// The entries.
    spec fn view(&self) -> Map<Seq<u8>, Seq<u8>> {
        self.contents@
    }

    spec fn spec_key_size(&self) -> usize {
        self.key_size
    }

    spec fn spec_value_size(&self) -> usize {
        self.value_size
    }

    spec fn spec_capacity(&self) -> usize {
        self.capacity
    }

    spec fn spec_count(&self) -> usize {
        self.count
    }

    spec fn occupied(&self, i: int) -> bool {
        self.buckets@[i].state is Occupied
    }

    spec fn bkey(&self, i: int) -> Seq<u8> {
        self.buckets@[i].key@
    }

    spec fn bvalue(&self, i: int) -> Seq<u8> {
        self.buckets@[i].value@
    }

    /// Where the probe sequence of `key` starts.
    spec fn start(&self, key: Seq<u8>) -> int {
        (fnv1a(key) as usize % self.capacity) as int
    }

    /// Every bucket before `i` on the probe sequence of its key is in use
    /// or a tombstone.
    spec fn reachable(&self, i: int) -> bool {
        let s = self.start(self.bkey(i));
        forall|j: int|
            0 <= j < dist(s, i, self.capacity as int) ==> !(#[trigger] self.buckets@[probe(
                s,
                j,
                self.capacity as int,
            )].state is Empty)
    }

    /// The storage's invariant: sizes, distinct keys, the ghost contents
    /// matching the occupied buckets, every entry reachable by probing, and
    /// the count of entries.
    spec fn wf(&self) -> bool {
        &&& 0 < self.capacity
        &&& self.buckets@.len() == self.capacity
        &&& forall|i: int|
            0 <= i < self.capacity ==> (#[trigger] self.buckets@[i]).key@.len() == self.key_size
                && self.buckets@[i].value@.len() == self.value_size
        &&& forall|i: int, j: int|
            0 <= i < self.capacity && 0 <= j < self.capacity && #[trigger] self.occupied(i)
                && #[trigger] self.occupied(j) && self.bkey(i) == self.bkey(j) ==> i == j
        &&& forall|i: int|
            0 <= i < self.capacity && #[trigger] self.occupied(i) ==> self.contents@.contains_key(
                self.bkey(i),
            ) && self.contents@[self.bkey(i)] == self.bvalue(i) && self.reachable(i)
        &&& forall|k: Seq<u8>|
            #[trigger] self.contents@.contains_key(k) ==> exists|i: int|
                0 <= i < self.capacity && self.occupied(i) && self.bkey(i) == k
        &&& self.contents@.dom().finite()
        &&& self.count == self.contents@.len()
        &&& self.count <= self.capacity
    }
}

} // verus!

verus! {

/// The successor of a bucket index, wrapping to zero.
proof fn lemma_mod_step(x: int, cap: int)
    requires
        0 <= x < cap,
    ensures
        (x + 1) % cap == (if x + 1 == cap {
            0
        } else {
            x + 1
        }),
{
    if x + 1 < cap {
        vstd::arithmetic::div_mod::lemma_small_mod((x + 1) as nat, cap as nat);
    } else {
        vstd::arithmetic::div_mod::lemma_mod_self_0(cap);
    }
}

/// Moving one step along a probe sequence.
proof fn lemma_probe_next(s: int, j: int, cap: int)
    requires
        0 <= s < cap,
        0 <= j < cap - 1,
    ensures
        probe(s, j + 1, cap) == (if probe(s, j, cap) + 1 == cap {
            0
        } else {
            probe(s, j, cap) + 1
        }),
{
}

/// A bucket lies at its distance along any probe sequence.
proof fn lemma_probe_dist(s: int, i: int, cap: int)
    requires
        0 <= s < cap,
        0 <= i < cap,
    ensures
        0 <= dist(s, i, cap) < cap,
        probe(s, dist(s, i, cap), cap) == i,
        forall|j: int| 0 <= j < cap && #[trigger] probe(s, j, cap) == i ==> j == dist(s, i, cap),
{
}

impl Bucket {
    /// An empty bucket with zeroed key and value.
    fn empty(key_size: usize, value_size: usize) -> (r: Self)
        ensures
            r.state is Empty,
            r.key@.len() == key_size,
            r.value@.len() == value_size,
    {
        let mut key: Vec<u8> = Vec::new();
        let mut i: usize = 0;
        while i < key_size
            invariant
                i <= key_size,
                key@.len() == i,
            decreases key_size - i,
        {
            key.push(0u8);
            i = i + 1;
        }
        let mut value: Vec<u8> = Vec::new();
        let mut j: usize = 0;
        while j < value_size
            invariant
                j <= value_size,
                value@.len() == j,
            decreases value_size - j,
        {
            value.push(0u8);
            j = j + 1;
        }
        Bucket { state: BucketState::Empty, key, value }
    }

    fn is_empty(&self) -> (r: bool)
        ensures
            r == (self.state is Empty),
    {
        self.state == BucketState::Empty
    }

    fn is_occupied(&self) -> (r: bool)
        ensures
            r == (self.state is Occupied),
    {
        self.state == BucketState::Occupied
    }

    fn is_deleted(&self) -> (r: bool)
        ensures
            r == (self.state is Deleted),
    {
        self.state == BucketState::Deleted
    }

    fn is_available(&self) -> (r: bool)
        ensures
            r == !(self.state is Occupied),
    {
        self.state != BucketState::Occupied
    }
}

impl HashStorage {
    /// Storage of `capacity` empty buckets.
    fn new(key_size: usize, value_size: usize, capacity: usize) -> (r: Self)
        requires
            capacity > 0,
        ensures
            r.wf(),
            r@ == Map::<Seq<u8>, Seq<u8>>::empty(),
            r.spec_key_size() == key_size,
            r.spec_value_size() == value_size,
            r.spec_capacity() == capacity,
            r.spec_count() == 0,
    {
        let mut buckets: Vec<Bucket> = Vec::new();
        let mut i: usize = 0;
        while i < capacity
            invariant
                i <= capacity,
                buckets@.len() == i,
                forall|k: int|
                    0 <= k < i ==> (#[trigger] buckets@[k]).state is Empty && buckets@[k].key@.len()
                        == key_size && buckets@[k].value@.len() == value_size,
            decreases capacity - i,
        {
            buckets.push(Bucket::empty(key_size, value_size));
            i = i + 1;
        }
        HashStorage {
            buckets,
            key_size,
            value_size,
            count: 0,
            capacity,
            contents: Ghost(Map::empty()),
        }
    }

    /// FNV-1a hash of `key`.
    fn hash(&self, key: &[u8]) -> (r: usize)
        ensures
            r == fnv1a(key@) as usize,
    {
        let mut hash: u64 = 0xcbf29ce484222325;
        let mut i: usize = 0;
        while i < key.len()
            invariant
                i <= key@.len(),
                hash == fnv1a(key@.subrange(0, i as int)),
            decreases key@.len() - i,
        {
            assert(key@.subrange(0, i + 1).drop_last() =~= key@.subrange(0, i as int));
            hash = hash ^ (key[i] as u64);
            hash = hash.wrapping_mul(0x100000001b3);
            i = i + 1;
        }
        assert(key@.subrange(0, key@.len() as int) =~= key@);
        hash as usize
    }

    /// Along the probe sequence from `s`, the first `n` buckets are in use
    /// or tombstones.
    #[verifier::opaque]
    spec fn nonempty_prefix(&self, s: int, n: int) -> bool {
        forall|j: int|
            0 <= j < n ==> !(#[trigger] self.buckets@[probe(s, j, self.capacity as int)].state is Empty)
    }

    /// Along the probe sequence from `s`, none of the first `n` buckets
    /// holds `key`.
    #[verifier::opaque]
    spec fn keyless_prefix(&self, s: int, n: int, key: Seq<u8>) -> bool {
        forall|j: int|
            0 <= j < n ==> !(self.occupied(probe(s, j, self.capacity as int)) && self.bkey(
                #[trigger] probe(s, j, self.capacity as int),
            ) == key)
    }

    /// Along the probe sequence from `s`, none of the first `n` buckets is
    /// a tombstone.
    #[verifier::opaque]
    spec fn undeleted_prefix(&self, s: int, n: int) -> bool {
        forall|j: int|
            0 <= j < n ==> !(#[trigger] self.buckets@[probe(s, j, self.capacity as int)].state is Deleted)
    }

    /// Extending the prefixes by the bucket at position `n`.
    proof fn lemma_prefix_step(&self, s: int, n: int, key: Seq<u8>)
        requires
            0 <= s < self.capacity,
            0 <= n < self.capacity,
            self.buckets@.len() == self.capacity,
        ensures
            self.nonempty_prefix(s, n) && !(self.buckets@[probe(s, n, self.capacity as int)].state is Empty)
                ==> self.nonempty_prefix(s, n + 1),
            self.keyless_prefix(s, n, key) && !(self.occupied(probe(s, n, self.capacity as int))
                && self.bkey(probe(s, n, self.capacity as int)) == key) ==> self.keyless_prefix(
                s,
                n + 1,
                key,
            ),
            self.undeleted_prefix(s, n) && !(self.buckets@[probe(s, n, self.capacity as int)].state is Deleted)
                ==> self.undeleted_prefix(s, n + 1),
            self.nonempty_prefix(s, n + 1) ==> self.nonempty_prefix(s, n),
    {
        reveal(HashStorage::nonempty_prefix);
        reveal(HashStorage::keyless_prefix);
        reveal(HashStorage::undeleted_prefix);
    }

    /// The empty prefixes.
    proof fn lemma_prefix_empty(&self, s: int, key: Seq<u8>)
        ensures
            self.nonempty_prefix(s, 0),
            self.keyless_prefix(s, 0, key),
            self.undeleted_prefix(s, 0),
    {
        reveal(HashStorage::nonempty_prefix);
        reveal(HashStorage::keyless_prefix);
        reveal(HashStorage::undeleted_prefix);
    }

    /// An occupied bucket's key is present.
    proof fn lemma_found(&self, i: int)
        requires
            self.wf(),
            0 <= i < self.capacity,
            self.occupied(i),
        ensures
            self@.contains_key(self.bkey(i)),
    {
    }

    /// When the whole probe sequence is in use and has no tombstone,
    /// every bucket is occupied.
    proof fn lemma_all_occupied(&self, s: int)
        requires
            self.wf(),
            0 <= s < self.capacity,
            self.nonempty_prefix(s, self.capacity as int),
            self.undeleted_prefix(s, self.capacity as int),
        ensures
            forall|i: int| 0 <= i < self.capacity ==> #[trigger] self.occupied(i),
    {
        reveal(HashStorage::nonempty_prefix);
        reveal(HashStorage::undeleted_prefix);
        assert forall|i: int| 0 <= i < self.capacity implies #[trigger] self.occupied(i) by {
            lemma_probe_dist(s, i, self.capacity as int);
            let jj = dist(s, i, self.capacity as int);
            assert(!(self.buckets@[probe(s, jj, self.capacity as int)].state is Empty));
            assert(!(self.buckets@[probe(s, jj, self.capacity as int)].state is Deleted));
        }
    }

    /// A key whose probe sequence meets no bucket holding it before an
    /// empty one (or before its end) is not present.
    proof fn lemma_absent(&self, key: Seq<u8>, s: int, j: int)
        requires
            self.wf(),
            s == self.start(key),
            0 <= j <= self.capacity,
            self.nonempty_prefix(s, j),
            self.keyless_prefix(s, j, key),
            j < self.capacity ==> self.buckets@[probe(s, j, self.capacity as int)].state is Empty,
        ensures
            !self@.contains_key(key),
    {
        reveal(HashStorage::nonempty_prefix);
        reveal(HashStorage::keyless_prefix);
        let cap = self.capacity as int;
        if self@.contains_key(key) {
            let i = choose|i: int| 0 <= i < cap && self.occupied(i) && self.bkey(i) == key;
            assert(self.reachable(i));
            lemma_probe_dist(s, i, cap);
            let d = dist(s, i, cap);
            if d < j {
                assert(!(self.occupied(probe(s, d, cap)) && self.bkey(probe(s, d, cap)) == key));
            } else if d == j {
                assert(self.buckets@[probe(s, j, cap)].state is Empty);
            } else {
                assert(!(self.buckets@[probe(s, j, cap)].state is Empty));
            }
        }
    }

    /// The bucket for `key`: where it is, if it is present, else where it
    /// goes (the first tombstone or, failing one, the first empty bucket
    /// on its probe sequence; the start of the sequence when every bucket
    /// is occupied).
    fn find_bucket(&self, key: &[u8]) -> (r: (usize, bool))
        requires
            self.wf(),
        ensures
            r.0 < self.capacity,
            r.1 == self@.contains_key(key@),
            r.1 ==> self.occupied(r.0 as int) && self.bkey(r.0 as int) == key@,
            !r.1 ==> (forall|i: int| 0 <= i < self.capacity ==> #[trigger] self.occupied(i)) || (
            !self.occupied(r.0 as int) && self.nonempty_prefix(
                self.start(key@),
                dist(self.start(key@), r.0 as int, self.capacity as int),
            )),
    {
        let cap = self.capacity;
        let start = self.hash(key) % cap;
        let ghost s = start as int;
        let mut idx = start;
        let mut first_deleted: Option<usize> = None;
        let ghost mut j: int = 0;
        proof {
            self.lemma_prefix_empty(s, key@);
        }
        loop
            invariant
                self.wf(),
                cap == self.capacity,
                self.buckets@.len() == cap,
                s == self.start(key@),
                s == start as int,
                0 <= s < cap,
                0 <= j < cap,
                idx == probe(s, j, cap as int),
                self.nonempty_prefix(s, j),
                self.keyless_prefix(s, j, key@),
                first_deleted matches Some(d) ==> d < cap && self.buckets@[d as int].state is Deleted
                    && dist(s, d as int, cap as int) < j && self.nonempty_prefix(
                    s,
                    dist(s, d as int, cap as int),
                ),
                first_deleted is None ==> self.undeleted_prefix(s, j),
            decreases cap - j,
        {
            let bucket = &self.buckets[idx];
            if bucket.is_empty() {
                proof {
                    self.lemma_absent(key@, s, j);
                    lemma_probe_dist(s, idx as int, cap as int);
                }
                let insert_idx = match first_deleted {
                    Some(d) => d,
                    None => idx,
                };
                return (insert_idx, false);
            }
            if bucket.is_deleted() {
                if first_deleted.is_none() {
                    proof {
                        lemma_probe_dist(s, idx as int, cap as int);
                    }
                    first_deleted = Some(idx);
                }
            } else if bytes_eq(bucket.key.as_slice(), key) {
                proof {
                    self.lemma_found(idx as int);
                }
                return (idx, true);
            }
            proof {
                self.lemma_prefix_step(s, j, key@);
                match first_deleted {
                    Some(d) => {
                        lemma_probe_dist(s, d as int, cap as int);
                    },
                    None => {},
                }
                if j + 1 == cap as int {
                    self.lemma_absent(key@, s, j + 1);
                }
                lemma_mod_step(idx as int, cap as int);
            }
            let ghost cur = idx as int;
            idx = (idx + 1) % cap;
            proof {
                if j + 1 < cap {
                    lemma_probe_next(s, j, cap as int);
                    assert(probe(s, j + 1, cap as int) != s);
                } else {
                    assert(idx == (cur + 1) % (cap as int));
                    assert(cur == probe(s, j, cap as int));
                    assert(j == cap - 1);
                    lemma_mod_step(cur, cap as int);
                    if s == 0 {
                        assert(cur == cap - 1);
                    } else {
                        assert(cur == s - 1);
                    }
                    assert(idx == start);
                }
            }
            if idx == start {
                let insert_idx = match first_deleted {
                    Some(d) => d,
                    None => idx,
                };
                proof {
                    if first_deleted is None {
                        self.lemma_all_occupied(s);
                    }
                }
                return (insert_idx, false);
            }
            proof {
                j = j + 1;
            }
        }
    }
}

} // verus!

verus! {

impl HashStorage {
    /// Storage in which every bucket is occupied holds `capacity` entries.
    proof fn lemma_full(&self)
        requires
            self.wf(),
            forall|i: int| 0 <= i < self.capacity ==> #[trigger] self.occupied(i),
        ensures
            self.count >= self.capacity,
    {
        let range = vstd::set_lib::set_int_range(0, self.capacity as int);
        vstd::set_lib::lemma_int_range(0, self.capacity as int);
        let f = |i: int| self.bkey(i);
        let keys = range.map(f);
        assert(vstd::relations::injective_on(f, range)) by {
            assert forall|a: int, b: int|
                range.contains(a) && range.contains(b) && #[trigger] f(a) == #[trigger] f(b) implies a
                == b by {
                assert(self.occupied(a) && self.occupied(b));
            }
        }
        vstd::set_lib::lemma_map_size(range, keys, f);
        assert(keys.subset_of(self.contents@.dom())) by {
            assert forall|k: Seq<u8>| keys.contains(k) implies self.contents@.dom().contains(k) by {
                let i = choose|i: int| range.contains(i) && f(i) == k;
                assert(self.occupied(i));
            }
        }
        vstd::set_lib::lemma_len_subset(keys, self.contents@.dom());
    }

    /// `after` is `before` with an occupied bucket holding `key` and
    /// `value` written at `idx`, and the entry stored.
    spec fn stored(before: HashStorage, after: HashStorage, idx: int, key: Seq<u8>, value: Seq<u8>) -> bool {
        &&& before.wf()
        &&& 0 <= idx < before.capacity
        &&& key.len() == before.key_size
        &&& value.len() == before.value_size
        &&& before.contents@.contains_key(key) ==> before.occupied(idx) && before.bkey(idx) == key
        &&& !before.contents@.contains_key(key) ==> !before.occupied(idx) && before.nonempty_prefix(
            before.start(key),
            dist(before.start(key), idx, before.capacity as int),
        ) && before.count < before.capacity
        &&& after.capacity == before.capacity
        &&& after.key_size == before.key_size
        &&& after.value_size == before.value_size
        &&& after.buckets@.len() == before.buckets@.len()
        &&& after.buckets@[idx].state is Occupied
        &&& after.buckets@[idx].key@ == key
        &&& after.buckets@[idx].value@ == value
        &&& forall|i: int|
            0 <= i < before.capacity && i != idx ==> #[trigger] after.buckets@[i] == before.buckets@[i]
        &&& after.contents@ == before.contents@.insert(key, value)
        &&& after.count == (if before.contents@.contains_key(key) {
            before.count
        } else {
            (before.count + 1) as usize
        })
    }

    proof fn lemma_store_shape(before: HashStorage, after: HashStorage, idx: int, key: Seq<u8>, value: Seq<u8>)
        requires
            HashStorage::stored(before, after, idx, key, value),
        ensures
            forall|i: int|
                0 <= i < after.capacity ==> (#[trigger] after.buckets@[i]).key@.len() == after.key_size
                    && after.buckets@[i].value@.len() == after.value_size,
            forall|i: int, j: int|
                0 <= i < after.capacity && 0 <= j < after.capacity && #[trigger] after.occupied(i)
                    && #[trigger] after.occupied(j) && after.bkey(i) == after.bkey(j) ==> i == j,
    {
        let cap = before.capacity as int;
        assert forall|i: int| 0 <= i < cap implies (#[trigger] after.buckets@[i]).key@.len()
            == after.key_size && after.buckets@[i].value@.len() == after.value_size by {
            if i != idx {
                assert(after.buckets@[i] == before.buckets@[i]);
            }
        }
        assert forall|i: int, j: int|
            0 <= i < cap && 0 <= j < cap && #[trigger] after.occupied(i) && #[trigger] after.occupied(j)
                && after.bkey(i) == after.bkey(j) implies i == j by {
            if i != idx {
                assert(after.buckets@[i] == before.buckets@[i]);
                assert(before.occupied(i));
            }
            if j != idx {
                assert(after.buckets@[j] == before.buckets@[j]);
                assert(before.occupied(j));
            }
        }
    }

    proof fn lemma_store_entries(before: HashStorage, after: HashStorage, idx: int, key: Seq<u8>, value: Seq<u8>)
        requires
            HashStorage::stored(before, after, idx, key, value),
        ensures
            forall|i: int|
                0 <= i < after.capacity && #[trigger] after.occupied(i) ==> after.contents@.contains_key(
                    after.bkey(i),
                ) && after.contents@[after.bkey(i)] == after.bvalue(i) && after.reachable(i),
    {
        reveal(HashStorage::nonempty_prefix);
        let cap = before.capacity as int;
        assert forall|i: int| 0 <= i < cap && #[trigger] after.occupied(i) implies after.contents@.contains_key(
            after.bkey(i),
        ) && after.contents@[after.bkey(i)] == after.bvalue(i) && after.reachable(i) by {
            let s = after.start(after.bkey(i));
            if i != idx {
                assert(after.buckets@[i] == before.buckets@[i]);
                assert(before.occupied(i));
                assert(before.reachable(i));
                assert(before.bkey(i) != key);
            }
            assert forall|j: int| 0 <= j < dist(s, i, cap) implies !(#[trigger] after.buckets@[probe(
                s,
                j,
                cap,
            )].state is Empty) by {
                let p = probe(s, j, cap);
                if p != idx {
                    assert(after.buckets@[p] == before.buckets@[p]);
                    if i != idx {
                        assert(before.reachable(i));
                    }
                }
            }
        }
    }

    proof fn lemma_store_keys(before: HashStorage, after: HashStorage, idx: int, key: Seq<u8>, value: Seq<u8>)
        requires
            HashStorage::stored(before, after, idx, key, value),
        ensures
            forall|k: Seq<u8>|
                #[trigger] after.contents@.contains_key(k) ==> exists|i: int|
                    0 <= i < after.capacity && after.occupied(i) && after.bkey(i) == k,
    {
        let cap = before.capacity as int;
        assert forall|k: Seq<u8>| #[trigger] after.contents@.contains_key(k) implies exists|i: int|
            0 <= i < cap && after.occupied(i) && after.bkey(i) == k by {
            if k == key {
                assert(after.occupied(idx) && after.bkey(idx) == k);
            } else {
                assert(before.contents@.contains_key(k));
                let i = choose|i: int| 0 <= i < cap && before.occupied(i) && before.bkey(i) == k;
                if i == idx {
                    assert(before.contents@.contains_key(key));
                }
                assert(after.buckets@[i] == before.buckets@[i]);
                assert(after.occupied(i) && after.bkey(i) == k);
            }
        }
    }

    /// Writing an occupied bucket with `key` and `value` at `idx`, where
    /// `key` is reachable, keeps the storage well formed.
    proof fn lemma_store(before: HashStorage, after: HashStorage, idx: int, key: Seq<u8>, value: Seq<u8>)
        requires
            HashStorage::stored(before, after, idx, key, value),
        ensures
            after.wf(),
    {
        HashStorage::lemma_store_shape(before, after, idx, key, value);
        HashStorage::lemma_store_entries(before, after, idx, key, value);
        HashStorage::lemma_store_keys(before, after, idx, key, value);
    }

    /// The value stored under `key`, if any.
    fn lookup(&self, key: &[u8]) -> (r: Option<&[u8]>)
        requires
            self.wf(),
        ensures
            key@.len() != self.key_size ==> r is None,
            key@.len() == self.key_size ==> (match r {
                Some(v) => self@.contains_key(key@) && v@ == self@[key@],
                None => !self@.contains_key(key@),
            }),
    {
        if key.len() != self.key_size {
            return None;
        }
        let (idx, found) = self.find_bucket(key);
        if found {
            Some(self.buckets[idx].value.as_slice())
        } else {
            None
        }
    }

    /// Store `value` under `key`: with flag 1 only when the key is absent,
    /// with flag 2 only when it is present, and a new key only when the map
    /// has room.
    fn update(&mut self, key: &[u8], value: &[u8], flags: u64) -> (r: MapResult<()>)
        requires
            old(self).wf(),
        ensures
            final(self).wf(),
            r == update_outcome(
                old(self)@,
                old(self).capacity as nat,
                old(self).key_size,
                old(self).value_size,
                key@,
                value@,
                flags,
            ),
            r is Ok ==> final(self)@ == old(self)@.insert(key@, value@),
            r is Err ==> final(self)@ == old(self)@,
            final(self).spec_key_size() == old(self).spec_key_size(),
            final(self).spec_value_size() == old(self).spec_value_size(),
            final(self).spec_capacity() == old(self).spec_capacity(),
    {
        if key.len() != self.key_size {
            return Err(MapError::InvalidKey);
        }
        if value.len() != self.value_size {
            return Err(MapError::InvalidValue);
        }
        let (idx, found) = self.find_bucket(key);
        if flags == 1 && found {
            return Err(MapError::KeyExists);
        }
        if flags == 2 && !found {
            return Err(MapError::KeyNotFound);
        }
        if !found {
            if self.count >= self.capacity {
                return Err(MapError::MapFull);
            }
            proof {
                if forall|i: int| 0 <= i < self.capacity ==> #[trigger] self.occupied(i) {
                    self.lemma_full();
                }
            }
            self.count = self.count + 1;
        }
        let ghost before = *old(self);
        self.buckets.set(
            idx,
            Bucket { state: BucketState::Occupied, key: copy_bytes(key), value: copy_bytes(value) },
        );
        self.contents = Ghost(self.contents@.insert(key@, value@));
        proof {
            assert forall|i: int| 0 <= i < before.capacity && i != idx implies #[trigger] self.buckets@[i]
                == before.buckets@[i] by {}
            assert(HashStorage::stored(before, *self, idx as int, key@, value@));
            HashStorage::lemma_store(before, *self, idx as int, key@, value@);
        }
        Ok(())
    }

    /// Remove `key`, leaving a tombstone in its bucket.
    fn delete(&mut self, key: &[u8]) -> (r: MapResult<()>)
        requires
            old(self).wf(),
        ensures
            final(self).wf(),
            key@.len() != old(self).key_size ==> r == Err::<(), MapError>(MapError::InvalidKey),
            key@.len() == old(self).key_size && !old(self)@.contains_key(key@) ==> r == Err::<
                (),
                MapError,
            >(MapError::KeyNotFound),
            key@.len() == old(self).key_size && old(self)@.contains_key(key@) ==> r is Ok,
            r is Ok ==> final(self)@ == old(self)@.remove(key@),
            r is Err ==> final(self)@ == old(self)@,
            final(self).spec_key_size() == old(self).spec_key_size(),
            final(self).spec_value_size() == old(self).spec_value_size(),
            final(self).spec_capacity() == old(self).spec_capacity(),
    {
        if key.len() != self.key_size {
            return Err(MapError::InvalidKey);
        }
        let (idx, found) = self.find_bucket(key);
        if !found {
            return Err(MapError::KeyNotFound);
        }
        let ghost before = *old(self);
        let old_key = copy_bytes(self.buckets[idx].key.as_slice());
        let old_value = copy_bytes(self.buckets[idx].value.as_slice());
        self.buckets.set(idx, Bucket { state: BucketState::Deleted, key: old_key, value: old_value });
        self.count = self.count - 1;
        self.contents = Ghost(self.contents@.remove(key@));
        proof {
            HashStorage::lemma_remove(before, *self, idx as int, key@);
        }
        Ok(())
    }

    /// Turning the occupied bucket of `key` into a tombstone removes the entry.
    proof fn lemma_remove(before: HashStorage, after: HashStorage, idx: int, key: Seq<u8>)
        requires
            before.wf(),
            0 <= idx < before.capacity,
            before.occupied(idx),
            before.bkey(idx) == key,
            after.capacity == before.capacity,
            after.key_size == before.key_size,
            after.value_size == before.value_size,
            after.buckets@.len() == before.buckets@.len(),
            after.buckets@[idx].state is Deleted,
            after.buckets@[idx].key@ == before.buckets@[idx].key@,
            after.buckets@[idx].value@ == before.buckets@[idx].value@,
            forall|i: int| 0 <= i < before.capacity && i != idx ==> after.buckets@[i] == before.buckets@[i],
            after.contents@ == before.contents@.remove(key),
            after.count == before.count - 1,
        ensures
            after.wf(),
    {
        let cap = before.capacity as int;
        assert(before.contents@.contains_key(key));
        assert forall|i: int| 0 <= i < cap implies (#[trigger] after.buckets@[i]).key@.len()
            == after.key_size && after.buckets@[i].value@.len() == after.value_size by {
            if i != idx {
                assert(after.buckets@[i] == before.buckets@[i]);
            }
        }
        assert forall|i: int, j: int|
            0 <= i < cap && 0 <= j < cap && #[trigger] after.occupied(i) && #[trigger] after.occupied(j)
                && after.bkey(i) == after.bkey(j) implies i == j by {
            assert(after.buckets@[i] == before.buckets@[i]);
            assert(after.buckets@[j] == before.buckets@[j]);
            assert(before.occupied(i) && before.occupied(j));
        }
        assert forall|i: int| 0 <= i < cap && #[trigger] after.occupied(i) implies after.contents@.contains_key(
            after.bkey(i),
        ) && after.contents@[after.bkey(i)] == after.bvalue(i) && after.reachable(i) by {
            assert(after.buckets@[i] == before.buckets@[i]);
            assert(before.occupied(i));
            assert(before.reachable(i));
            assert(before.bkey(i) != key);
            let s = after.start(after.bkey(i));
            assert forall|j: int| 0 <= j < dist(s, i, cap) implies !(#[trigger] after.buckets@[probe(
                s,
                j,
                cap,
            )].state is Empty) by {
                let p = probe(s, j, cap);
                if p != idx {
                    assert(after.buckets@[p] == before.buckets@[p]);
                }
            }
        }
        assert forall|k: Seq<u8>| #[trigger] after.contents@.contains_key(k) implies exists|i: int|
            0 <= i < cap && after.occupied(i) && after.bkey(i) == k by {
            assert(before.contents@.contains_key(k));
            let i = choose|i: int| 0 <= i < cap && before.occupied(i) && before.bkey(i) == k;
            assert(i != idx);
            assert(after.buckets@[i] == before.buckets@[i]);
            assert(after.occupied(i) && after.bkey(i) == k);
        }
    }
}

/// The outcome of an update of `key` with `value` under `flags`, in a map
/// holding `m` with room for `cap` entries and the given key and value sizes.
pub open spec fn update_outcome(
    m: Map<Seq<u8>, Seq<u8>>,
    cap: nat,
    key_size: usize,
    value_size: usize,
    key: Seq<u8>,
    value: Seq<u8>,
    flags: u64,
) -> MapResult<()> {
    if key.len() != key_size {
        Err(MapError::InvalidKey)
    } else if value.len() != value_size {
        Err(MapError::InvalidValue)
    } else if flags == 1 && m.contains_key(key) {
        Err(MapError::KeyExists)
    } else if flags == 2 && !m.contains_key(key) {
        Err(MapError::KeyNotFound)
    } else if !m.contains_key(key) && m.len() >= cap {
        Err(MapError::MapFull)
    } else {
        Ok(())
    }
}

} // verus!

verus! {

/// The outcome of creating a hash map from `def` under a memory budget of
/// `budget` bytes (zero for none).
pub open spec fn new_outcome(def: MapDef, budget: usize) -> MapResult<()> {
    if def.map_type != MapType::Hash {
        Err(MapError::InvalidMapType)
    } else if def.key_size == 0 {
        Err(MapError::InvalidKey)
    } else if def.value_size == 0 {
        Err(MapError::InvalidValue)
    } else if def.max_entries == 0 {
        Err(MapError::InvalidValue)
    } else if budget > 0 && def.spec_total_size() > budget {
        Err(MapError::OutOfMemory)
    } else {
        Ok(())
    }
}

impl HashStorage {
    /// Move every entry into `new_capacity` fresh buckets, rehashing each.
    fn resize(&mut self, new_capacity: usize)
        requires
            old(self).wf(),
            new_capacity > 0,
            old(self)@.len() <= new_capacity,
        ensures
            final(self).wf(),
            final(self)@ == old(self)@,
            final(self).spec_key_size() == old(self).spec_key_size(),
            final(self).spec_value_size() == old(self).spec_value_size(),
            final(self).spec_capacity() == new_capacity,
    {
        let mut fresh = HashStorage::new(self.key_size, self.value_size, new_capacity);
        let cap = self.capacity;
        let mut i: usize = 0;
        while i < cap
            invariant
                self.wf(),
                cap == self.capacity,
                i <= cap,
                fresh.wf(),
                fresh.key_size == self.key_size,
                fresh.value_size == self.value_size,
                fresh.capacity == new_capacity,
                self@.len() <= new_capacity,
                forall|k: Seq<u8>| #[trigger] fresh@.contains_key(k) ==> self@.contains_key(k) && fresh@[k] == self@[k],
                forall|j: int| 0 <= j < i && #[trigger] self.occupied(j) ==> fresh@.contains_key(self.bkey(j)),
                forall|k: Seq<u8>| #[trigger] fresh@.contains_key(k) ==> exists|j: int|
                    0 <= j < i && self.occupied(j) && self.bkey(j) == k,
            decreases cap - i,
        {
            if self.buckets[i].state == BucketState::Occupied {
                let ghost key = self.bkey(i as int);
                proof {
                    assert(self.occupied(i as int));
                    assert(self.buckets@[i as int].key@.len() == self.key_size);
                    assert(self@.contains_key(key) && self@[key] == self.bvalue(i as int));
                    if fresh@.contains_key(key) {
                        let j = choose|j: int| 0 <= j < i && self.occupied(j) && self.bkey(j) == key;
                        assert(self.occupied(i as int));
                    }
                    assert(fresh@.dom().subset_of(self@.dom().remove(key)));
                    vstd::set_lib::lemma_len_subset(fresh@.dom(), self@.dom().remove(key));
                    assert(!fresh@.contains_key(key));
                    assert(fresh@.len() < new_capacity);
                }
                let r = fresh.update(self.buckets[i].key.as_slice(), self.buckets[i].value.as_slice(), 0);
                assert(r is Ok);
            }
            i = i + 1;
        }
        proof {
            assert forall|k: Seq<u8>| #[trigger] self@.contains_key(k) implies fresh@.contains_key(k) by {
                let j = choose|j: int| 0 <= j < self.capacity && self.occupied(j) && self.bkey(j) == k;
            }
            assert(fresh@ =~= self@);
        }
        *self = fresh;
    }
}

/// A hash map with linear probing.
pub struct HashMap<P: PhysicalProfile> {
    def: MapDef,
    storage: HashStorage,
    _profile: PhantomData<P>,
}

impl<P: PhysicalProfile> View for HashMap<P> {
    type V = Map<Seq<u8>, Seq<u8>>;

    /// The entries, key bytes to value bytes.
    closed spec fn view(&self) -> Map<Seq<u8>, Seq<u8>> {
        self.storage@
    }
}

impl<P: PhysicalProfile> HashMap<P> {
    /// The definition the map was created from.
    pub closed spec fn spec_def(&self) -> MapDef {
        self.def
    }

    /// The storage is well formed and sized as the definition says.
    pub closed spec fn wf(&self) -> bool {
        &&& self.storage.wf()
        &&& self.storage.key_size == self.def.key_size
        &&& self.storage.value_size == self.def.value_size
        &&& self.storage.capacity == self.def.max_entries
    }

    /// Create a hash map: the definition must name a hash map with non-zero
    /// key size, value size and entry count, within the profile's memory
    /// budget.
    pub fn new(def: MapDef) -> (r: MapResult<Self>)
        ensures
            match new_outcome(def, P::MemoryStrategy::MEMORY_BUDGET) {
                Ok(()) => r matches Ok(m) && m.wf() && m@ == Map::<Seq<u8>, Seq<u8>>::empty()
                    && m.spec_def() == def,
                Err(e) => r matches Err(e2) && e2 == e,
            },
    {
        if def.map_type != MapType::Hash {
            return Err(MapError::InvalidMapType);
        }
        if def.key_size == 0 {
            return Err(MapError::InvalidKey);
        }
        if def.value_size == 0 {
            return Err(MapError::InvalidValue);
        }
        if def.max_entries == 0 {
            return Err(MapError::InvalidValue);
        }
        let budget = P::MemoryStrategy::MEMORY_BUDGET;
        if budget > 0 && def.total_size() > budget as u128 {
            return Err(MapError::OutOfMemory);
        }
        let storage = HashStorage::new(
            def.key_size as usize,
            def.value_size as usize,
            def.max_entries as usize,
        );
        Ok(HashMap { def, storage, _profile: PhantomData })
    }

    /// Create a hash map with the given sizes.
    pub fn with_sizes(key_size: u32, value_size: u32, max_entries: u32) -> (r: MapResult<Self>)
        ensures
            match new_outcome(
                MapDef { map_type: MapType::Hash, key_size, value_size, max_entries },
                P::MemoryStrategy::MEMORY_BUDGET,
            ) {
                Ok(()) => r matches Ok(m) && m.wf() && m@ == Map::<Seq<u8>, Seq<u8>>::empty()
                    && m.spec_def() == (MapDef {
                    map_type: MapType::Hash,
                    key_size,
                    value_size,
                    max_entries,
                }),
                Err(e) => r matches Err(e2) && e2 == e,
            },
    {
        let def = MapDef::new(MapType::Hash, key_size, value_size, max_entries);
        Self::new(def)
    }

    /// The number of entries.
    pub fn len(&self) -> (r: usize)
        requires
            self.wf(),
        ensures
            r == self@.len(),
    {
        self.storage.count
    }

    /// Whether the map has no entry.
    pub fn is_empty(&self) -> (r: bool)
        requires
            self.wf(),
        ensures
            r == (self@.len() == 0),
    {
        self.len() == 0
    }

    /// The number of entries the map holds at most.
    pub fn capacity(&self) -> (r: usize)
        requires
            self.wf(),
        ensures
            r == self.spec_def().max_entries,
    {
        self.storage.capacity
    }
}

impl HashMap<CloudProfile> {
    /// Give the map room for `new_max_entries` entries, keeping every entry.
    /// Refused, with no change, when the new size is zero or smaller than
    /// the number of entries. Only elastic memory allows resizing.
    pub fn resize(&mut self, new_max_entries: u32) -> (r: MapResult<()>)
        requires
            old(self).wf(),
        ensures
            final(self).wf(),
            final(self)@ == old(self)@,
            r is Ok <==> 0 < new_max_entries && old(self)@.len() <= new_max_entries,
            r is Err ==> r == Err::<(), MapError>(MapError::InvalidValue) && final(self).spec_def()
                == old(self).spec_def(),
            r is Ok ==> final(self).spec_def() == (MapDef { max_entries: new_max_entries, ..old(self).spec_def() }),
    {
        if new_max_entries == 0 || (new_max_entries as usize) < self.storage.count {
            return Err(MapError::InvalidValue);
        }
        self.storage.resize(new_max_entries as usize);
        self.def.max_entries = new_max_entries;
        Ok(())
    }
}

impl<P: PhysicalProfile> BpfMap<P> for HashMap<P> {
    open spec fn well_formed(&self) -> bool {
        self.wf()
    }

    /// A copy of the value under `key`: none for a key of the wrong size
    /// or a key that is absent.
    fn lookup(&self, key: &[u8]) -> (r: Option<Vec<u8>>)
        ensures
            key@.len() == self.spec_def().key_size && self@.contains_key(key@) ==> (r matches Some(
                v) && v@ == self@[key@]),
            !(key@.len() == self.spec_def().key_size && self@.contains_key(key@)) ==> r is None,
    {
        match self.storage.lookup(key) {
            Some(v) => Some(copy_bytes(v)),
            None => None,
        }
    }

    /// Store `value` under `key`: the outcome is as `update_outcome` says,
    /// and on success the entry is stored and no other entry changes.
    fn update(&mut self, key: &[u8], value: &[u8], flags: u64) -> (r: MapResult<()>)
        ensures
            r == update_outcome(
                old(self)@,
                old(self).spec_def().max_entries as nat,
                old(self).spec_def().key_size as usize,
                old(self).spec_def().value_size as usize,
                key@,
                value@,
                flags,
            ),
            r is Ok ==> final(self)@ == old(self)@.insert(key@, value@),
            r is Err ==> final(self)@ == old(self)@,
            final(self).spec_def() == old(self).spec_def(),
    {
        self.storage.update(key, value, flags)
    }

    /// Remove `key`: an error for a key of the wrong size or an absent key.
    fn delete(&mut self, key: &[u8]) -> (r: MapResult<()>)
        ensures
            key@.len() != old(self).spec_def().key_size ==> r == Err::<(), MapError>(
                MapError::InvalidKey,
            ),
            key@.len() == old(self).spec_def().key_size && !old(self)@.contains_key(key@) ==> r
                == Err::<(), MapError>(MapError::KeyNotFound),
            key@.len() == old(self).spec_def().key_size && old(self)@.contains_key(key@) ==> r is Ok,
            r is Ok ==> final(self)@ == old(self)@.remove(key@),
            r is Err ==> final(self)@ == old(self)@,
            final(self).spec_def() == old(self).spec_def(),
    {
        self.storage.delete(key)
    }

    fn def(&self) -> (r: &MapDef)
        ensures
            *r == self.spec_def(),
    {
        &self.def
    }
}

} // verus!

verus! {

impl<P: PhysicalProfile> HashMap<P> {
    /// A map never holds more entries than its definition allows.
    pub proof fn lemma_len_bounded(&self)
        requires
            self.wf(),
        ensures
            self@.len() <= self.spec_def().max_entries,
            self@.dom().finite(),
    {
    }
}

/// Read after write: when an update of `key` with `value` succeeds on
/// `before`, giving `after`, a lookup of `key` in `after` finds `value`
/// (the key has the map's key size and is present), and every other key
/// reads as it did in `before`.
pub proof fn lemma_read_after_write<P: PhysicalProfile>(
    before: HashMap<P>,
    after: HashMap<P>,
    key: Seq<u8>,
    value: Seq<u8>,
    flags: u64,
    other: Seq<u8>,
)
    requires
        update_outcome(
            before@,
            before.spec_def().max_entries as nat,
            before.spec_def().key_size as usize,
            before.spec_def().value_size as usize,
            key,
            value,
            flags,
        ) is Ok,
        after@ == before@.insert(key, value),
        after.spec_def() == before.spec_def(),
    ensures
        key.len() == after.spec_def().key_size,
        after@.contains_key(key),
        after@[key] == value,
        other != key ==> after@.contains_key(other) == before@.contains_key(other),
        other != key && before@.contains_key(other) ==> after@[other] == before@[other],
{
}

/// The contents after successful calls, in order: an update of a key with
/// a value (`Some`), or a delete of a key (`None`).
pub open spec fn after_calls(m: Map<Seq<u8>, Seq<u8>>, calls: Seq<(Seq<u8>, Option<Seq<u8>>)>) -> Map<
    Seq<u8>,
    Seq<u8>,
>
    decreases calls.len(),
{
    if calls.len() == 0 {
        m
    } else {
        let before = after_calls(m, calls.drop_last());
        match calls.last().1 {
            Some(v) => before.insert(calls.last().0, v),
            None => before.remove(calls.last().0),
        }
    }
}

/// A written value survives later calls on other keys: once `key` holds
/// `value`, any successful updates and deletes of other keys leave it
/// there, so a lookup of `key` still finds `value`.
pub proof fn lemma_write_survives_other_calls(
    m: Map<Seq<u8>, Seq<u8>>,
    key: Seq<u8>,
    value: Seq<u8>,
    calls: Seq<(Seq<u8>, Option<Seq<u8>>)>,
)
    requires
        m.contains_key(key),
        m[key] == value,
        forall|i: int| 0 <= i < calls.len() ==> (#[trigger] calls[i]).0 != key,
    ensures
        after_calls(m, calls).contains_key(key),
        after_calls(m, calls)[key] == value,
    decreases calls.len(),
{
    if calls.len() > 0 {
        let rest = calls.drop_last();
        assert forall|i: int| 0 <= i < rest.len() implies (#[trigger] rest[i]).0 != key by {
            assert(rest[i] == calls[i]);
        }
        lemma_write_survives_other_calls(m, key, value, rest);
        assert(calls.last() == calls[calls.len() - 1]);
    }
}

/// A lookup after a successful update of `key` finds the value written.
pub proof fn lemma_lookup_after_update(
    m: Map<Seq<u8>, Seq<u8>>,
    cap: nat,
    key_size: usize,
    value_size: usize,
    key: Seq<u8>,
    value: Seq<u8>,
    flags: u64,
)
    requires
        update_outcome(m, cap, key_size, value_size, key, value, flags) is Ok,
    ensures
        key.len() == key_size,
        m.insert(key, value).contains_key(key),
        m.insert(key, value)[key] == value,
{
}

/// An update of one key leaves every other key as it was.
pub proof fn lemma_update_keeps_others(m: Map<Seq<u8>, Seq<u8>>, key: Seq<u8>, value: Seq<u8>, other: Seq<u8>)
    requires
        other != key,
    ensures
        m.insert(key, value).contains_key(other) == m.contains_key(other),
        m.contains_key(other) ==> m.insert(key, value)[other] == m[other],
{
}

/// A lookup after a successful delete of `key` finds nothing, and other
/// keys are as they were.
pub proof fn lemma_lookup_after_delete(m: Map<Seq<u8>, Seq<u8>>, key: Seq<u8>, other: Seq<u8>)
    ensures
        !m.remove(key).contains_key(key),
        other != key ==> m.remove(key).contains_key(other) == m.contains_key(other),
        other != key && m.contains_key(other) ==> m.remove(key)[other] == m[other],
{
}

/// A successful update adds one entry for a new key and none for an
/// existing one; a successful delete removes one.
pub proof fn lemma_len_after_update_and_delete(m: Map<Seq<u8>, Seq<u8>>, key: Seq<u8>, value: Seq<u8>)
    requires
        m.dom().finite(),
    ensures
        m.insert(key, value).len() == m.len() + (if m.contains_key(key) {
            0int
        } else {
            1int
        }),
        m.contains_key(key) ==> m.remove(key).len() == m.len() - 1,
{
    if m.contains_key(key) {
        assert(m.insert(key, value).dom() =~= m.dom());
    }
}

/// With flag 1 an update of a present key fails with `KeyExists`; with
/// flag 2 an update of an absent key fails with `KeyNotFound`; a new key
/// in a full map fails with `MapFull`.
pub proof fn lemma_update_flags(
    m: Map<Seq<u8>, Seq<u8>>,
    cap: nat,
    key_size: usize,
    value_size: usize,
    key: Seq<u8>,
    value: Seq<u8>,
    flags: u64,
)
    requires
        key.len() == key_size,
        value.len() == value_size,
    ensures
        flags == 1 && m.contains_key(key) ==> update_outcome(
            m,
            cap,
            key_size,
            value_size,
            key,
            value,
            flags,
        ) == Err::<(), MapError>(MapError::KeyExists),
        flags == 2 && !m.contains_key(key) ==> update_outcome(
            m,
            cap,
            key_size,
            value_size,
            key,
            value,
            flags,
        ) == Err::<(), MapError>(MapError::KeyNotFound),
        flags != 2 && !m.contains_key(key) && m.len() >= cap ==> update_outcome(
            m,
            cap,
            key_size,
            value_size,
            key,
            value,
            flags,
        ) == Err::<(), MapError>(MapError::MapFull),
        flags == 0 && (m.contains_key(key) || m.len() < cap) ==> update_outcome(
            m,
            cap,
            key_size,
            value_size,
            key,
            value,
            flags,
        ) is Ok,
{
}

} // verus!

verus! {

/// Room matters only for new keys. An update whose key and value have the
/// map's sizes succeeds, however full the map is, when the key is present
/// and the flags are not BPF_NOEXIST; and, when the key is absent, exactly
/// when the flags are not BPF_EXIST and the map has room for one more entry.
pub proof fn lemma_update_room_only_for_new_keys(
    m: Map<Seq<u8>, Seq<u8>>,
    cap: nat,
    key_size: usize,
    value_size: usize,
    key: Seq<u8>,
    value: Seq<u8>,
    flags: u64,
)
    requires
        key.len() == key_size,
        value.len() == value_size,
    ensures
        m.contains_key(key) && flags != 1 ==> update_outcome(m, cap, key_size, value_size, key, value, flags) is Ok,
        !m.contains_key(key) ==> (update_outcome(m, cap, key_size, value_size, key, value, flags) is Ok
            <==> (flags != 2 && m.len() < cap)),
{
}

/// Under a memory budget (the embedded profile's static memory), every map
/// that can be created fits in it: its full size is within the budget.
pub proof fn lemma_created_map_fits_budget(def: MapDef, budget: usize)
    requires
        budget > 0,
        new_outcome(def, budget) is Ok,
    ensures
        def.spec_total_size() <= budget,
        def.key_size > 0 && def.value_size > 0 && def.max_entries > 0,
{
}

} // verus!
