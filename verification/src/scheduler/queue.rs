//! The bounded ready queue of programs waiting to run.
use vstd::prelude::*;

use crate::bytecode::program::BpfProgram;
use crate::execution::BpfContext;
use crate::profile::PhysicalProfile;
use crate::scheduler::deadline::Deadline;
use crate::scheduler::policy::{ExecPriority, SchedError, SchedResult};
use crate::scheduler::{BpfExecRequest, ProgId};
use std::sync::Arc;

verus! {

/// How many programs the ready queue holds at most.
pub const QUEUE_CAPACITY: usize = 256;

/// A program waiting in the ready queue.
pub struct QueuedProgram<P: PhysicalProfile> {
    /// The program's identifier
    pub id: ProgId,
    /// Its priority
    pub priority: ExecPriority,
    /// Its deadline, if it has one
    pub deadline: Option<Deadline>,
    /// The program to run
    pub program: Arc<BpfProgram<P>>,
    /// The context it runs with
    pub ctx: BpfContext,
}

impl<P: PhysicalProfile> QueuedProgram<P> {
    /// The queue entry for a request.
    pub fn from_request(req: BpfExecRequest<P>) -> (r: Self)
        ensures
            r.id == req.id,
            r.priority == req.priority,
            r.deadline == req.deadline,
            r.program == req.program,
            r.ctx == req.ctx,
    {
        QueuedProgram {
            id: req.id,
            priority: req.priority,
            deadline: req.deadline,
            program: req.program,
            ctx: req.ctx,
        }
    }
}

/// Position `i` holds a program of the highest priority in `s`, and no
/// earlier position holds one of that priority.
pub open spec fn is_highest_priority<P: PhysicalProfile>(s: Seq<QueuedProgram<P>>, i: int) -> bool {
    &&& 0 <= i < s.len()
    &&& forall|j: int| 0 <= j < s.len() ==> #[trigger] s[j].priority.rank() <= s[i].priority.rank()
    &&& forall|j: int| 0 <= j < i ==> #[trigger] s[j].priority.rank() < s[i].priority.rank()
}

/// A program picked as one of the highest priority is never below a queued
/// one: while a Critical program is queued a Critical one is picked, and
/// while a program above Normal is queued no Low or Normal one is picked.
pub proof fn lemma_highest_priority_is_not_outranked<P: PhysicalProfile>(s: Seq<QueuedProgram<P>>, i: int, j: int)
    requires
        is_highest_priority(s, i),
        0 <= j < s.len(),
    ensures
        s[j].priority is Critical ==> s[i].priority is Critical,
        s[j].priority is High ==> (s[i].priority is High || s[i].priority is Critical),
        s[j].priority is Normal ==> !(s[i].priority is Low),
{
    assert(s[j].priority.rank() <= s[i].priority.rank());
}

/// Some program in `s` has a deadline.
pub open spec fn has_deadline<P: PhysicalProfile>(s: Seq<QueuedProgram<P>>) -> bool {
    exists|j: int| 0 <= j < s.len() && (#[trigger] s[j]).deadline is Some
}

/// The absolute deadline of a program that has one.
pub open spec fn due<P: PhysicalProfile>(q: QueuedProgram<P>) -> u64 {
    q.deadline.unwrap().absolute_ns
}

/// Position `i` holds a program with the earliest deadline in `s`, and no
/// earlier position holds one with that deadline.
pub open spec fn is_earliest_deadline<P: PhysicalProfile>(s: Seq<QueuedProgram<P>>, i: int) -> bool {
    &&& 0 <= i < s.len()
    &&& s[i].deadline is Some
    &&& forall|j: int| 0 <= j < s.len() && (#[trigger] s[j]).deadline is Some ==> due(s[i]) <= due(s[j])
    &&& forall|j: int| 0 <= j < i && (#[trigger] s[j]).deadline is Some ==> due(s[i]) < due(s[j])
}

/// The ready queue: programs in the order they were admitted.
pub struct BpfQueue<P: PhysicalProfile> {
    items: Vec<QueuedProgram<P>>,
}

impl<P: PhysicalProfile> View for BpfQueue<P> {
    type V = Seq<QueuedProgram<P>>;

    closed spec fn view(&self) -> Seq<QueuedProgram<P>> {
        self.items@
    }
}

impl<P: PhysicalProfile> BpfQueue<P> {
    /// An empty queue.
    pub fn new() -> (r: Self)
        ensures
            r@ == Seq::<QueuedProgram<P>>::empty(),
    {
        BpfQueue { items: Vec::new() }
    }

    /// Number of waiting programs.
    pub fn len(&self) -> (r: usize)
        ensures
            r == self@.len(),
    {
        self.items.len()
    }

    /// Whether no program is waiting.
    pub fn is_empty(&self) -> (r: bool)
        ensures
            r == (self@.len() == 0),
    {
        self.items.len() == 0
    }

    /// Whether the queue is at capacity.
    pub fn is_full(&self) -> (r: bool)
        ensures
            r == (self@.len() >= QUEUE_CAPACITY),
    {
        self.items.len() >= QUEUE_CAPACITY
    }

    /// Append a program at the back, unless the queue is full.
    pub fn enqueue(&mut self, program: QueuedProgram<P>) -> (r: SchedResult<()>)
        ensures
            old(self)@.len() < QUEUE_CAPACITY ==> r is Ok && final(self)@ == old(self)@.push(program),
            old(self)@.len() >= QUEUE_CAPACITY ==> r == Err::<(), SchedError>(SchedError::QueueFull)
                && final(self)@ == old(self)@,
    {
        if self.items.len() >= QUEUE_CAPACITY {
            return Err(SchedError::QueueFull);
        }
        self.items.push(program);
        Ok(())
    }

    /// Take the program at position `idx` out of the queue; the others keep
    /// their order. `None`, and no change, when there is no such position.
    pub fn remove_at(&mut self, idx: usize) -> (r: Option<QueuedProgram<P>>)
        ensures
            idx < old(self)@.len() ==> r == Some(old(self)@[idx as int])
                && final(self)@ == old(self)@.remove(idx as int),
            idx >= old(self)@.len() ==> r is None && final(self)@ == old(self)@,
    {
        if idx < self.items.len() {
            Some(self.items.remove(idx))
        } else {
            None
        }
    }

    /// The position of the first program of the highest priority, `None`
    /// for an empty queue.
    pub fn find_highest_priority(&self) -> (r: Option<usize>)
        ensures
            r is None <==> self@.len() == 0,
            r is Some ==> is_highest_priority(self@, r.unwrap() as int),
    {
        let n = self.items.len();
        if n == 0 {
            return None;
        }
        let mut best: usize = 0;
        let mut i: usize = 1;
        while i < n
            invariant
                n == self.items@.len(),
                0 <= best < i <= n,
                forall|j: int| 0 <= j < i ==> #[trigger] self.items@[j].priority.rank()
                    <= self.items@[best as int].priority.rank(),
                forall|j: int| 0 <= j < best ==> #[trigger] self.items@[j].priority.rank()
                    < self.items@[best as int].priority.rank(),
            decreases n - i,
        {
            if self.items[i].priority.level() > self.items[best].priority.level() {
                best = i;
            }
            i = i + 1;
        }
        Some(best)
    }

    /// The position of the first program with the earliest deadline; when no
    /// program has a deadline, that of the first of the highest priority.
    /// `None` for an empty queue.
    pub fn find_earliest_deadline(&self) -> (r: Option<usize>)
        ensures
            r is None <==> self@.len() == 0,
            has_deadline(self@) ==> r is Some && is_earliest_deadline(self@, r.unwrap() as int),
            !has_deadline(self@) && r is Some ==> is_highest_priority(self@, r.unwrap() as int),
    {
        let n = self.items.len();
        let mut best: Option<usize> = None;
        let mut i: usize = 0;
        while i < n
            invariant
                n == self.items@.len(),
                0 <= i <= n,
                best is None ==> forall|j: int| 0 <= j < i ==> (#[trigger] self.items@[j]).deadline is None,
                best is Some ==> best.unwrap() < i && is_earliest_deadline(
                    self.items@.take(i as int),
                    best.unwrap() as int,
                ),
            decreases n - i,
        {
            let ghost prefix = self.items@.take(i as int);
            let ghost next = self.items@.take(i + 1);
            assert(forall|j: int| 0 <= j < i ==> next[j] == prefix[j]);
            match self.items[i].deadline {
                Some(d) => {
                    match best {
                        None => {
                            best = Some(i);
                        },
                        Some(b) => {
                            let cur = self.items[b].deadline.unwrap();
                            if d.absolute_ns < cur.absolute_ns {
                                best = Some(i);
                            }
                        },
                    }
                },
                None => {},
            }
            i = i + 1;
        }
        assert(self.items@.take(n as int) == self.items@);
        match best {
            Some(b) => Some(b),
            None => self.find_highest_priority(),
        }
    }
}

} // verus!
