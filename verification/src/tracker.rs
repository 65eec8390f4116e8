//! Bookkeeping for timed, in-flight asynchronous operations.
//!
//! An unordered collection of operations, each under a caller-assigned
//! identifier with its correlation data and a deadline. The owning layer
//! polls it each tick: completions are matched back to the identifier, and
//! an operation past its deadline is withdrawn as expired — a normal
//! failure outcome, handled like any other. Concurrency is bounded by the
//! owning layer's policy, not here.

use vstd::prelude::*;

verus! {

/// Timed, in-flight operations: identifier, correlation data, deadline.
#[derive(Debug)]
pub struct PendingOperationTracker<T> {
    /// The pending operations, in registration order.
    pub operations: Vec<(u64, T, u64)>,
}

/// Whether the tracker holds an operation under `id`.
pub open spec fn has_op<T>(s: Seq<(u64, T, u64)>, id: u64) -> bool {
    exists|i: int| 0 <= i < s.len() && (#[trigger] s[i]).0 == id
}

/// Index of the operation under `id`.
pub open spec fn op_idx<T>(s: Seq<(u64, T, u64)>, id: u64) -> int {
    choose|i: int| 0 <= i < s.len() && (#[trigger] s[i]).0 == id
}

/// Whether any operation's deadline has passed at `now`.
pub open spec fn some_expired<T>(s: Seq<(u64, T, u64)>, now: u64) -> bool {
    exists|i: int| 0 <= i < s.len() && (#[trigger] s[i]).2 <= now
}

/// Index of the first operation whose deadline has passed at `now`.
pub open spec fn first_expired_at<T>(s: Seq<(u64, T, u64)>, now: u64) -> int {
    choose|k: int|
        0 <= k < s.len() && (#[trigger] s[k]).2 <= now && forall|j: int|
            0 <= j < k ==> s[j].2 > now
}

impl<T> PendingOperationTracker<T> {
    /// Well-formedness: operation identifiers are unique.
    pub open spec fn wf(&self) -> bool {
        forall|i: int, j: int|
            0 <= i < j < self.operations@.len() ==> (#[trigger] self.operations@[i]).0 != (
            #[trigger] self.operations@[j]).0
    }

    /// Create an empty tracker.
    pub fn new() -> (r: Self)
        ensures
            r.wf(),
            r.operations@.len() == 0,
    {
        Self { operations: Vec::new() }
    }

    /// Number of in-flight operations.
    pub fn len(&self) -> (r: usize)
        ensures
            r == self.operations@.len(),
    {
        self.operations.len()
    }

    /// Register an operation under a fresh identifier, with its
    /// correlation data and the tick its deadline passes.
    pub fn register(&mut self, id: u64, data: T, deadline: u64)
        requires
            old(self).wf(),
            !has_op(old(self).operations@, id),
        ensures
            final(self).wf(),
            final(self).operations@ == old(self).operations@.push((id, data, deadline)),
    {
        let ghost pre = *self;
        self.operations.push((id, data, deadline));
        proof {
            assert forall|a: int, b: int|
                0 <= a < b < self.operations@.len() implies (#[trigger] self.operations@[a]).0 != (
                #[trigger] self.operations@[b]).0 by {
                if b == self.operations@.len() - 1 {
                    assert(!has_op(pre.operations@, id));
                }
            }
        }
    }

    /// Match a resolved operation back to its identifier, withdrawing its
    /// correlation data and deadline.
    pub fn complete(&mut self, id: u64) -> (r: Option<(T, u64)>)
        requires
            old(self).wf(),
        ensures
            final(self).wf(),
            !has_op(old(self).operations@, id) ==> r is None && *final(self) == *old(self),
            has_op(old(self).operations@, id) ==> {
                let i = op_idx(old(self).operations@, id);
                &&& r == Some((old(self).operations@[i].1, old(self).operations@[i].2))
                &&& final(self).operations@ == old(self).operations@.remove(i)
            },
            !has_op(final(self).operations@, id),
    {
        let mut i: usize = 0;
        while i < self.operations.len()
            invariant
                old(self).wf(),
                *self == *old(self),
                i <= self.operations@.len(),
                forall|j: int| 0 <= j < i ==> (#[trigger] self.operations@[j]).0 != id,
            decreases self.operations@.len() - i,
        {
            if self.operations[i].0 == id {
                let ghost pre = *self;
                proof {
                    let k = op_idx(pre.operations@, id);
                    assert(0 <= k < pre.operations@.len() && pre.operations@[k].0 == id);
                    if k != i {
                        if k < i {
                            assert(pre.operations@[k].0 != pre.operations@[i as int].0);
                        } else {
                            assert(pre.operations@[i as int].0 != pre.operations@[k].0);
                        }
                    }
                }
                let (_, data, deadline) = self.operations.remove(i);
                proof {
                    lemma_ops_remove_keeps_unique(pre.operations@, i as int);
                    assert forall|a: int| 0 <= a < self.operations@.len() implies (
                    #[trigger] self.operations@[a]).0 != id by {
                        let pa: int = if a < i { a } else { a + 1 };
                        if pre.operations@[pa].0 == id {
                            if pa < i {
                                assert(pre.operations@[pa].0 != pre.operations@[i as int].0);
                            } else {
                                assert(pre.operations@[i as int].0 != pre.operations@[pa].0);
                            }
                        }
                    }
                }
                return Some((data, deadline));
            }
            i = i + 1;
        }
        None
    }

    /// Withdraw the first operation whose deadline has passed at `now`:
    /// its expiry is a normal failure outcome the owning layer reports.
    pub fn pop_expired(&mut self, now: u64) -> (r: Option<(u64, T, u64)>)
        requires
            old(self).wf(),
        ensures
            final(self).wf(),
            !some_expired(old(self).operations@, now) ==> r is None && *final(self) == *old(self),
            some_expired(old(self).operations@, now) ==> {
                let k = first_expired_at(old(self).operations@, now);
                &&& 0 <= k < old(self).operations@.len()
                &&& old(self).operations@[k].2 <= now
                &&& forall|j: int| 0 <= j < k ==> old(self).operations@[j].2 > now
                &&& r == Some(old(self).operations@[k])
                &&& final(self).operations@ == old(self).operations@.remove(k)
            },
    {
        let mut i: usize = 0;
        while i < self.operations.len()
            invariant
                old(self).wf(),
                *self == *old(self),
                i <= self.operations@.len(),
                forall|j: int| 0 <= j < i ==> (#[trigger] self.operations@[j]).2 > now,
            decreases self.operations@.len() - i,
        {
            if self.operations[i].2 <= now {
                let ghost pre = *self;
                proof {
                    let k = first_expired_at(pre.operations@, now);
                    assert(pre.operations@[i as int].2 <= now && forall|j: int|
                        0 <= j < i ==> pre.operations@[j].2 > now);
                    assert(0 <= k < pre.operations@.len() && pre.operations@[k].2 <= now && forall|
                        j: int,
                    | 0 <= j < k ==> pre.operations@[j].2 > now);
                    if k < i {
                        assert(pre.operations@[k].2 > now);
                    }
                    if i < k {
                        assert(pre.operations@[i as int].2 > now);
                    }
                    assert(k == i as int);
                }
                let op = self.operations.remove(i);
                proof {
                    lemma_ops_remove_keeps_unique(pre.operations@, i as int);
                }
                return Some(op);
            }
            i = i + 1;
        }
        None
    }
}

/// Removing one operation keeps the identifiers unique.
proof fn lemma_ops_remove_keeps_unique<T>(s: Seq<(u64, T, u64)>, i: int)
    requires
        0 <= i < s.len(),
        forall|a: int, b: int| 0 <= a < b < s.len() ==> (#[trigger] s[a]).0 != (#[trigger] s[b]).0,
    ensures
        forall|a: int, b: int|
            0 <= a < b < s.remove(i).len() ==> (#[trigger] s.remove(i)[a]).0 != (
            #[trigger] s.remove(i)[b]).0,
{
    assert forall|a: int, b: int|
        0 <= a < b < s.remove(i).len() implies (#[trigger] s.remove(i)[a]).0 != (#[trigger] s.remove(
        i,
    )[b]).0 by {
        let pa: int = if a < i { a } else { a + 1 };
        let pb: int = if b < i { b } else { b + 1 };
        assert(s.remove(i)[a] == s[pa]);
        assert(s.remove(i)[b] == s[pb]);
        assert(s[pa].0 != s[pb].0);
    }
}

} // verus!
