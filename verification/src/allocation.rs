//! A reference-counted allocation as a mathematical value, and what holds of
//! it over every history of its handles.

use vstd::prelude::*;

verus! {

/// One allocation: the payload, and how many handles refer to it.
pub struct Allocation<T> {
    pub value: T,
    pub count: nat,
}

/// What can happen to a handle.
pub enum HandleOp {
    /// A handle is duplicated.
    Clone,
    /// A handle is dropped.
    Drop,
}

impl<T> Allocation<T> {
    /// A new allocation: one handle refers to it.
    pub open spec fn fresh(value: T) -> Allocation<T> {
        Allocation { value, count: 1 }
    }

    /// The allocation after one of its handles was duplicated.
    pub open spec fn cloned(self) -> Allocation<T> {
        Allocation { value: self.value, count: self.count + 1 }
    }

    /// The allocation after one of its handles was dropped: `None` when that
    /// was the last one, and the allocation went with it.
    pub open spec fn dropped(self) -> Option<Allocation<T>> {
        if self.count <= 1 {
            None
        } else {
            Some(Allocation { value: self.value, count: (self.count - 1) as nat })
        }
    }

    /// The allocation after `op`.
    pub open spec fn step(self, op: HandleOp) -> Option<Allocation<T>> {
        match op {
            HandleOp::Clone => Some(self.cloned()),
            HandleOp::Drop => self.dropped(),
        }
    }

    /// What has become of a new allocation of `value` after `ops` on its
    /// handles: `None` once it has been deallocated.
    pub open spec fn after(value: T, ops: Seq<HandleOp>) -> Option<Allocation<T>>
        decreases ops.len(),
    {
        if ops.len() == 0 {
            Some(Allocation::fresh(value))
        } else {
            match Allocation::after(value, ops.drop_last()) {
                Some(allocation) => allocation.step(ops.last()),
                None => None,
            }
        }
    }
}

/// How many handles are alive after `ops`, the first one counted.
pub open spec fn handles(ops: Seq<HandleOp>) -> int
    decreases ops.len(),
{
    if ops.len() == 0 {
        1
    } else {
        handles(ops.drop_last()) + match ops.last() {
            HandleOp::Clone => 1int,
            HandleOp::Drop => -1int,
        }
    }
}

/// A history in which every step is taken on a handle that is alive.
pub open spec fn admissible(ops: Seq<HandleOp>) -> bool {
    forall|i: int| 0 <= i < ops.len() ==> #[trigger] handles(ops.take(i)) >= 1
}

/// Over any history of duplicating and dropping handles, the count is the
/// number of handles alive and the payload is the one that was allocated.
/// The allocation is there before every step, and gone after the last one
/// exactly when that step dropped the last handle: it is deallocated once,
/// with its last handle.
pub proof fn lemma_count_is_handles_alive<T>(value: T, ops: Seq<HandleOp>)
    requires
        admissible(ops),
    ensures
        handles(ops) >= 0,
        handles(ops) >= 1 ==> Allocation::after(value, ops) == Some(
            Allocation { value, count: handles(ops) as nat },
        ),
        handles(ops) == 0 ==> Allocation::after(value, ops) is None,
        forall|i: int| 0 <= i < ops.len() ==> (#[trigger] Allocation::after(value, ops.take(i))) is Some,
    decreases ops.len(),
{
    if ops.len() > 0 {
        let front = ops.drop_last();
        assert(ops.take(ops.len() - 1) == front);
        assert forall|i: int| 0 <= i < front.len() implies #[trigger] handles(front.take(i)) >= 1 by {
            assert(front.take(i) == ops.take(i));
        }
        lemma_count_is_handles_alive(value, front);
        assert forall|i: int| 0 <= i < ops.len() implies (#[trigger] Allocation::after(
            value,
            ops.take(i),
        )) is Some by {
            if i < front.len() {
                assert(front.take(i) == ops.take(i));
            }
        }
    }
}

/// While an allocation is there, its payload is the one that was allocated:
/// no history of duplicating and dropping handles changes it.
pub proof fn lemma_payload_is_unchanged<T>(value: T, ops: Seq<HandleOp>)
    ensures
        Allocation::after(value, ops) matches Some(allocation) ==> allocation.value == value,
    decreases ops.len(),
{
    if ops.len() > 0 {
        lemma_payload_is_unchanged(value, ops.drop_last());
    }
}

} // verus!
