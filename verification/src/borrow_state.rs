//! The borrow state of a cell as a mathematical value, and what holds of it
//! over every history of a cell's guards.

use vstd::prelude::*;

verus! {

/// What a cell has lent out.
pub enum BorrowState {
    /// No guard is out.
    Unshared,
    /// This many read guards are out, and no write guard.
    Shared(nat),
    /// One write guard is out, and no read guard.
    Exclusive,
}

/// What can happen to a cell's guards.
pub enum GuardOp {
    /// A read guard is asked for.
    Borrow,
    /// The write guard is asked for.
    BorrowMut,
    /// A read guard is given back.
    DropRef,
    /// The write guard is given back.
    DropRefMut,
}

impl BorrowState {
    /// `Shared` always counts at least one reader.
    pub open spec fn wf(self) -> bool {
        self matches BorrowState::Shared(n) ==> 1 <= n
    }

    /// How many read guards are out.
    pub open spec fn readers(self) -> nat {
        match self {
            BorrowState::Shared(n) => n,
            _ => 0,
        }
    }

    /// The state after a read guard was asked for: one more reader, unless
    /// the write guard is out, when none is granted.
    pub open spec fn share(self) -> BorrowState {
        match self {
            BorrowState::Unshared => BorrowState::Shared(1),
            BorrowState::Shared(n) => BorrowState::Shared(n + 1),
            BorrowState::Exclusive => BorrowState::Exclusive,
        }
    }

    /// The state after the write guard was asked for: it is granted only
    /// when no guard is out.
    pub open spec fn lock(self) -> BorrowState {
        match self {
            BorrowState::Unshared => BorrowState::Exclusive,
            _ => self,
        }
    }

    /// The state after one read guard was given back.
    pub open spec fn unshare(self) -> BorrowState {
        match self {
            BorrowState::Shared(n) => if n <= 1 {
                BorrowState::Unshared
            } else {
                BorrowState::Shared((n - 1) as nat)
            },
            _ => self,
        }
    }

    /// The state after the write guard was given back.
    pub open spec fn unlock(self) -> BorrowState {
        match self {
            BorrowState::Exclusive => BorrowState::Unshared,
            _ => self,
        }
    }

    /// Whether a cell in this state answers `op` with a guard.
    pub open spec fn grants(self, op: GuardOp) -> bool {
        match op {
            GuardOp::Borrow => !(self is Exclusive),
            GuardOp::BorrowMut => self is Unshared,
            _ => false,
        }
    }

    /// The state after `op`.
    pub open spec fn step(self, op: GuardOp) -> BorrowState {
        match op {
            GuardOp::Borrow => self.share(),
            GuardOp::BorrowMut => self.lock(),
            GuardOp::DropRef => self.unshare(),
            GuardOp::DropRefMut => self.unlock(),
        }
    }
}

/// The guards of one cell that are out, counted by kind.
pub struct Guards {
    pub readers: nat,
    pub writers: nat,
}

impl Guards {
    /// No guard is out.
    pub open spec fn none() -> Guards {
        Guards { readers: 0, writers: 0 }
    }

    /// Only a guard that is out can be given back.
    pub open spec fn permits(self, op: GuardOp) -> bool {
        match op {
            GuardOp::DropRef => self.readers >= 1,
            GuardOp::DropRefMut => self.writers >= 1,
            _ => true,
        }
    }

    /// The guards that are out after a cell in `state` has answered `op`.
    pub open spec fn step(self, state: BorrowState, op: GuardOp) -> Guards {
        match op {
            GuardOp::Borrow => if state.grants(op) {
                Guards { readers: self.readers + 1, writers: self.writers }
            } else {
                self
            },
            GuardOp::BorrowMut => if state.grants(op) {
                Guards { readers: self.readers, writers: self.writers + 1 }
            } else {
                self
            },
            GuardOp::DropRef => Guards {
                readers: (self.readers - 1) as nat,
                writers: self.writers,
            },
            GuardOp::DropRefMut => Guards {
                readers: self.readers,
                writers: (self.writers - 1) as nat,
            },
        }
    }

    /// Many readers or one writer, never both.
    pub open spec fn exclusive_or_shared(self) -> bool {
        self.writers <= 1 && (self.writers == 1 ==> self.readers == 0)
    }

    /// The state that stands for these guards.
    pub open spec fn state(self) -> BorrowState {
        if self.writers >= 1 {
            BorrowState::Exclusive
        } else if self.readers >= 1 {
            BorrowState::Shared(self.readers)
        } else {
            BorrowState::Unshared
        }
    }
}

/// The state of a new cell after `ops`, with the guards that are then out.
pub open spec fn run(ops: Seq<GuardOp>) -> (BorrowState, Guards)
    decreases ops.len(),
{
    if ops.len() == 0 {
        (BorrowState::Unshared, Guards::none())
    } else {
        let (state, guards) = run(ops.drop_last());
        (state.step(ops.last()), guards.step(state, ops.last()))
    }
}

/// A history in which nothing is given back that is not out.
pub open spec fn admissible(ops: Seq<GuardOp>) -> bool {
    forall|i: int| 0 <= i < ops.len() ==> (#[trigger] run(ops.take(i))).1.permits(ops[i])
}

/// Every step keeps a well-formed state well-formed.
pub proof fn lemma_step_keeps_wf(state: BorrowState, op: GuardOp)
    requires
        state.wf(),
    ensures
        state.step(op).wf(),
{
}

/// After any history of a cell, in whatever order its guards were given
/// back, the state says exactly which guards are out: `Exclusive` for the one
/// write guard, `Shared(n)` for `n` read guards, `Unshared` for none. Readers
/// and a writer are never out together.
pub proof fn lemma_state_counts_guards(ops: Seq<GuardOp>)
    requires
        admissible(ops),
    ensures
        run(ops).0 == run(ops).1.state(),
        run(ops).1.exclusive_or_shared(),
        run(ops).0.wf(),
    decreases ops.len(),
{
    if ops.len() > 0 {
        let front = ops.drop_last();
        assert(ops.take(ops.len() - 1) == front);
        assert forall|i: int| 0 <= i < front.len() implies (#[trigger] run(front.take(i))).1.permits(
            front[i],
        ) by {
            assert(front.take(i) == ops.take(i));
        }
        lemma_state_counts_guards(front);
    }
}

/// Once every guard of a history has been given back, the cell is
/// `Unshared` again.
pub proof fn lemma_unshared_when_all_dropped(ops: Seq<GuardOp>)
    requires
        admissible(ops),
        run(ops).1 == Guards::none(),
    ensures
        run(ops).0 is Unshared,
{
    lemma_state_counts_guards(ops);
}

/// After any history, a read guard is granted exactly when the write guard
/// is not out, and the write guard exactly when no guard is out.
pub proof fn lemma_grants_by_guards(ops: Seq<GuardOp>)
    requires
        admissible(ops),
    ensures
        run(ops).0.grants(GuardOp::Borrow) <==> run(ops).1.writers == 0,
        run(ops).0.grants(GuardOp::BorrowMut) <==> run(ops).1 == Guards::none(),
{
    lemma_state_counts_guards(ops);
}

} // verus!
