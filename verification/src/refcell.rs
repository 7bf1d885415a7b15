//! A cell whose borrows are checked when they are taken.

use crate::borrow_state::{BorrowState, GuardOp};
use crate::cell::Cell;
use std::marker::PhantomData;
use vstd::pervasive::unreached;
use vstd::prelude::*;

verus! {

/// The most read guards that one cell can have out at a time.
pub const MAX_READERS: i32 = 0x7fff_ffff;

/// What a cell has lent out, as the cell records it.
#[derive(Copy, Clone)]
pub enum RefState {
    UnShared,
    Shared(i32),
    Exclusive,
}

impl RefState {
    /// `Shared` always counts at least one reader.
    pub open spec fn wf(self) -> bool {
        self matches RefState::Shared(n) ==> 1 <= n
    }
}

impl View for RefState {
    type V = BorrowState;

    open spec fn view(&self) -> BorrowState {
        match *self {
            RefState::UnShared => BorrowState::Unshared,
            RefState::Shared(n) => BorrowState::Shared(n as nat),
            RefState::Exclusive => BorrowState::Exclusive,
        }
    }
}

/// A cell as a mathematical value: what it holds and what it has lent out.
pub struct RefCellView<T> {
    pub value: T,
    pub state: BorrowState,
}

impl<T> RefCellView<T> {
    /// The cell after a read guard was asked for.
    pub open spec fn share(self) -> RefCellView<T> {
        RefCellView { value: self.value, state: self.state.share() }
    }

    /// The cell after the write guard was asked for.
    pub open spec fn lock(self) -> RefCellView<T> {
        RefCellView { value: self.value, state: self.state.lock() }
    }

    /// The cell after one read guard was given back.
    pub open spec fn unshare(self) -> RefCellView<T> {
        RefCellView { value: self.value, state: self.state.unshare() }
    }

    /// The cell after the write guard was given back.
    pub open spec fn unlock(self) -> RefCellView<T> {
        RefCellView { value: self.value, state: self.state.unlock() }
    }

    /// The cell after `value` was written through the write guard.
    pub open spec fn write(self, value: T) -> RefCellView<T> {
        RefCellView { value, state: self.state }
    }
}

/// The record of what one cell has lent out. A `Shared` record never counts
/// fewer than one reader.
struct Ledger {
    state: Cell<RefState>,
}

impl Ledger {
    #[verifier::type_invariant]
    spec fn inv(self) -> bool {
        self.state@.wf()
    }

    fn new() -> (ledger: Self)
        ensures
            ledger.state@ is UnShared,
    {
        Ledger { state: Cell::new(RefState::UnShared) }
    }

    fn get(&self) -> (state: RefState)
        ensures
            state == self.state@,
            state.wf(),
    {
        proof {
            use_type_invariant(self);
        }
        self.state.get()
    }

    fn set(&mut self, state: RefState)
        requires
            state.wf(),
        ensures
            final(self).state@ == state,
    {
        self.state.set(state);
    }
}

/// A value together with the record of what has been lent out of it: any
/// number of read guards, or one write guard, never both.
///
/// A guard is a token. It does not point into the cell; the cell is handed to
/// each operation of the guard, which is valid on the cell that granted it
/// and until it is given back.
pub struct RefCell<T> {
    value: T,
    ledger: Ledger,
}

impl<T> View for RefCell<T> {
    type V = RefCellView<T>;

    closed spec fn view(&self) -> RefCellView<T> {
        RefCellView { value: self.value, state: self.ledger.state@@ }
    }
}

impl<T> RefCell<T> {
    /// A cell that holds `value`, with nothing lent out.
    pub fn new(value: T) -> (cell: Self)
        ensures
            cell@ == (RefCellView { value, state: BorrowState::Unshared }),
    {
        RefCell { value, ledger: Ledger::new() }
    }

    /// The record of what is lent out.
    pub fn state(&self) -> (state: RefState)
        ensures
            state@ == self@.state,
            state.wf(),
    {
        self.ledger.get()
    }

    /// Grants a read guard unless the write guard is out.
    pub fn borrow(&mut self) -> (guard: Option<Ref<T>>)
        requires
            old(self)@.state.readers() < MAX_READERS,
        ensures
            guard is Some <==> !(old(self)@.state is Exclusive),
            final(self)@ == old(self)@.share(),
            final(self)@.state.wf(),
    {
        match self.ledger.get() {
            RefState::UnShared => {
                self.ledger.set(RefState::Shared(1));
                Some(Ref { _marker: PhantomData })
            },
            RefState::Shared(n) => {
                self.ledger.set(RefState::Shared(n + 1));
                Some(Ref { _marker: PhantomData })
            },
            RefState::Exclusive => None,
        }
    }

    /// Grants the write guard if no guard at all is out.
    pub fn borrow_mut(&mut self) -> (guard: Option<RefMut<T>>)
        ensures
            guard is Some <==> old(self)@.state is Unshared,
            final(self)@ == old(self)@.lock(),
            final(self)@.state.wf(),
    {
        if let RefState::UnShared = self.ledger.get() {
            self.ledger.set(RefState::Exclusive);
            Some(RefMut { _marker: PhantomData })
        } else {
            None
        }
    }
}

/// A read guard: the right to read the value of the cell that granted it,
/// until it is given back. A guard that goes out of scope without `drop`
/// stays out for good.
#[must_use]
pub struct Ref<T> {
    _marker: PhantomData<T>,
}

impl<T> Ref<T> {
    /// The value of the cell, for reading.
    pub fn deref<'a>(&self, cell: &'a RefCell<T>) -> (value: &'a T)
        requires
            cell@.state is Shared,
        ensures
            *value == cell@.value,
    {
        &cell.value
    }

    /// Gives the guard back to the cell that granted it.
    pub fn drop(self, cell: &mut RefCell<T>)
        requires
            old(cell)@.state is Shared,
        ensures
            final(cell)@ == old(cell)@.unshare(),
            final(cell)@.state.wf(),
    {
        match cell.ledger.get() {
            RefState::Exclusive | RefState::UnShared => unreached(),
            RefState::Shared(1) => {
                cell.ledger.set(RefState::UnShared);
            },
            RefState::Shared(n) => {
                cell.ledger.set(RefState::Shared(n - 1));
            },
        }
    }
}

/// The write guard: the right to read and to write the value of the cell that
/// granted it, until it is given back. A guard that goes out of scope
/// without `drop` stays out for good.
#[must_use]
pub struct RefMut<T> {
    _marker: PhantomData<T>,
}

impl<T> RefMut<T> {
    /// The value of the cell, for reading.
    pub fn deref<'a>(&self, cell: &'a RefCell<T>) -> (value: &'a T)
        requires
            cell@.state is Exclusive,
        ensures
            *value == cell@.value,
    {
        &cell.value
    }

    /// The value of the cell, for writing: what the reference holds when the
    /// caller is done with it is what the cell holds from then on.
    pub fn deref_mut<'a>(&mut self, cell: &'a mut RefCell<T>) -> (value: &'a mut T)
        requires
            old(cell)@.state is Exclusive,
        ensures
            *value == old(cell)@.value,
            final(cell)@ == old(cell)@.write(*final(value)),
    {
        &mut cell.value
    }

    /// Gives the guard back to the cell that granted it.
    pub fn drop(self, cell: &mut RefCell<T>)
        requires
            old(cell)@.state is Exclusive,
        ensures
            final(cell)@ == old(cell)@.unlock(),
    {
        match cell.ledger.get() {
            RefState::Shared(_) | RefState::UnShared => unreached(),
            RefState::Exclusive => {
                cell.ledger.set(RefState::UnShared);
            },
        }
    }
}

/// What is written through the write guard of a cell with nothing lent out
/// is what a read guard taken afterwards reads: both guards are granted, and
/// the cell is the one it was but for the value and the one reader.
pub proof fn lemma_write_then_read<T>(cell: RefCellView<T>, value: T)
    requires
        cell.state is Unshared,
    ensures
        cell.state.grants(GuardOp::BorrowMut),
        cell.lock().state is Exclusive,
        cell.lock().write(value).unlock().state.grants(GuardOp::Borrow),
        cell.lock().write(value).unlock().share() == (RefCellView {
            value,
            state: BorrowState::Shared(1),
        }),
{
}

} // verus!
