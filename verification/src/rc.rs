//! Reference-counted handles to values that live in a heap of slots.

use crate::allocation::Allocation;
use crate::cell::Cell;
use std::marker::PhantomData;
use vstd::pervasive::unreached;
use vstd::prelude::*;

verus! {

/// The most handles that one allocation can have.
pub const MAX_HANDLES: usize = usize::MAX;

/// What a slot holds while it is allocated. The count is never zero.
struct RcInner<T> {
    value: T,
    refcount: Cell<usize>,
}

impl<T> RcInner<T> {
    #[verifier::type_invariant]
    spec fn inv(self) -> bool {
        self.refcount@ >= 1
    }

    spec fn model(self) -> Allocation<T> {
        Allocation { value: self.value, count: self.refcount@ as nat }
    }
}

/// The place where the allocations live. A slot is given out once and never
/// again, so a handle can only ever reach the allocation it was made for.
pub struct Heap<T> {
    slots: Vec<Option<Box<RcInner<T>>>>,
}

impl<T> View for Heap<T> {
    type V = Map<nat, Allocation<T>>;

    /// The live allocations, by slot.
    closed spec fn view(&self) -> Map<nat, Allocation<T>> {
        Map::new(
            |slot: nat| slot < self.slots@.len() && self.slots@[slot as int] is Some,
            |slot: nat| self.slots@[slot as int]->0.model(),
        )
    }
}

impl<T> Heap<T> {
    /// How many slots have been given out so far. The next allocation gets
    /// the slot of this number.
    pub closed spec fn given_out(&self) -> nat {
        self.slots@.len()
    }

    /// Every live allocation is in a slot that was given out.
    pub proof fn lemma_live_slots_given_out(&self)
        ensures
            forall|slot: nat| self@.contains_key(slot) ==> slot < self.given_out(),
    {
    }

    /// A heap without allocations.
    pub fn new() -> (heap: Self)
        ensures
            heap@ == Map::<nat, Allocation<T>>::empty(),
            heap.given_out() == 0,
    {
        let heap = Heap { slots: Vec::new() };
        assert(heap@ =~= Map::<nat, Allocation<T>>::empty());
        heap
    }

    /// How many handles refer to the allocation of `rc`: zero once it is gone.
    pub fn count(&self, rc: &Rc<T>) -> (count: usize)
        ensures
            count == if self@.contains_key(rc.slot()) {
                self@[rc.slot()].count
            } else {
                0
            },
            count == 0 <==> !self@.contains_key(rc.slot()),
    {
        if rc.slot < self.slots.len() {
            match &self.slots[rc.slot] {
                Some(inner) => {
                    proof {
                        use_type_invariant(&**inner);
                    }
                    inner.refcount.get()
                },
                None => 0,
            }
        } else {
            0
        }
    }
}

/// A handle: one of the owners of an allocation. It is a token that names
/// the slot; the heap is handed to each of its operations. A handle that goes
/// out of scope without `drop` keeps its allocation alive for good.
#[must_use]
pub struct Rc<T> {
    slot: usize,
    _marker: PhantomData<T>,
}

impl<T> Rc<T> {
    /// The slot of the allocation that the handle refers to.
    pub closed spec fn slot(&self) -> nat {
        self.slot as nat
    }

    /// Allocates `value` and returns the first handle to it.
    pub fn new(heap: &mut Heap<T>, value: T) -> (rc: Self)
        ensures
            rc.slot() == old(heap).given_out(),
            !old(heap)@.contains_key(rc.slot()),
            final(heap).given_out() == old(heap).given_out() + 1,
            final(heap)@ == old(heap)@.insert(rc.slot(), Allocation::fresh(value)),
    {
        let slot = heap.slots.len();
        let inner = RcInner { value, refcount: Cell::new(1) };
        heap.slots.push(Some(Box::new(inner)));
        assert(heap@ =~= old(heap)@.insert(slot as nat, Allocation::fresh(value)));
        Rc { slot, _marker: PhantomData }
    }

    /// Another handle to the same allocation.
    pub fn clone(&self, heap: &mut Heap<T>) -> (rc: Self)
        requires
            old(heap)@.contains_key(self.slot()),
            old(heap)@[self.slot()].count < MAX_HANDLES,
        ensures
            rc.slot() == self.slot(),
            final(heap)@ == old(heap)@.insert(self.slot(), old(heap)@[self.slot()].cloned()),
            final(heap).given_out() == old(heap).given_out(),
    {
        match heap.slots[self.slot].as_mut() {
            Some(inner) => {
                let c = inner.refcount.get();
                inner.refcount.set(c + 1);
            },
            None => unreached(),
        }
        assert(heap@ =~= old(heap)@.insert(self.slot(), old(heap)@[self.slot()].cloned()));
        Rc { slot: self.slot, _marker: PhantomData }
    }

    /// Gives the handle up. The allocation goes with its last handle, and
    /// only with that one.
    pub fn drop(self, heap: &mut Heap<T>)
        requires
            old(heap)@.contains_key(self.slot()),
        ensures
            final(heap)@ == match old(heap)@[self.slot()].dropped() {
                Some(rest) => old(heap)@.insert(self.slot(), rest),
                None => old(heap)@.remove(self.slot()),
            },
            final(heap).given_out() == old(heap).given_out(),
    {
        let c = match &heap.slots[self.slot] {
            Some(inner) => {
                proof {
                    use_type_invariant(&**inner);
                }
                inner.refcount.get()
            },
            None => unreached(),
        };
        if c == 1 {
            heap.slots[self.slot] = None;
            assert(heap@ =~= old(heap)@.remove(self.slot()));
        } else {
            match heap.slots[self.slot].as_mut() {
                Some(inner) => {
                    inner.refcount.set(c - 1);
                },
                None => unreached(),
            }
            assert(heap@ =~= old(heap)@.insert(
                self.slot(),
                old(heap)@[self.slot()].dropped()->0,
            ));
        }
    }

    /// The payload, for reading.
    pub fn deref<'a>(&self, heap: &'a Heap<T>) -> (value: &'a T)
        requires
            heap@.contains_key(self.slot()),
        ensures
            *value == heap@[self.slot()].value,
    {
        match &heap.slots[self.slot] {
            Some(inner) => &inner.value,
            None => unreached(),
        }
    }
}

} // verus!
