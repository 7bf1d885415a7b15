//! A cell that is read and written by whole values only.

use vstd::prelude::*;

verus! {

/// Holds one value and never lends it out: a read copies the value, a write
/// replaces it. With no reference into the cell ever alive, a write cannot
/// invalidate anything.
pub struct Cell<T> {
    value: T,
}

impl<T> View for Cell<T> {
    type V = T;

    /// The value that the cell holds.
    closed spec fn view(&self) -> T {
        self.value
    }
}

impl<T> Cell<T> {
    /// A cell that holds `value`.
    pub fn new(value: T) -> (cell: Self)
        ensures
            cell@ == value,
    {
        Cell { value }
    }

    /// Replaces the held value with `value`.
    pub fn set(&mut self, value: T)
        ensures
            final(self)@ == value,
        no_unwind
    {
        self.value = value;
    }

    /// A copy of the held value.
    pub fn get(&self) -> (value: T) where T: Copy
        ensures
            value == self@,
    {
        self.value
    }
}

} // verus!
