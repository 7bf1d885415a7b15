//! Single-threaded building blocks for shared, mutable state.
//!
//! Every operation that changes shared state takes the owner of that state by
//! exclusive reference, so the whole history of a value is visible to the
//! verifier. Handles and guards are plain tokens: they carry no pointer, only
//! the right to use the state they were granted on.

pub mod allocation;
pub mod borrow_state;
pub mod cell;
pub mod rc;
pub mod refcell;
