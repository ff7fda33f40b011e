//! The ways a storage operation can fail.

use vstd::prelude::*;

verus! {

/// An error returned by an operation on the world or on a borrowed column.
///
/// Absence of a column is not an error (the borrow operations report it as
/// `None`); these variants cover the genuine faults: an entity id that was
/// never created, a column that is already checked out for writing, and a
/// write through a view that would change a slot's presence.
#[derive(Clone, Copy, Debug, PartialEq, Eq)]
pub enum WorldError {
    /// The entity id is not below the number of created entities.
    InvalidEntity,
    /// The column is checked out for writing, so touching it now would
    /// conflict with the outstanding view.
    ColumnBorrowed,
    /// The slot is empty: a write through a view may only replace a value
    /// that is already present.
    SlotEmpty,
}

} // verus!
