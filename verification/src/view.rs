//! A writable view over one column, checked out of the world.
//!
//! While a `ColumnMut` is alive the world keeps only a marker for its
//! column, so a second view of the same column cannot be produced; views of
//! other columns, writable or not, coexist with it freely.  The view is
//! handed back with [`crate::world::World::release_component_vec_mut`].

use vstd::prelude::*;

use crate::errors::WorldError;

verus! {

/// The mathematical model of a writable view: the tag of the column it came
/// from and the slots it carries.
#[verifier::ext_equal]
pub ghost struct ColumnMutModel<C> {
    pub tag: u64,
    pub slots: Seq<Option<C>>,
}

/// A writable view: the slots of one column, moved out of the world for the
/// duration of the borrow, together with the column's tag.
#[derive(Debug)]
pub struct ColumnMut<C> {
    tag: u64,
    slots: Vec<Option<C>>,
}

impl<C> View for ColumnMut<C> {
    type V = ColumnMutModel<C>;

    closed spec fn view(&self) -> ColumnMutModel<C> {
        ColumnMutModel { tag: self.tag, slots: self.slots@ }
    }
}

impl<C> ColumnMut<C> {
    /// Wrap slots checked out of the column for `tag`.
    pub(crate) fn make(tag: u64, slots: Vec<Option<C>>) -> (v: Self)
        ensures
            v@.tag == tag,
            v@.slots == slots@,
    {
        ColumnMut { tag, slots }
    }

    /// Give the slots back, for the world to restore.
    pub(crate) fn into_slots(self) -> (v: Vec<Option<C>>)
        ensures
            v@ == self@.slots,
    {
        self.slots
    }

    /// The tag of the column this view came from.
    pub fn tag(&self) -> (t: u64)
        ensures
            t == self@.tag,
    {
        self.tag
    }

    /// How many slots the view holds.
    pub fn len(&self) -> (n: usize)
        ensures
            n == self@.slots.len(),
    {
        self.slots.len()
    }

    /// Read-only access to the slots, for traversal and joining.
    pub fn slots(&self) -> (s: &Vec<Option<C>>)
        ensures
            s@ == self@.slots,
    {
        &self.slots
    }

    /// Replace the value in slot `i`, which must already hold one: a write
    /// through a view never changes a slot's presence, only its value.
    ///
    /// An out-of-range index or an empty slot is reported and nothing
    /// changes.
    pub fn write(&mut self, i: usize, c: C) -> (r: Result<(), WorldError>)
        ensures
            final(self)@.tag == old(self)@.tag,
            r is Ok <==> i < old(self)@.slots.len() && old(self)@.slots[i as int] is Some,
            r is Ok ==> final(self)@.slots == old(self)@.slots.update(i as int, Some(c)),
            r is Err ==> final(self)@ == old(self)@,
            i >= old(self)@.slots.len() ==> r == Err::<(), WorldError>(WorldError::InvalidEntity),
            i < old(self)@.slots.len() && old(self)@.slots[i as int] is None ==> r == Err::<
                (),
                WorldError,
            >(WorldError::SlotEmpty),
    {
        if i >= self.slots.len() {
            return Err(WorldError::InvalidEntity);
        }
        if self.slots[i].is_none() {
            return Err(WorldError::SlotEmpty);
        }
        self.slots.set(i, Some(c));
        Ok(())
    }
}

} // verus!
