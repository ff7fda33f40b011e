//! One component column: the per-tag dense storage of optional values.

use vstd::prelude::*;

verus! {

/// The sequence of `n` empty slots: what a freshly created column holds.
pub open spec fn blank_slots<C>(n: nat) -> Seq<Option<C>> {
    Seq::new(n, |i: int| None)
}

/// The mathematical model of a column: its tag, whether its slots are
/// currently lent out to a writable view, and the slots themselves.
///
/// While the slots are lent out they live in the view, not here, so a lent
/// column models its stored slots as the empty sequence.
#[verifier::ext_equal]
pub ghost struct ColumnModel<C> {
    pub tag: u64,
    pub lent: bool,
    pub slots: Seq<Option<C>>,
}

/// A column of optional component values, one slot per entity, together with
/// the runtime tag that identifies which kind of component it stores and the
/// flag of the runtime borrow discipline.
pub struct Column<C> {
    tag: u64,
    lent: bool,
    slots: Vec<Option<C>>,
}

impl<C> View for Column<C> {
    type V = ColumnModel<C>;

    closed spec fn view(&self) -> ColumnModel<C> {
        ColumnModel { tag: self.tag, lent: self.lent, slots: self.slots@ }
    }
}

impl<C> Column<C> {
    /// A fresh column for `tag` holding `n` empty slots, not lent out.
    pub fn new(tag: u64, n: usize) -> (c: Self)
        ensures
            c@.tag == tag,
            !c@.lent,
            c@.slots == blank_slots::<C>(n as nat),
    {
        let mut slots: Vec<Option<C>> = Vec::new();
        while slots.len() < n
            invariant
                slots@.len() <= n,
                forall|j: int| 0 <= j < slots@.len() ==> slots@[j] is None,
            decreases n - slots@.len(),
        {
            slots.push(None);
        }
        proof {
            assert(slots@ =~= blank_slots::<C>(n as nat));
        }
        Column { tag, lent: false, slots }
    }

    /// The tag of this column.
    pub fn tag(&self) -> (t: u64)
        ensures
            t == self@.tag,
    {
        self.tag
    }

    /// Whether the slots are currently lent out to a writable view.
    pub fn is_lent(&self) -> (b: bool)
        ensures
            b == self@.lent,
    {
        self.lent
    }

    /// How many slots the column currently stores.
    pub fn len(&self) -> (n: usize)
        ensures
            n == self@.slots.len(),
    {
        self.slots.len()
    }

    /// Read-only access to the stored slots.
    pub fn slots(&self) -> (s: &Vec<Option<C>>)
        ensures
            s@ == self@.slots,
    {
        &self.slots
    }

    /// Append one empty slot, making room for a newly created entity.
    pub fn push_empty_slot(&mut self)
        ensures
            final(self)@.tag == old(self)@.tag,
            final(self)@.lent == old(self)@.lent,
            final(self)@.slots == old(self)@.slots.push(None),
    {
        self.slots.push(None);
    }

    /// Overwrite slot `i` with a present value.
    pub fn write_slot(&mut self, i: usize, c: C)
        requires
            i < old(self)@.slots.len(),
        ensures
            final(self)@.tag == old(self)@.tag,
            final(self)@.lent == old(self)@.lent,
            final(self)@.slots == old(self)@.slots.update(i as int, Some(c)),
    {
        self.slots.set(i, Some(c));
    }

    /// Move the slots out, marking the column as lent to a writable view.
    pub fn lend_slots(&mut self) -> (v: Vec<Option<C>>)
        requires
            !old(self)@.lent,
        ensures
            v@ == old(self)@.slots,
            final(self)@.tag == old(self)@.tag,
            final(self)@.lent,
            final(self)@.slots == Seq::<Option<C>>::empty(),
    {
        self.lent = true;
        let mut v: Vec<Option<C>> = Vec::new();
        core::mem::swap(&mut v, &mut self.slots);
        v
    }

    /// Put slots back after a writable view is returned, clearing the flag.
    pub fn restore_slots(&mut self, v: Vec<Option<C>>)
        requires
            old(self)@.lent,
        ensures
            final(self)@.tag == old(self)@.tag,
            !final(self)@.lent,
            final(self)@.slots == v@,
    {
        self.lent = false;
        self.slots = v;
    }
}

} // verus!
