//! The world: the entity counter and the collection of component columns.

use vstd::prelude::*;

use crate::column::{blank_slots, Column, ColumnModel};
use crate::component::Component;
use crate::errors::WorldError;
use crate::view::ColumnMut;

verus! {

/// The mathematical model of a world: how many entities exist and the
/// ordered sequence of column models.
#[verifier::ext_equal]
pub ghost struct WorldModel<C> {
    pub entities: nat,
    pub columns: Seq<ColumnModel<C>>,
}

impl<C> WorldModel<C> {
    /// The invariant every world maintains: at most one column per tag, and
    /// every column that is not lent out holds exactly one slot per entity.
    /// A lent column's stored slots are with its view, so none are here.
    pub open spec fn wf(self) -> bool {
        &&& forall|i: int, j: int|
            0 <= i < j < self.columns.len() ==> self.columns[i].tag != self.columns[j].tag
        &&& forall|i: int|
            0 <= i < self.columns.len() && !self.columns[i].lent
                ==> #[trigger] self.columns[i].slots.len() == self.entities
        &&& forall|i: int|
            0 <= i < self.columns.len() && self.columns[i].lent
                ==> #[trigger] self.columns[i].slots.len() == 0
    }

    /// Whether a column for `tag` exists.
    pub open spec fn has_column(self, tag: u64) -> bool {
        exists|i: int| 0 <= i < self.columns.len() && #[trigger] self.columns[i].tag == tag
    }

    /// The index of the column for `tag` (meaningful when one exists; under
    /// `wf` it is unique).
    pub open spec fn column_index(self, tag: u64) -> int {
        choose|i: int| 0 <= i < self.columns.len() && #[trigger] self.columns[i].tag == tag
    }

    /// The column for `tag` (meaningful when one exists).
    pub open spec fn column(self, tag: u64) -> ColumnModel<C> {
        self.columns[self.column_index(tag)]
    }

    /// The component of kind `tag` attached to entity `e`, if any.
    pub open spec fn component_at(self, tag: u64, e: int) -> Option<C> {
        if self.has_column(tag) && 0 <= e < self.column(tag).slots.len() {
            self.column(tag).slots[e]
        } else {
            None
        }
    }

    /// The world after one entity is created: the counter moves up and every
    /// column that is home gains one empty slot.
    pub open spec fn after_create(self) -> WorldModel<C> {
        WorldModel {
            entities: self.entities + 1,
            columns: Seq::new(
                self.columns.len(),
                |i: int|
                    if self.columns[i].lent {
                        self.columns[i]
                    } else {
                        ColumnModel {
                            tag: self.columns[i].tag,
                            lent: self.columns[i].lent,
                            slots: self.columns[i].slots.push(None),
                        }
                    },
            ),
        }
    }

    /// The world after the column for `tag` lends its slots to a writable
    /// view: only the marker stays behind.
    pub open spec fn after_lend(self, tag: u64) -> WorldModel<C> {
        WorldModel {
            entities: self.entities,
            columns: self.columns.update(
                self.column_index(tag),
                ColumnModel { tag: tag, lent: true, slots: Seq::empty() },
            ),
        }
    }

    /// The world after a writable view with slots `slots` comes home to the
    /// column for `tag`: the slots return, padded with one empty slot for
    /// each entity created while they were away.
    pub open spec fn after_restore(self, tag: u64, slots: Seq<Option<C>>) -> WorldModel<C> {
        WorldModel {
            entities: self.entities,
            columns: self.columns.update(
                self.column_index(tag),
                ColumnModel {
                    tag: tag,
                    lent: false,
                    slots: slots + blank_slots::<C>((self.entities - slots.len()) as nat),
                },
            ),
        }
    }

    /// The world after component `c` with tag `tag` is attached to entity
    /// `e`: the existing column for `tag` has slot `e` overwritten, or, when
    /// no such column exists, a freshly backfilled column is appended.
    pub open spec fn after_attach(self, e: int, tag: u64, c: C) -> WorldModel<C> {
        if self.has_column(tag) {
            let k = self.column_index(tag);
            WorldModel {
                entities: self.entities,
                columns: self.columns.update(
                    k,
                    ColumnModel {
                        tag: tag,
                        lent: false,
                        slots: self.columns[k].slots.update(e, Some(c)),
                    },
                ),
            }
        } else {
            WorldModel {
                entities: self.entities,
                columns: self.columns.push(
                    ColumnModel {
                        tag: tag,
                        lent: false,
                        slots: blank_slots::<C>(self.entities).update(e, Some(c)),
                    },
                ),
            }
        }
    }
}

/// The world owns the entity counter and one column per component tag.
pub struct World<C> {
    entities_count: usize,
    columns: Vec<Column<C>>,
}

impl<C> View for World<C> {
    type V = WorldModel<C>;

    closed spec fn view(&self) -> WorldModel<C> {
        WorldModel {
            entities: self.entities_count as nat,
            columns: Seq::new(self.columns@.len(), |i: int| self.columns@[i]@),
        }
    }
}

impl<C> World<C> {
    /// An empty world: no entities, no columns.
    pub fn new() -> (w: Self)
        ensures
            w@.wf(),
            w@.entities == 0,
            w@.columns.len() == 0,
    {
        World { entities_count: 0, columns: Vec::new() }
    }

    /// How many entities have been created.
    pub fn entities_count(&self) -> (n: usize)
        ensures
            n == self@.entities,
    {
        self.entities_count
    }

    /// How many columns exist — at most one per tag.
    pub fn columns_count(&self) -> (n: usize)
        ensures
            n == self@.columns.len(),
    {
        self.columns.len()
    }

    /// Create a new entity and return its id, which is the next dense index.
    ///
    /// Every column that is home gains one empty slot for it, so all columns
    /// keep exactly one slot per entity; a column whose slots are out with a
    /// writable view is reconciled when the view is returned.
    pub fn create_entity(&mut self) -> (id: usize)
        requires
            old(self)@.wf(),
            old(self)@.entities < usize::MAX,
        ensures
            final(self)@.wf(),
            id == old(self)@.entities,
            final(self)@ == old(self)@.after_create(),
    {
        let id = self.entities_count;
        let ghost pre = self@;
        let n = self.columns.len();
        let mut i: usize = 0;
        while i < n
            invariant
                n == pre.columns.len(),
                i <= n,
                self.entities_count == pre.entities,
                self@.columns.len() == n,
                forall|j: int|
                    i <= j < n ==> self@.columns[j] == pre.columns[j],
                forall|j: int|
                    0 <= j < i ==> self@.columns[j] == pre.after_create().columns[j],
            decreases n - i,
        {
            if !self.columns[i].is_lent() {
                self.columns[i].push_empty_slot();
            }
            i += 1;
        }
        self.entities_count = self.entities_count + 1;
        proof {
            assert(self@ =~= pre.after_create());
            assert forall|k: int|
                0 <= k < self@.columns.len() && !self@.columns[k].lent implies #[trigger] self@.columns[k].slots.len()
                == self@.entities by {
                assert(pre.columns[k].slots.len() == pre.entities);
            }
        }
        id
    }

    /// Attach `component` under the column identified by `tag`.
    ///
    /// The entity must have been created, and the column for `tag`, if it
    /// exists, must not be out with a writable view; otherwise the world is
    /// left untouched and the offending condition is reported.  On success
    /// the existing column's slot for the entity is overwritten — so a
    /// second attachment of the same kind replaces the first and no
    /// duplicate column ever appears — or a new column, backfilled with one
    /// empty slot per pre-existing entity, is appended.
    pub fn add_component_with_tag(&mut self, entity: usize, tag: u64, component: C) -> (r: Result<
        (),
        WorldError,
    >)
        requires
            old(self)@.wf(),
        ensures
            final(self)@.wf(),
            r is Ok <==> entity < old(self)@.entities && !(old(self)@.has_column(tag)
                && old(self)@.column(tag).lent),
            r is Ok ==> final(self)@ == old(self)@.after_attach(entity as int, tag, component),
            r is Ok ==> final(self)@.component_at(tag, entity as int) == Some(component),
            r is Err ==> final(self)@ == old(self)@,
            entity >= old(self)@.entities ==> r == Err::<(), WorldError>(WorldError::InvalidEntity),
            entity < old(self)@.entities && old(self)@.has_column(tag) && old(self)@.column(
                tag,
            ).lent ==> r == Err::<(), WorldError>(WorldError::ColumnBorrowed),
    {
        if entity >= self.entities_count {
            return Err(WorldError::InvalidEntity);
        }
        let ghost pre = self@;
        let n = self.columns.len();
        let mut i: usize = 0;
        while i < n
            invariant
                pre == self@,
                pre == old(self)@,
                pre.wf(),
                n == self@.columns.len(),
                i <= n,
                entity < self@.entities,
                forall|j: int| 0 <= j < i ==> #[trigger] self@.columns[j].tag != tag,
            decreases n - i,
        {
            if self.columns[i].tag() == tag {
                proof {
                    assert(pre.columns[i as int].tag == tag);
                    assert(pre.has_column(tag));
                    assert(pre.column_index(tag) == i as int) by {
                        if pre.column_index(tag) != i as int {
                            assert(pre.columns[pre.column_index(tag)].tag != pre.columns[i as int].tag);
                        }
                    }
                }
                if self.columns[i].is_lent() {
                    return Err(WorldError::ColumnBorrowed);
                }
                self.columns[i].write_slot(entity, component);
                proof {
                    assert(self@ =~= pre.after_attach(entity as int, tag, component));
                    crate::laws::lemma_attach_then_read(pre, entity as int, tag, component);
                }
                return Ok(());
            }
            i += 1;
        }
        proof {
            assert(!pre.has_column(tag));
        }
        let mut col = Column::new(tag, self.entities_count);
        col.write_slot(entity, component);
        self.columns.push(col);
        proof {
            assert(self@ =~= pre.after_attach(entity as int, tag, component));
            crate::laws::lemma_attach_then_read(pre, entity as int, tag, component);
        }
        Ok(())
    }

    /// Attach `component` to an entity; the column is chosen by the value's
    /// own tag, so the caller never names a column explicitly.
    pub fn add_component_to_entity(&mut self, entity: usize, component: C) -> (r: Result<
        (),
        WorldError,
    >) where C: Component
        requires
            old(self)@.wf(),
        ensures
            final(self)@.wf(),
            r is Ok <==> entity < old(self)@.entities && !(old(self)@.has_column(
                component.tag_spec(),
            ) && old(self)@.column(component.tag_spec()).lent),
            r is Ok ==> final(self)@ == old(self)@.after_attach(
                entity as int,
                component.tag_spec(),
                component,
            ),
            r is Ok ==> final(self)@.component_at(component.tag_spec(), entity as int) == Some(
                component,
            ),
            r is Err ==> final(self)@ == old(self)@,
            entity >= old(self)@.entities ==> r == Err::<(), WorldError>(WorldError::InvalidEntity),
            entity < old(self)@.entities && old(self)@.has_column(component.tag_spec()) && old(
                self,
            )@.column(component.tag_spec()).lent ==> r == Err::<(), WorldError>(
                WorldError::ColumnBorrowed,
            ),
    {
        let t = component.tag();
        self.add_component_with_tag(entity, t, component)
    }

    /// Borrow the column for `tag` read-only.
    ///
    /// `Ok(None)` means no entity was ever given a component of this kind —
    /// an ordinary outcome, not a fault.  A column whose slots are out with
    /// a writable view cannot be read and is reported as borrowed.
    pub fn borrow_component_vec(&self, tag: u64) -> (r: Result<
        Option<&Vec<Option<C>>>,
        WorldError,
    >)
        requires
            self@.wf(),
        ensures
            !self@.has_column(tag) ==> r == Ok::<Option<&Vec<Option<C>>>, WorldError>(None),
            self@.has_column(tag) && self@.column(tag).lent ==> r == Err::<
                Option<&Vec<Option<C>>>,
                WorldError,
            >(WorldError::ColumnBorrowed),
            self@.has_column(tag) && !self@.column(tag).lent ==> (r matches Ok(Some(v))
                && v@ == self@.column(tag).slots),
    {
        let ghost pre = self@;
        let n = self.columns.len();
        let mut i: usize = 0;
        while i < n
            invariant
                pre == self@,
                pre.wf(),
                n == self@.columns.len(),
                i <= n,
                forall|j: int| 0 <= j < i ==> #[trigger] self@.columns[j].tag != tag,
            decreases n - i,
        {
            if self.columns[i].tag() == tag {
                proof {
                    assert(pre.columns[i as int].tag == tag);
                    assert(pre.has_column(tag));
                    assert(pre.column_index(tag) == i as int) by {
                        if pre.column_index(tag) != i as int {
                            assert(pre.columns[pre.column_index(tag)].tag != pre.columns[i as int].tag);
                        }
                    }
                }
                if self.columns[i].is_lent() {
                    return Err(WorldError::ColumnBorrowed);
                }
                return Ok(Some(self.columns[i].slots()));
            }
            i += 1;
        }
        proof {
            assert(!pre.has_column(tag));
        }
        Ok(None)
    }

    /// Check the column for `tag` out as a writable view.
    ///
    /// `Ok(None)` means no such column exists.  While the view is alive the
    /// column is marked as lent, so a second view of it — writable or
    /// read-only — is refused with a borrowed fault until
    /// [`World::release_component_vec_mut`] brings the slots home.
    pub fn borrow_component_vec_mut(&mut self, tag: u64) -> (r: Result<
        Option<ColumnMut<C>>,
        WorldError,
    >)
        requires
            old(self)@.wf(),
        ensures
            final(self)@.wf(),
            !old(self)@.has_column(tag) ==> r == Ok::<Option<ColumnMut<C>>, WorldError>(None)
                && final(self)@ == old(self)@,
            old(self)@.has_column(tag) && old(self)@.column(tag).lent ==> r == Err::<
                Option<ColumnMut<C>>,
                WorldError,
            >(WorldError::ColumnBorrowed) && final(self)@ == old(self)@,
            old(self)@.has_column(tag) && !old(self)@.column(tag).lent ==> (r matches Ok(Some(v))
                && v@.tag == tag && v@.slots == old(self)@.column(tag).slots && final(self)@ == old(
                self,
            )@.after_lend(tag)),
    {
        let ghost pre = self@;
        let n = self.columns.len();
        let mut i: usize = 0;
        while i < n
            invariant
                pre == self@,
                pre == old(self)@,
                pre.wf(),
                n == self@.columns.len(),
                i <= n,
                forall|j: int| 0 <= j < i ==> #[trigger] self@.columns[j].tag != tag,
            decreases n - i,
        {
            if self.columns[i].tag() == tag {
                proof {
                    assert(pre.columns[i as int].tag == tag);
                    assert(pre.has_column(tag));
                    assert(pre.column_index(tag) == i as int) by {
                        if pre.column_index(tag) != i as int {
                            assert(pre.columns[pre.column_index(tag)].tag != pre.columns[i as int].tag);
                        }
                    }
                }
                if self.columns[i].is_lent() {
                    return Err(WorldError::ColumnBorrowed);
                }
                let slots = self.columns[i].lend_slots();
                let v = ColumnMut::make(tag, slots);
                proof {
                    assert(self@ =~= pre.after_lend(tag));
                }
                return Ok(Some(v));
            }
            i += 1;
        }
        proof {
            assert(!pre.has_column(tag));
        }
        Ok(None)
    }

    /// Bring a writable view home to its column.
    ///
    /// The slots return to the column for the view's tag, padded with one
    /// empty slot for each entity created while they were away, and the
    /// column is open for borrowing again.  A view that matches no column of
    /// this world checked out for writing — or one whose slots outnumber the
    /// entities, which no view of this world can — is handed back unchanged.
    pub fn release_component_vec_mut(&mut self, view: ColumnMut<C>) -> (r: Result<(), ColumnMut<C>>)
        requires
            old(self)@.wf(),
        ensures
            final(self)@.wf(),
            r is Ok <==> old(self)@.has_column(view@.tag) && old(self)@.column(view@.tag).lent
                && view@.slots.len() <= old(self)@.entities,
            r is Ok ==> final(self)@ == old(self)@.after_restore(view@.tag, view@.slots),
            r matches Err(v) ==> v == view && final(self)@ == old(self)@,
    {
        let t = view.tag();
        if view.len() > self.entities_count {
            return Err(view);
        }
        let ghost pre = self@;
        let n = self.columns.len();
        let mut i: usize = 0;
        while i < n
            invariant
                pre == self@,
                pre == old(self)@,
                pre.wf(),
                n == self@.columns.len(),
                i <= n,
                t == view@.tag,
                view@.slots.len() <= self@.entities,
                forall|j: int| 0 <= j < i ==> #[trigger] self@.columns[j].tag != t,
            decreases n - i,
        {
            if self.columns[i].tag() == t {
                proof {
                    assert(pre.columns[i as int].tag == t);
                    assert(pre.has_column(t));
                    assert(pre.column_index(t) == i as int) by {
                        if pre.column_index(t) != i as int {
                            assert(pre.columns[pre.column_index(t)].tag != pre.columns[i as int].tag);
                        }
                    }
                }
                if !self.columns[i].is_lent() {
                    return Err(view);
                }
                let ghost vslots = view@.slots;
                let mut slots = view.into_slots();
                let target = self.entities_count;
                while slots.len() < target
                    invariant
                        vslots.len() <= slots@.len() <= target,
                        slots@ == vslots + blank_slots::<C>((slots@.len() - vslots.len()) as nat),
                    decreases target - slots@.len(),
                {
                    slots.push(None);
                    proof {
                        assert(slots@ =~= vslots + blank_slots::<C>(
                            (slots@.len() - vslots.len()) as nat,
                        ));
                    }
                }
                self.columns[i].restore_slots(slots);
                proof {
                    assert(self@ =~= pre.after_restore(t, vslots));
                }
                return Ok(());
            }
            i += 1;
        }
        proof {
            assert(!pre.has_column(t));
        }
        Err(view)
    }
}

} // verus!
