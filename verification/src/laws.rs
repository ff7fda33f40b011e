//! The laws of the storage engine, stated over the world model and proved
//! once and for all.

use vstd::prelude::*;

use crate::column::ColumnModel;
use crate::world::WorldModel;

verus! {

/// How many columns carry `tag`.
pub open spec fn count_tag<C>(cols: Seq<ColumnModel<C>>, tag: u64) -> nat
    decreases cols.len(),
{
    if cols.len() == 0 {
        0
    } else {
        count_tag(cols.drop_last(), tag) + (if cols.last().tag == tag {
            1nat
        } else {
            0nat
        })
    }
}

/// Law: in a well-formed world every column that is home holds exactly one
/// slot per entity, whatever sequence of operations produced the world —
/// each operation's contract ends in `wf`, so this holds after every one of
/// them.
pub proof fn lemma_columns_match_entity_count<C>(w: WorldModel<C>)
    requires
        w.wf(),
    ensures
        forall|i: int|
            0 <= i < w.columns.len() && !w.columns[i].lent ==> #[trigger] w.columns[i].slots.len()
                == w.entities,
{
}

/// Pairwise-distinct tags with a column for `tag` present mean the count
/// for `tag` is exactly one.
proof fn lemma_count_tag_of_distinct<C>(cols: Seq<ColumnModel<C>>, tag: u64)
    requires
        forall|i: int, j: int| 0 <= i < j < cols.len() ==> cols[i].tag != cols[j].tag,
        exists|i: int| 0 <= i < cols.len() && #[trigger] cols[i].tag == tag,
    ensures
        count_tag(cols, tag) == 1,
    decreases cols.len(),
{
    let w = choose|i: int| 0 <= i < cols.len() && #[trigger] cols[i].tag == tag;
    if cols.last().tag == tag {
        assert forall|i: int| 0 <= i < cols.len() - 1 implies #[trigger] cols[i].tag != tag by {
            assert(cols[i].tag != cols[cols.len() - 1].tag);
        }
        lemma_count_tag_of_absent(cols.drop_last(), tag);
    } else {
        assert(w < cols.len() - 1);
        assert(cols.drop_last()[w].tag == tag);
        lemma_count_tag_of_distinct(cols.drop_last(), tag);
    }
}

/// No column for `tag` means the count for `tag` is zero.
proof fn lemma_count_tag_of_absent<C>(cols: Seq<ColumnModel<C>>, tag: u64)
    requires
        forall|i: int| 0 <= i < cols.len() ==> #[trigger] cols[i].tag != tag,
    ensures
        count_tag(cols, tag) == 0,
    decreases cols.len(),
{
    if cols.len() > 0 {
        lemma_count_tag_of_absent(cols.drop_last(), tag);
    }
}

/// Law: attaching a component never makes a duplicate column — afterwards
/// exactly one column carries the component's tag, whether the attachment
/// reused an existing column or created the first one.
pub proof fn lemma_no_duplicate_column<C>(w: WorldModel<C>, e: int, tag: u64, c: C)
    requires
        w.wf(),
        0 <= e < w.entities,
    ensures
        count_tag(w.after_attach(e, tag, c).columns, tag) == 1,
{
    let wa = w.after_attach(e, tag, c);
    if w.has_column(tag) {
        let k = w.column_index(tag);
        assert(wa.columns[k].tag == tag);
        assert forall|i: int, j: int| 0 <= i < j < wa.columns.len() implies wa.columns[i].tag
            != wa.columns[j].tag by {
            assert(wa.columns[i].tag == w.columns[i].tag);
            assert(wa.columns[j].tag == w.columns[j].tag);
        }
        lemma_count_tag_of_distinct(wa.columns, tag);
    } else {
        assert(wa.columns[w.columns.len() as int].tag == tag);
        assert forall|i: int, j: int| 0 <= i < j < wa.columns.len() implies wa.columns[i].tag
            != wa.columns[j].tag by {
            if j < w.columns.len() {
                assert(wa.columns[i].tag == w.columns[i].tag);
                assert(wa.columns[j].tag == w.columns[j].tag);
            } else {
                assert(wa.columns[i].tag == w.columns[i].tag);
                assert(!w.has_column(tag) ==> w.columns[i].tag != tag);
            }
        }
        lemma_count_tag_of_distinct(wa.columns, tag);
    }
}

/// Law: attaching a component and then reading the column for its tag at
/// the entity's slot yields exactly the attached value.
pub proof fn lemma_attach_then_read<C>(w: WorldModel<C>, e: int, tag: u64, c: C)
    requires
        w.wf(),
        0 <= e < w.entities,
        !(w.has_column(tag) && w.column(tag).lent),
    ensures
        w.after_attach(e, tag, c).component_at(tag, e) == Some(c),
{
    let wa = w.after_attach(e, tag, c);
    if w.has_column(tag) {
        let k = w.column_index(tag);
        assert(wa.columns[k].tag == tag);
        assert(wa.has_column(tag));
        let k2 = wa.column_index(tag);
        if k2 != k {
            assert(wa.columns[k2] == w.columns[k2]);
            assert(w.columns[k2].tag != w.columns[k].tag);
        }
        assert(!w.columns[k].lent);
        assert(w.columns[k].slots.len() == w.entities);
        assert(wa.column(tag).slots[e] == Some(c));
    } else {
        let k = w.columns.len() as int;
        assert(wa.columns[k].tag == tag);
        assert(wa.has_column(tag));
        let k2 = wa.column_index(tag);
        if k2 != k {
            assert(wa.columns[k2] == w.columns[k2]);
            assert(w.columns[k2].tag == tag);
        }
        assert(wa.column(tag).slots[e] == Some(c));
    }
}

/// Law: creating an entity disturbs no attached component — every slot
/// reads the same before and after, and the new entity's slot in every
/// column is empty.
pub proof fn lemma_create_preserves_components<C>(w: WorldModel<C>, tag: u64, e: int)
    requires
        w.wf(),
    ensures
        w.after_create().component_at(tag, e) == w.component_at(tag, e),
{
    let wc = w.after_create();
    assert(forall|i: int|
        0 <= i < w.columns.len() ==> wc.columns[i].tag == #[trigger] w.columns[i].tag);
    if w.has_column(tag) {
        let k = w.column_index(tag);
        assert(wc.columns[k].tag == tag);
        assert(wc.has_column(tag));
        let k2 = wc.column_index(tag);
        if k2 != k {
            assert(w.columns[k2].tag == tag);
            assert(w.columns[k2].tag != w.columns[k].tag);
        }
        if w.columns[k].lent {
            assert(wc.columns[k] == w.columns[k]);
        } else {
            assert(wc.columns[k].slots == w.columns[k].slots.push(None));
            assert(w.columns[k].slots.len() == w.entities);
        }
    } else {
        if wc.has_column(tag) {
            let k2 = wc.column_index(tag);
            assert(w.columns[k2].tag == tag);
        }
    }
}

/// Law: checking a column out for writing touches no other column — views
/// of different columns are independent, which is what lets a writable view
/// of one column live beside views of the others.
pub proof fn lemma_lend_leaves_others<C>(w: WorldModel<C>, tag: u64, other: u64)
    requires
        w.wf(),
        w.has_column(tag),
        w.has_column(other),
        other != tag,
    ensures
        w.after_lend(tag).has_column(other),
        w.after_lend(tag).column(other) == w.column(other),
{
    let k = w.column_index(tag);
    let m = w.column_index(other);
    assert(w.columns[k].tag == tag);
    assert(w.columns[m].tag == other);
    let wl = w.after_lend(tag);
    assert(wl.columns[m] == w.columns[m]);
    assert(wl.has_column(other));
    let m2 = wl.column_index(other);
    if m2 != m {
        assert(wl.columns[m2].tag == wl.columns[m].tag);
        if m2 == k {
            assert(wl.columns[k].tag == tag);
        } else {
            assert(w.columns[m2].tag != w.columns[m].tag);
        }
    }
}

/// Law: checking a column out and handing it straight back leaves the world
/// exactly as it was.
pub proof fn lemma_lend_then_restore<C>(w: WorldModel<C>, tag: u64)
    requires
        w.wf(),
        w.has_column(tag),
        !w.column(tag).lent,
    ensures
        w.after_lend(tag).after_restore(tag, w.column(tag).slots) == w,
{
    let k = w.column_index(tag);
    assert(w.columns[k].tag == tag);
    let wl = w.after_lend(tag);
    assert(wl.columns[k].tag == tag);
    assert(wl.has_column(tag));
    let k2 = wl.column_index(tag);
    if k2 != k {
        assert(wl.columns[k2] == w.columns[k2]);
        assert(w.columns[k2].tag != w.columns[k].tag);
    }
    assert(w.column(tag).slots.len() == w.entities);
    assert(wl.after_restore(tag, w.column(tag).slots).columns =~~= w.columns);
    assert(wl.after_restore(tag, w.column(tag).slots) =~~= w);
}

/// Law: attaching twice to the same entity under the same tag is the same
/// as attaching the second value alone — the overwrite leaves no trace of
/// the first.
pub proof fn lemma_attach_overwrites<C>(w: WorldModel<C>, e: int, tag: u64, c1: C, c2: C)
    requires
        w.wf(),
        0 <= e < w.entities,
        !(w.has_column(tag) && w.column(tag).lent),
    ensures
        w.after_attach(e, tag, c1).after_attach(e, tag, c2) == w.after_attach(e, tag, c2),
{
    let w1 = w.after_attach(e, tag, c1);
    let w2 = w1.after_attach(e, tag, c2);
    if w.has_column(tag) {
        let k = w.column_index(tag);
        assert(w1.columns[k].tag == tag);
        assert(w1.has_column(tag));
        let k1 = w1.column_index(tag);
        if k1 != k {
            assert(w1.columns[k1] == w.columns[k1]);
            assert(w.columns[k1].tag != w.columns[k].tag);
        }
        assert(w2.columns =~~= w.after_attach(e, tag, c2).columns);
        assert(w2 =~~= w.after_attach(e, tag, c2));
    } else {
        let k = w.columns.len() as int;
        assert(w1.columns[k].tag == tag);
        assert(w1.has_column(tag));
        let k1 = w1.column_index(tag);
        if k1 != k {
            assert(w1.columns[k1] == w.columns[k1]);
            assert(w.columns[k1].tag == tag);
        }
        assert(w2.columns =~~= w.after_attach(e, tag, c2).columns);
        assert(w2 =~~= w.after_attach(e, tag, c2));
    }
}

} // verus!
