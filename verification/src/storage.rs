//! The raw data stores of a world.
//!
//! Dense components live in tables: one row per entity, one column per
//! component kind, each cell paired with its change ticks.  Sparse components
//! live in per-component sparse sets keyed by entity.  Resources live in two
//! id-indexed stores, one for ordinary resources and one for thread-bound
//! ones.  All values are kept untyped, as byte vectors.

use vstd::prelude::*;

use crate::component::ComponentId;
use crate::entity::Entity;
use crate::tick::{ComponentTicks, Tick};

verus! {

/// One column of a table: the values of one component kind, one per row,
/// each beside the tick pair recording when it was added and last changed.
pub struct Column {
    /// The component kind this column stores.
    pub component_id: ComponentId,
    /// The value at each row.
    pub data: Vec<Vec<u8>>,
    /// The tick at which each row's value was added.
    pub added: Vec<Tick>,
    /// The tick at which each row's value was last changed.
    pub changed: Vec<Tick>,
}

impl Column {
    /// All three vectors of the column hold one entry per table row.
    pub open spec fn wf(&self, rows: int) -> bool {
        &&& self.data@.len() == rows
        &&& self.added@.len() == rows
        &&& self.changed@.len() == rows
    }
}

/// A dense table: the storage of one archetype's table components.
pub struct Table {
    /// One column per component kind stored here.
    pub columns: Vec<Column>,
    /// The number of rows, shared by every column.
    pub rows: usize,
}

impl Table {
    /// Table well-formedness: column component ids are unique and every
    /// column has exactly one entry per row.
    pub open spec fn wf(&self) -> bool {
        &&& forall|i: int, j: int|
            0 <= i < j < self.columns@.len() ==> (#[trigger] self.columns@[i].component_id)
                != (#[trigger] self.columns@[j].component_id)
        &&& forall|i: int|
            0 <= i < self.columns@.len() ==> (#[trigger] self.columns@[i]).wf(self.rows as int)
    }

    /// Whether the table stores component kind `component_id`.
    pub open spec fn spec_has_column(&self, component_id: int) -> bool {
        exists|i: int|
            0 <= i < self.columns@.len() && self.columns@[i].component_id == component_id
    }

    /// The index of the column storing `component_id`; meaningful only when
    /// `spec_has_column(component_id)`.
    pub open spec fn spec_column_of(&self, component_id: int) -> int {
        choose|i: int|
            0 <= i < self.columns@.len() && self.columns@[i].component_id == component_id
    }

    /// The value of component `component_id` at `row`, or `None` when the
    /// table has no such column or the row is out of range.
    pub open spec fn spec_value(&self, component_id: int, row: int) -> Option<Seq<u8>> {
        if self.spec_has_column(component_id) && 0 <= row < self.rows {
            Some(self.columns@[self.spec_column_of(component_id)].data@[row]@)
        } else {
            None
        }
    }

    /// The tick pair of component `component_id` at `row`, or `None` when
    /// absent.
    pub open spec fn spec_ticks(&self, component_id: int, row: int) -> Option<ComponentTicks> {
        if self.spec_has_column(component_id) && 0 <= row < self.rows {
            Some(
                ComponentTicks {
                    added: self.columns@[self.spec_column_of(component_id)].added@[row],
                    changed: self.columns@[self.spec_column_of(component_id)].changed@[row],
                },
            )
        } else {
            None
        }
    }

    /// The index of the column storing `component_id`, or `None` when the
    /// table has no such column.
    fn find_column(&self, component_id: ComponentId) -> (r: Option<usize>)
        requires
            self.wf(),
        ensures
            r is Some <==> self.spec_has_column(component_id as int),
            r is Some ==> r->Some_0 == self.spec_column_of(component_id as int),
    {
        let n = self.columns.len();
        let mut i: usize = 0;
        while i < n
            invariant
                self.wf(),
                n == self.columns@.len(),
                0 <= i <= n,
                forall|j: int| 0 <= j < i ==> self.columns@[j].component_id != component_id,
            decreases n - i,
        {
            if self.columns[i].component_id == component_id {
                proof {
                    assert(self.columns@[i as int].component_id == component_id);
                    let w = self.spec_column_of(component_id as int);
                    assert(self.columns@[w].component_id == component_id);
                    if w < i {
                        assert(self.columns@[w].component_id != self.columns@[
                            i as int
                        ].component_id);
                    } else if i < w {
                        assert(self.columns@[i as int].component_id != self.columns@[
                            w
                        ].component_id);
                    }
                }
                return Some(i);
            }
            i += 1;
        }
        None
    }

    /// The value of component `component_id` at `row`, if present.
    pub fn get_component(&self, component_id: ComponentId, row: usize) -> (r: Option<&Vec<u8>>)
        requires
            self.wf(),
        ensures
            match r {
                Some(v) => self.spec_value(component_id as int, row as int) == Some(v@),
                None => self.spec_value(component_id as int, row as int) is None,
            },
    {
        match self.find_column(component_id) {
            Some(c) => {
                if row < self.rows {
                    proof {
                        assert(self.columns@[c as int].wf(self.rows as int));
                    }
                    Some(&self.columns[c].data[row])
                } else {
                    None
                }
            },
            None => None,
        }
    }

    /// The added tick of component `component_id` at `row`, if present.
    pub fn get_added_tick(&self, component_id: ComponentId, row: usize) -> (r: Option<Tick>)
        requires
            self.wf(),
        ensures
            match r {
                Some(t) => self.spec_ticks(component_id as int, row as int) is Some
                    && self.spec_ticks(component_id as int, row as int)->Some_0.added == t,
                None => self.spec_ticks(component_id as int, row as int) is None,
            },
    {
        match self.find_column(component_id) {
            Some(c) => {
                if row < self.rows {
                    proof {
                        assert(self.columns@[c as int].wf(self.rows as int));
                    }
                    Some(self.columns[c].added[row])
                } else {
                    None
                }
            },
            None => None,
        }
    }

    /// The changed tick of component `component_id` at `row`, if present.
    pub fn get_changed_tick(&self, component_id: ComponentId, row: usize) -> (r: Option<Tick>)
        requires
            self.wf(),
        ensures
            match r {
                Some(t) => self.spec_ticks(component_id as int, row as int) is Some
                    && self.spec_ticks(component_id as int, row as int)->Some_0.changed == t,
                None => self.spec_ticks(component_id as int, row as int) is None,
            },
    {
        match self.find_column(component_id) {
            Some(c) => {
                if row < self.rows {
                    proof {
                        assert(self.columns@[c as int].wf(self.rows as int));
                    }
                    Some(self.columns[c].changed[row])
                } else {
                    None
                }
            },
            None => None,
        }
    }

    /// The tick pair of component `component_id` at `row`, if present.
    pub fn get_ticks(&self, component_id: ComponentId, row: usize) -> (r: Option<ComponentTicks>)
        requires
            self.wf(),
        ensures
            r == self.spec_ticks(component_id as int, row as int),
    {
        match self.find_column(component_id) {
            Some(c) => {
                if row < self.rows {
                    proof {
                        assert(self.columns@[c as int].wf(self.rows as int));
                    }
                    Some(
                        ComponentTicks {
                            added: self.columns[c].added[row],
                            changed: self.columns[c].changed[row],
                        },
                    )
                } else {
                    None
                }
            },
            None => None,
        }
    }

    /// Overwrites the value of component `component_id` at `row` and stamps
    /// its changed tick with `change_tick`; the added tick and every other
    /// cell of the table are left as they were.
    pub fn set_component(
        &mut self,
        component_id: ComponentId,
        row: usize,
        value: Vec<u8>,
        change_tick: Tick,
    )
        requires
            old(self).wf(),
            old(self).spec_value(component_id as int, row as int) is Some,
        ensures
            final(self).wf(),
            final(self).rows == old(self).rows,
            forall|c: int| final(self).spec_has_column(c) == old(self).spec_has_column(c),
            final(self).spec_value(component_id as int, row as int) == Some(value@),
            final(self).spec_ticks(component_id as int, row as int) == Some(
                ComponentTicks {
                    added: old(self).spec_ticks(component_id as int, row as int)->Some_0.added,
                    changed: change_tick,
                },
            ),
            forall|c: int, r: int|
                !(c == component_id as int && r == row as int) ==> #[trigger] final(self).spec_value(c, r) == old(self).spec_value(c, r),
            forall|c: int, r: int|
                !(c == component_id as int && r == row as int) ==> #[trigger] final(self).spec_ticks(c, r) == old(self).spec_ticks(c, r),
    {
        let col = match self.find_column(component_id) {
            Some(c) => c,
            None => {
                proof {
                    assert(false);
                }
                0
            },
        };
        proof {
            assert(self.columns@[col as int].wf(self.rows as int));
        }
        let column = &mut self.columns[col];
        column.data[row] = value;
        column.changed[row] = change_tick;
        proof {
            let cid = component_id as int;
            let oldt = *old(self);
            assert forall|i: int| 0 <= i < self.columns@.len() implies (
            #[trigger] self.columns@[i]).component_id == oldt.columns@[i].component_id
                && self.columns@[i].wf(self.rows as int) by {
                if i != col {
                    assert(self.columns@[i] == oldt.columns@[i]);
                }
            }
            assert forall|c: int| self.spec_has_column(c) == oldt.spec_has_column(c) by {
                lemma_same_columns(&oldt, self, c);
            }
            assert forall|c: int| oldt.spec_has_column(c) implies self.spec_column_of(c)
                == oldt.spec_column_of(c) by {
                lemma_same_columns(&oldt, self, c);
            }
            assert(self.spec_column_of(cid) == col);
            assert forall|c: int, r: int|
                !(c == cid && r == row as int) implies #[trigger] self.spec_value(c, r)
                == oldt.spec_value(c, r) && self.spec_ticks(c, r) == oldt.spec_ticks(c, r) by {
                if oldt.spec_has_column(c) {
                    let cc = oldt.spec_column_of(c);
                    if cc != col {
                        assert(self.columns@[cc] == oldt.columns@[cc]);
                    } else {
                        assert(c == cid);
                    }
                }
            }
        }
    }

    /// Adds a column for `component_id` to a one-row table, holding `value`
    /// stamped as added and changed at `tick`.  Existing columns are left as
    /// they were.
    pub fn push_column(&mut self, component_id: ComponentId, value: Vec<u8>, tick: Tick)
        requires
            old(self).wf(),
            !old(self).spec_has_column(component_id as int),
            old(self).rows == 1,
        ensures
            final(self).wf(),
            final(self).rows == 1,
            forall|c: int|
                #[trigger] final(self).spec_has_column(c) <==> (old(self).spec_has_column(c) || c
                    == component_id as int),
            final(self).spec_value(component_id as int, 0) == Some(value@),
            final(self).spec_ticks(component_id as int, 0) == Some(
                ComponentTicks { added: tick, changed: tick },
            ),
            forall|c: int, r: int|
                c != component_id as int ==> #[trigger] final(self).spec_value(c, r) == old(
                    self,
                ).spec_value(c, r),
            forall|c: int, r: int|
                c != component_id as int ==> #[trigger] final(self).spec_ticks(c, r) == old(
                    self,
                ).spec_ticks(c, r),
    {
        let mut data: Vec<Vec<u8>> = Vec::new();
        data.push(value);
        let mut added: Vec<Tick> = Vec::new();
        added.push(tick);
        let mut changed: Vec<Tick> = Vec::new();
        changed.push(tick);
        let new_index = self.columns.len();
        self.columns.push(Column { component_id, data, added, changed });
        proof {
            let oldt = *old(self);
            let cid = component_id as int;
            assert forall|i: int, j: int|
                0 <= i < j < self.columns@.len() implies (
            #[trigger] self.columns@[i].component_id) != (
            #[trigger] self.columns@[j].component_id) by {
                if j == new_index {
                    if self.columns@[i].component_id == component_id {
                        assert(oldt.spec_has_column(cid));
                    }
                }
            }
            assert forall|i: int|
                0 <= i < self.columns@.len() implies (#[trigger] self.columns@[i]).wf(
                self.rows as int,
            ) by {
                if i < new_index {
                    assert(oldt.columns@[i].wf(1));
                }
            }
            assert(self.columns@[new_index as int].component_id == cid);
            assert(self.spec_has_column(cid));
            let w = self.spec_column_of(cid);
            assert(self.columns@[w].component_id == cid);
            if w != new_index {
                assert(oldt.columns@[w].component_id == cid);
                assert(oldt.spec_has_column(cid));
            }
            assert(self.spec_value(cid, 0) == Some(self.columns@[new_index as int].data@[0]@));
            assert forall|c: int| #[trigger] self.spec_has_column(c) <==> (oldt.spec_has_column(
                c,
            ) || c == cid) by {
                if c != cid {
                    lemma_column_lookup_after_push(&oldt, self, c);
                }
            }
            assert forall|c: int, r: int| c != cid implies #[trigger] self.spec_value(c, r)
                == oldt.spec_value(c, r) by {
                lemma_column_lookup_after_push(&oldt, self, c);
                if oldt.spec_has_column(c) {
                    assert(self.columns@[oldt.spec_column_of(c)] == oldt.columns@[
                        oldt.spec_column_of(c)
                    ]);
                }
            }
            assert forall|c: int, r: int| c != cid implies #[trigger] self.spec_ticks(c, r)
                == oldt.spec_ticks(c, r) by {
                lemma_column_lookup_after_push(&oldt, self, c);
                if oldt.spec_has_column(c) {
                    assert(self.columns@[oldt.spec_column_of(c)] == oldt.columns@[
                        oldt.spec_column_of(c)
                    ]);
                }
            }
        }
    }

}

/// Pushing a column for a different component id changes neither whether a
/// table has a column for `c` nor which column that is.
proof fn lemma_column_lookup_after_push(a: &Table, b: &Table, c: int)
    requires
        forall|i: int, j: int|
            0 <= i < j < b.columns@.len() ==> (#[trigger] b.columns@[i].component_id) != (
            #[trigger] b.columns@[j].component_id),
        b.columns@.len() == a.columns@.len() + 1,
        forall|i: int| 0 <= i < a.columns@.len() ==> #[trigger] b.columns@[i] == a.columns@[i],
        b.columns@[a.columns@.len() as int].component_id != c,
    ensures
        a.spec_has_column(c) == b.spec_has_column(c),
        a.spec_has_column(c) ==> b.spec_column_of(c) == a.spec_column_of(c)
            && 0 <= a.spec_column_of(c) < a.columns@.len(),
{
    let n = a.columns@.len() as int;
    if a.spec_has_column(c) {
        let i = a.spec_column_of(c);
        assert(a.columns@[i].component_id == c);
        assert(b.columns@[i] == a.columns@[i]);
        assert(b.spec_has_column(c));
        let j = b.spec_column_of(c);
        assert(b.columns@[j].component_id == c);
        assert(j != n);
        if i < j {
            assert(b.columns@[i].component_id != b.columns@[j].component_id);
        } else if j < i {
            assert(b.columns@[j].component_id != b.columns@[i].component_id);
        }
    }
    if b.spec_has_column(c) {
        let j = b.spec_column_of(c);
        assert(b.columns@[j].component_id == c);
        assert(j != n);
        assert(a.columns@[j].component_id == c);
        assert(a.spec_has_column(c));
    }
}



/// Column identity is decided by component ids alone, so two tables with
/// pointwise equal column ids agree on `spec_has_column` and
/// `spec_column_of`.
proof fn lemma_same_columns(a: &Table, b: &Table, c: int)
    requires
        a.wf(),
        a.columns@.len() == b.columns@.len(),
        forall|i: int|
            0 <= i < a.columns@.len() ==> (#[trigger] a.columns@[i]).component_id == b.columns@[
                i
            ].component_id,
    ensures
        a.spec_has_column(c) == b.spec_has_column(c),
        a.spec_has_column(c) ==> a.spec_column_of(c) == b.spec_column_of(c),
{
    if a.spec_has_column(c) {
        let i = a.spec_column_of(c);
        assert(a.columns@[i].component_id == c);
        assert(b.columns@[i].component_id == c);
        assert(b.spec_has_column(c));
    }
    if b.spec_has_column(c) {
        let i = b.spec_column_of(c);
        assert(b.columns@[i].component_id == c);
        assert(a.columns@[i].component_id == c);
        assert(a.spec_has_column(c));
    }
    if a.spec_has_column(c) {
        let i = a.spec_column_of(c);
        let j = b.spec_column_of(c);
        assert(a.columns@[i].component_id == c);
        assert(b.columns@[j].component_id == c);
        assert(a.columns@[j].component_id == c);
        if i < j {
            assert(a.columns@[i].component_id != a.columns@[j].component_id);
        } else if j < i {
            assert(a.columns@[j].component_id != a.columns@[i].component_id);
        }
    }
}

/// One entry of a per-component sparse set.
pub struct SparseSlot {
    /// The generation of the entity this value belongs to.
    pub generation: u32,
    /// The stored value.
    pub value: Vec<u8>,
    /// When the value was added and last changed.
    pub ticks: ComponentTicks,
}

/// The sparse storage of one component kind, keyed by entity index.
pub struct ComponentSparseSet {
    /// One optional slot per entity index.
    pub slots: Vec<Option<SparseSlot>>,
}

impl ComponentSparseSet {
    /// Whether the set holds a value for `e`: its slot exists and carries
    /// its generation.
    pub open spec fn spec_has(&self, e: Entity) -> bool {
        &&& (e.index as int) < self.slots@.len()
        &&& self.slots@[e.index as int] is Some
        &&& self.slots@[e.index as int]->Some_0.generation == e.generation
    }

    /// The slot of `e`; meaningful only while `spec_has(e)`.
    pub open spec fn spec_slot(&self, e: Entity) -> SparseSlot {
        self.slots@[e.index as int]->Some_0
    }

    /// The value stored for `e`, or `None`.
    pub open spec fn spec_value(&self, e: Entity) -> Option<Seq<u8>> {
        if self.spec_has(e) {
            Some(self.spec_slot(e).value@)
        } else {
            None
        }
    }

    /// The tick pair stored for `e`, or `None`.
    pub open spec fn spec_ticks(&self, e: Entity) -> Option<ComponentTicks> {
        if self.spec_has(e) {
            Some(self.spec_slot(e).ticks)
        } else {
            None
        }
    }

    /// Creates an empty sparse set.
    pub fn new() -> (r: ComponentSparseSet)
        ensures
            r.slots@.len() == 0,
    {
        ComponentSparseSet { slots: Vec::new() }
    }

    /// The value stored for `e`, if any.
    pub fn get(&self, e: Entity) -> (r: Option<&Vec<u8>>)
        ensures
            match r {
                Some(v) => self.spec_value(e) == Some(v@),
                None => self.spec_value(e) is None,
            },
    {
        if (e.index as usize) < self.slots.len() {
            match &self.slots[e.index as usize] {
                Some(slot) => {
                    if slot.generation == e.generation {
                        Some(&slot.value)
                    } else {
                        None
                    }
                },
                None => None,
            }
        } else {
            None
        }
    }

    /// The value and tick pair stored for `e`, if any.
    pub fn get_with_ticks(&self, e: Entity) -> (r: Option<(&Vec<u8>, ComponentTicks)>)
        ensures
            match r {
                Some(p) => self.spec_value(e) == Some(p.0@) && self.spec_ticks(e) == Some(p.1),
                None => self.spec_value(e) is None,
            },
    {
        if (e.index as usize) < self.slots.len() {
            match &self.slots[e.index as usize] {
                Some(slot) => {
                    if slot.generation == e.generation {
                        Some((&slot.value, slot.ticks))
                    } else {
                        None
                    }
                },
                None => None,
            }
        } else {
            None
        }
    }

    /// The tick pair stored for `e`, if any.
    pub fn get_ticks(&self, e: Entity) -> (r: Option<ComponentTicks>)
        ensures
            r == self.spec_ticks(e),
    {
        if (e.index as usize) < self.slots.len() {
            match &self.slots[e.index as usize] {
                Some(slot) => {
                    if slot.generation == e.generation {
                        Some(slot.ticks)
                    } else {
                        None
                    }
                },
                None => None,
            }
        } else {
            None
        }
    }

    /// Overwrites the value stored for `e` and stamps its changed tick with
    /// `change_tick`; the added tick and every other entity's entry are left
    /// as they were.
    pub fn set_value(&mut self, e: Entity, value: Vec<u8>, change_tick: Tick)
        requires
            old(self).spec_has(e),
        ensures
            final(self).slots@.len() == old(self).slots@.len(),
            final(self).spec_value(e) == Some(value@),
            final(self).spec_ticks(e) == Some(
                ComponentTicks {
                    added: old(self).spec_ticks(e)->Some_0.added,
                    changed: change_tick,
                },
            ),
            forall|e2: Entity|
                e2 != e ==> #[trigger] final(self).spec_value(e2) == old(self).spec_value(e2),
            forall|e2: Entity|
                e2 != e ==> #[trigger] final(self).spec_ticks(e2) == old(self).spec_ticks(e2),
            final(self).slots@ == old(self).slots@.update(
                e.index as int,
                Some(
                    SparseSlot {
                        generation: e.generation,
                        value: value,
                        ticks: ComponentTicks {
                            added: old(self).spec_ticks(e)->Some_0.added,
                            changed: change_tick,
                        },
                    },
                ),
            ),
    {
        let idx = e.index as usize;
        let (generation, added) = match &self.slots[idx] {
            Some(s) => (s.generation, s.ticks.added),
            None => {
                proof {
                    assert(false);
                }
                (0, change_tick)
            },
        };
        self.slots[idx] = Some(
            SparseSlot {
                generation,
                value,
                ticks: ComponentTicks { added, changed: change_tick },
            },
        );
        proof {
            assert forall|e2: Entity| e2 != e implies #[trigger] self.spec_value(e2) == old(self).spec_value(e2) && self.spec_ticks(e2) == old(self).spec_ticks(e2) by {
                if e2.index != e.index && (e2.index as int) < self.slots@.len() {
                    assert(self.slots@[e2.index as int] == old(self).slots@[e2.index as int]);
                }
            }
        }
    }

    /// Inserts a value for `e`, growing the slot vector as needed; the value
    /// counts as added and changed at `tick`.  Entries of other entity
    /// indices are left as they were.
    pub fn insert(&mut self, e: Entity, value: Vec<u8>, tick: Tick)
        ensures
            final(self).spec_has(e),
            final(self).spec_value(e) == Some(value@),
            final(self).spec_ticks(e) == Some(ComponentTicks { added: tick, changed: tick }),
            forall|e2: Entity|
                e2.index != e.index ==> #[trigger] final(self).spec_value(e2) == old(self).spec_value(e2),
            forall|e2: Entity|
                e2.index != e.index ==> #[trigger] final(self).spec_ticks(e2) == old(self).spec_ticks(e2),
            final(self).slots@.len() >= old(self).slots@.len(),
            forall|i: int|
                0 <= i < final(self).slots@.len() && i != e.index as int ==> #[trigger] final(self).slots@[i] == (if i < old(self).slots@.len() {
                    old(self).slots@[i]
                } else {
                    None
                }),
    {
        let idx = e.index as usize;
        while self.slots.len() <= idx
            invariant
                self.slots@.len() >= old(self).slots@.len(),
                forall|i: int|
                    0 <= i < self.slots@.len() ==> #[trigger] self.slots@[i] == (if i < old(self).slots@.len() {
                        old(self).slots@[i]
                    } else {
                        None
                    }),
            decreases idx + 1 - self.slots@.len(),
        {
            self.slots.push(None);
        }
        self.slots[idx] = Some(
            SparseSlot {
                generation: e.generation,
                value,
                ticks: ComponentTicks { added: tick, changed: tick },
            },
        );
        proof {
            assert forall|e2: Entity| e2.index != e.index implies #[trigger] self.spec_value(e2)
                == old(self).spec_value(e2) && self.spec_ticks(e2) == old(self).spec_ticks(
                e2,
            ) by {
                assert(old(self).slots@.len() <= self.slots@.len());
                if (e2.index as int) < self.slots@.len() {
                    if (e2.index as int) < old(self).slots@.len() {
                        assert(self.slots@[e2.index as int] == old(self).slots@[e2.index as int]);
                    } else {
                        assert(self.slots@[e2.index as int] is None);
                    }
                }
            }
        }
    }
}

/// A stored resource value beside its change ticks.
pub struct ResourceData {
    /// The value, untyped.
    pub value: Vec<u8>,
    /// When the value was added and last changed.
    pub ticks: ComponentTicks,
}

/// A stored thread-bound resource value: like [`ResourceData`], plus the
/// thread that inserted it and alone may touch it.
pub struct NonSendResourceData {
    /// The value, untyped.
    pub value: Vec<u8>,
    /// When the value was added and last changed.
    pub ticks: ComponentTicks,
    /// The key of the thread that inserted the value.
    pub owner_thread: u64,
}

/// The raw data stores of a world.
pub struct Storages {
    /// Dense tables, indexed by table id.
    pub tables: Vec<Table>,
    /// Sparse sets, indexed by component id.
    pub sparse_sets: Vec<Option<ComponentSparseSet>>,
    /// Resources, indexed by component id.
    pub resources: Vec<Option<ResourceData>>,
    /// Thread-bound resources, indexed by component id.
    pub non_send_resources: Vec<Option<NonSendResourceData>>,
}

impl Storages {
    /// Creates empty stores.
    pub fn new() -> (r: Storages)
        ensures
            r.tables@.len() == 0,
            r.sparse_sets@.len() == 0,
            r.resources@.len() == 0,
            r.non_send_resources@.len() == 0,
    {
        Storages {
            tables: Vec::new(),
            sparse_sets: Vec::new(),
            resources: Vec::new(),
            non_send_resources: Vec::new(),
        }
    }

    /// Whether a resource value is stored under `id`.
    pub open spec fn spec_has_resource(&self, id: int) -> bool {
        0 <= id < self.resources@.len() && self.resources@[id] is Some
    }

    /// The resource value stored under `id`, or `None`.
    pub open spec fn spec_resource_value(&self, id: int) -> Option<Seq<u8>> {
        if self.spec_has_resource(id) {
            Some(self.resources@[id]->Some_0.value@)
        } else {
            None
        }
    }

    /// The tick pair of the resource stored under `id`, or `None`.
    pub open spec fn spec_resource_ticks(&self, id: int) -> Option<ComponentTicks> {
        if self.spec_has_resource(id) {
            Some(self.resources@[id]->Some_0.ticks)
        } else {
            None
        }
    }

    /// Whether a thread-bound resource value is stored under `id`.
    pub open spec fn spec_has_non_send(&self, id: int) -> bool {
        0 <= id < self.non_send_resources@.len() && self.non_send_resources@[id] is Some
    }

    /// The thread-bound resource value stored under `id`, or `None`.
    pub open spec fn spec_non_send_value(&self, id: int) -> Option<Seq<u8>> {
        if self.spec_has_non_send(id) {
            Some(self.non_send_resources@[id]->Some_0.value@)
        } else {
            None
        }
    }

    /// The tick pair of the thread-bound resource stored under `id`, or
    /// `None`.
    pub open spec fn spec_non_send_ticks(&self, id: int) -> Option<ComponentTicks> {
        if self.spec_has_non_send(id) {
            Some(self.non_send_resources@[id]->Some_0.ticks)
        } else {
            None
        }
    }

    /// The key of the thread that inserted the thread-bound resource under
    /// `id`; meaningful only while `spec_has_non_send(id)`.
    pub open spec fn spec_non_send_owner(&self, id: int) -> u64 {
        self.non_send_resources@[id]->Some_0.owner_thread
    }

    /// The resource entry stored under `id`, if any.
    pub fn get_resource(&self, id: ComponentId) -> (r: Option<&ResourceData>)
        ensures
            match r {
                Some(d) => self.spec_resource_value(id as int) == Some(d.value@)
                    && self.spec_resource_ticks(id as int) == Some(d.ticks),
                None => self.spec_resource_value(id as int) is None,
            },
            r is Some <==> self.spec_has_resource(id as int),
    {
        if id < self.resources.len() {
            match &self.resources[id] {
                Some(d) => Some(d),
                None => None,
            }
        } else {
            None
        }
    }

    /// The thread-bound resource entry stored under `id`, if any.
    pub fn get_non_send_resource(&self, id: ComponentId) -> (r: Option<&NonSendResourceData>)
        ensures
            match r {
                Some(d) => self.spec_non_send_value(id as int) == Some(d.value@)
                    && self.spec_non_send_ticks(id as int) == Some(d.ticks)
                    && self.spec_non_send_owner(id as int) == d.owner_thread,
                None => self.spec_non_send_value(id as int) is None,
            },
            r is Some <==> self.spec_has_non_send(id as int),
    {
        if id < self.non_send_resources.len() {
            match &self.non_send_resources[id] {
                Some(d) => Some(d),
                None => None,
            }
        } else {
            None
        }
    }
}

} // verus!
