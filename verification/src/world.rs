//! The world: the monolithic in-memory store the cells mediate access to.
//!
//! A world owns the entity index, the archetypes, the component registry,
//! the raw stores and the change-tick counters.  Its well-formedness
//! predicate ties those pieces together: every live entity's cached location
//! points at real storage, dense columns exist exactly for the archetype's
//! table components, and sparse entries belong to live entities whose
//! archetype lists them.

use vstd::prelude::*;

use crate::archetype::{Archetype, Archetypes};
use crate::component::{ComponentId, ComponentInfo, ComponentKind, Components, StorageType, TypeKey};
use crate::entity::{Entities, Entity, EntityLocation, EntityMeta};
use crate::storage::{ComponentSparseSet, NonSendResourceData, ResourceData, Storages, Table};
use crate::tick::{spec_tick_next, ComponentTicks, Tick};

verus! {

/// Identifies a world; two worlds handed distinct ids are distinct for
/// every cell-binding check.
pub type WorldId = u64;

/// The top-level store.
pub struct World {
    /// This world's id.
    pub id: WorldId,
    /// The entity index.
    pub entities: Entities,
    /// The archetype set.
    pub archetypes: Archetypes,
    /// The component registry.
    pub components: Components,
    /// The raw data stores.
    pub storages: Storages,
    /// The change-tick counter; every write is stamped with its value.
    pub change_tick: u32,
    /// The tick at which change trackers were last cleared.
    pub last_change_tick: Tick,
    /// The id of the last trigger that was fired.
    pub last_trigger_id: u32,
}

impl World {
    /// Whether `e` is alive in this world.
    pub open spec fn spec_alive(&self, e: Entity) -> bool {
        self.entities.spec_alive(e)
    }

    /// The cached location of `e`, or `None` when `e` is not alive.
    pub open spec fn spec_location(&self, e: Entity) -> Option<EntityLocation> {
        self.entities.spec_get(e)
    }

    /// The archetype `e` belongs to; meaningful only while `spec_alive(e)`.
    pub open spec fn spec_archetype_of(&self, e: Entity) -> Archetype {
        self.archetypes.archetypes@[self.entities.spec_meta(e).location.archetype_id as int]
    }

    /// Whether the archetype of `e` lists `component_id`; the metadata-only
    /// presence predicate.
    pub open spec fn spec_archetype_contains(&self, e: Entity, component_id: int) -> bool {
        self.spec_alive(e) && self.spec_archetype_of(e).spec_contains(component_id)
    }

    /// The registry info at `component_id`, or `None` for an unknown id.
    pub open spec fn spec_info(&self, component_id: int) -> Option<ComponentInfo> {
        self.components.spec_get_info(component_id)
    }

    /// The value of component `component_id` on `e`, read through storage
    /// dispatch, or `None` when absent.
    pub open spec fn spec_component_value(&self, e: Entity, component_id: int) -> Option<
        Seq<u8>,
    > {
        if self.spec_alive(e) && self.spec_info(component_id) is Some {
            let loc = self.entities.spec_meta(e).location;
            match self.spec_info(component_id)->Some_0.storage_type {
                StorageType::Table => {
                    if 0 <= loc.table_id < self.storages.tables@.len() {
                        self.storages.tables@[loc.table_id as int].spec_value(
                            component_id,
                            loc.table_row as int,
                        )
                    } else {
                        None
                    }
                },
                StorageType::SparseSet => {
                    if 0 <= component_id < self.storages.sparse_sets@.len()
                        && self.storages.sparse_sets@[component_id] is Some {
                        self.storages.sparse_sets@[component_id]->Some_0.spec_value(e)
                    } else {
                        None
                    }
                },
            }
        } else {
            None
        }
    }

    /// The tick pair of component `component_id` on `e`, or `None` when
    /// absent.
    pub open spec fn spec_component_ticks(&self, e: Entity, component_id: int) -> Option<
        ComponentTicks,
    > {
        if self.spec_alive(e) && self.spec_info(component_id) is Some {
            let loc = self.entities.spec_meta(e).location;
            match self.spec_info(component_id)->Some_0.storage_type {
                StorageType::Table => {
                    if 0 <= loc.table_id < self.storages.tables@.len() {
                        self.storages.tables@[loc.table_id as int].spec_ticks(
                            component_id,
                            loc.table_row as int,
                        )
                    } else {
                        None
                    }
                },
                StorageType::SparseSet => {
                    if 0 <= component_id < self.storages.sparse_sets@.len()
                        && self.storages.sparse_sets@[component_id] is Some {
                        self.storages.sparse_sets@[component_id]->Some_0.spec_ticks(e)
                    } else {
                        None
                    }
                },
            }
        } else {
            None
        }
    }

    /// The resource value stored under `component_id`, or `None`.
    pub open spec fn spec_resource_value(&self, component_id: int) -> Option<Seq<u8>> {
        self.storages.spec_resource_value(component_id)
    }

    /// The tick pair of the resource stored under `component_id`, or `None`.
    pub open spec fn spec_resource_ticks(&self, component_id: int) -> Option<ComponentTicks> {
        self.storages.spec_resource_ticks(component_id)
    }

    /// The thread-bound resource value stored under `component_id`, or
    /// `None`.
    pub open spec fn spec_non_send_value(&self, component_id: int) -> Option<Seq<u8>> {
        self.storages.spec_non_send_value(component_id)
    }

    /// The tick pair of the thread-bound resource stored under
    /// `component_id`, or `None`.
    pub open spec fn spec_non_send_ticks(&self, component_id: int) -> Option<ComponentTicks> {
        self.storages.spec_non_send_ticks(component_id)
    }

    /// Whether `thread` may touch the thread-bound resource under
    /// `component_id`: either no value is stored there, or `thread` is the
    /// thread that inserted it.
    pub open spec fn spec_non_send_allows(&self, component_id: int, thread: u64) -> bool {
        self.storages.spec_has_non_send(component_id)
            ==> self.storages.spec_non_send_owner(component_id) == thread
    }

    /// The id `key` resolves to, provided it was registered as an entity
    /// component, or `None`.
    pub open spec fn spec_valid_component_id(&self, key: TypeKey) -> Option<int> {
        if self.components.spec_has_key(key) && self.components.infos@[
            self.components.spec_id_of(key)
        ].kind == ComponentKind::Component {
            Some(self.components.spec_id_of(key))
        } else {
            None
        }
    }

    /// The id `key` resolves to, provided it was registered as a resource,
    /// or `None`.
    pub open spec fn spec_valid_resource_id(&self, key: TypeKey) -> Option<int> {
        if self.components.spec_has_key(key) && self.components.infos@[
            self.components.spec_id_of(key)
        ].kind == ComponentKind::Resource {
            Some(self.components.spec_id_of(key))
        } else {
            None
        }
    }

    /// Well-formedness of the archetype value `arch`: its table exists, its
    /// component ids are registered, its table components are exactly the
    /// columns of its table, and its sparse components have sparse sets.
    pub open spec fn archetype_value_wf(&self, arch: Archetype) -> bool {
        &&& arch.table_id < self.storages.tables@.len()
        &&& forall|k: int|
            0 <= k < arch.components@.len() ==> (#[trigger] arch.components@[k] as int)
                < self.components.infos@.len()
        &&& forall|k: int|
            0 <= k < arch.components@.len() && self.components.infos@[
                arch.components@[k] as int
            ].storage_type == StorageType::Table ==> self.storages.tables@[
                arch.table_id as int
            ].spec_has_column(#[trigger] arch.components@[k] as int)
        &&& forall|c: int|
            #[trigger] self.storages.tables@[arch.table_id as int].spec_has_column(c)
                ==> arch.spec_contains(c)
        &&& forall|k: int|
            0 <= k < arch.components@.len() && self.components.infos@[
                arch.components@[k] as int
            ].storage_type == StorageType::SparseSet ==> (#[trigger] arch.components@[k] as int)
                < self.storages.sparse_sets@.len() && self.storages.sparse_sets@[
                arch.components@[k] as int
            ] is Some
    }

    /// Well-formedness of the archetype with id `a`.
    pub open spec fn archetype_wf(&self, a: int) -> bool {
        self.archetype_value_wf(self.archetypes.archetypes@[a])
    }

    /// Every sparse component of `arch` holds an entry for `e`.
    pub open spec fn slot_sparse_wf(&self, arch: Archetype, e: Entity) -> bool {
        forall|k: int|
            0 <= k < arch.components@.len() && self.components.infos@[
                arch.components@[k] as int
            ].storage_type == StorageType::SparseSet ==> self.storages.sparse_sets@[
                #[trigger] arch.components@[k] as int
            ]->Some_0.spec_has(e)
    }

    /// Well-formedness of one entity slot: when it is filled, its location
    /// points inside the archetype set and its table, and every sparse
    /// component of its archetype holds an entry for it.
    pub open spec fn slot_wf(&self, i: int) -> bool {
        self.entities.meta@[i] is Some ==> {
            let m = self.entities.meta@[i]->Some_0;
            let e = Entity { index: i as u32, generation: m.generation };
            &&& m.location.archetype_id < self.archetypes.archetypes@.len()
            &&& m.location.table_id == self.archetypes.archetypes@[
                m.location.archetype_id as int
            ].table_id
            &&& m.location.table_row < self.storages.tables@[m.location.table_id as int].rows
            &&& self.slot_sparse_wf(
                self.archetypes.archetypes@[m.location.archetype_id as int],
                e,
            )
        }
    }

    /// The sparse stores only hold entries for live entities whose archetype
    /// lists the component.
    pub open spec fn sparse_inverse_wf(&self) -> bool {
        forall|s: int, i: int|
            0 <= s < self.storages.sparse_sets@.len() && self.storages.sparse_sets@[s] is Some
                && 0 <= i < self.storages.sparse_sets@[s]->Some_0.slots@.len() && (
            #[trigger] self.storages.sparse_sets@[s]->Some_0.slots@[i]) is Some ==> {
                let e = Entity {
                    index: i as u32,
                    generation: self.storages.sparse_sets@[s]->Some_0.slots@[
                        i
                    ]->Some_0.generation,
                };
                &&& i < 0x1_0000_0000
                &&& self.spec_alive(e)
                &&& self.spec_archetype_contains(e, s)
            }
    }

    /// Distinct live entities occupy distinct table cells.
    pub open spec fn distinct_rows_wf(&self) -> bool {
        forall|i: int, j: int|
            0 <= i < self.entities.meta@.len() && 0 <= j < self.entities.meta@.len() && i != j
                && (#[trigger] self.entities.meta@[i]) is Some && (
            #[trigger] self.entities.meta@[j]) is Some ==> !(self.entities.meta@[
                i
            ]->Some_0.location.table_id == self.entities.meta@[j]->Some_0.location.table_id
                && self.entities.meta@[i]->Some_0.location.table_row == self.entities.meta@[
                j
            ]->Some_0.location.table_row)
    }

    /// World well-formedness: the registry has unique keys, every archetype,
    /// table and entity slot is well formed, sparse entries belong to live
    /// entities, distinct entities use distinct table cells, and the entity
    /// index fits the entity id space.
    pub open spec fn wf(&self) -> bool {
        &&& self.components.wf()
        &&& self.entities.meta@.len() <= 0x1_0000_0000
        &&& forall|a: int| 0 <= a < self.archetypes.archetypes@.len() ==> #[trigger] self.archetype_wf(a)
        &&& forall|t: int|
            0 <= t < self.storages.tables@.len() ==> (#[trigger] self.storages.tables@[t]).wf()
        &&& forall|i: int| 0 <= i < self.entities.meta@.len() ==> #[trigger] self.slot_wf(i)
        &&& self.sparse_inverse_wf()
        &&& self.distinct_rows_wf()
    }

    /// Creates an empty world carrying the given id.  The change-tick
    /// counter starts at one so that everything inserted afterwards counts
    /// as newer than the initial last-change tick of zero.
    pub fn new(id: WorldId) -> (r: World)
        ensures
            r.wf(),
            r.id == id,
            r.entities.meta@.len() == 0,
            r.archetypes.archetypes@.len() == 0,
            r.components.infos@.len() == 0,
            r.storages.resources@.len() == 0,
            r.storages.non_send_resources@.len() == 0,
            r.change_tick == 1,
            r.last_change_tick.tick == 0,
            r.last_trigger_id == 0,
    {
        World {
            id,
            entities: Entities::new(),
            archetypes: Archetypes::new(),
            components: Components::new(),
            storages: Storages::new(),
            change_tick: 1,
            last_change_tick: Tick { tick: 0 },
            last_trigger_id: 0,
        }
    }

    /// Registers an entity-component kind under `key` and returns its id;
    /// an existing registration under `key` is returned unchanged.
    pub fn register_component(
        &mut self,
        key: TypeKey,
        storage_type: StorageType,
        mutable: bool,
    ) -> (r: ComponentId)
        requires
            old(self).wf(),
        ensures
            final(self).wf(),
            final(self).components.spec_has_key(key),
            r == final(self).components.spec_id_of(key),
            final(self).entities == old(self).entities,
            final(self).archetypes == old(self).archetypes,
            final(self).storages == old(self).storages,
            final(self).id == old(self).id,
            final(self).change_tick == old(self).change_tick,
            final(self).last_change_tick == old(self).last_change_tick,
            final(self).last_trigger_id == old(self).last_trigger_id,
            old(self).components.spec_has_key(key) ==> final(self).components == old(self).components,
            !old(self).components.spec_has_key(key) ==> final(self).components.infos@ == old(self).components.infos@.push(
                ComponentInfo {
                    type_key: key,
                    storage_type,
                    mutable,
                    kind: ComponentKind::Component,
                },
            ),
    {
        let r = self.components.register(key, storage_type, mutable, ComponentKind::Component);
        proof {
            self.lemma_registry_grown(old(self));
        }
        r
    }

    /// Registers a resource kind under `key` and returns its id; an existing
    /// registration under `key` is returned unchanged.
    pub fn register_resource(&mut self, key: TypeKey) -> (r: ComponentId)
        requires
            old(self).wf(),
        ensures
            final(self).wf(),
            final(self).components.spec_has_key(key),
            r == final(self).components.spec_id_of(key),
            final(self).entities == old(self).entities,
            final(self).archetypes == old(self).archetypes,
            final(self).storages == old(self).storages,
            final(self).id == old(self).id,
            final(self).change_tick == old(self).change_tick,
            final(self).last_change_tick == old(self).last_change_tick,
            final(self).last_trigger_id == old(self).last_trigger_id,
            old(self).components.spec_has_key(key) ==> final(self).components == old(self).components,
            !old(self).components.spec_has_key(key) ==> final(self).components.infos@ == old(self).components.infos@.push(
                ComponentInfo {
                    type_key: key,
                    storage_type: StorageType::Table,
                    mutable: true,
                    kind: ComponentKind::Resource,
                },
            ),
    {
        let r = self.components.register(
            key,
            StorageType::Table,
            true,
            ComponentKind::Resource,
        );
        proof {
            self.lemma_registry_grown(old(self));
        }
        r
    }

    /// World well-formedness only reads the entity index, the archetypes,
    /// the tables and sparse sets, and the infos of registered ids; it is
    /// preserved when those are unchanged and the registry only grew.
    proof fn lemma_registry_grown(&self, before: &World)
        requires
            before.wf(),
            self.components.wf(),
            self.components.infos@.len() >= before.components.infos@.len(),
            forall|i: int|
                0 <= i < before.components.infos@.len() ==> #[trigger] self.components.infos@[i]
                    == before.components.infos@[i],
            self.entities == before.entities,
            self.archetypes == before.archetypes,
            self.storages.tables@ == before.storages.tables@,
            self.storages.sparse_sets@ == before.storages.sparse_sets@,
        ensures
            self.wf(),
    {
        assert forall|a: int| 0 <= a < self.archetypes.archetypes@.len() implies #[trigger] self.archetype_wf(a) by {
            assert(before.archetype_wf(a));
            let arch = self.archetypes.archetypes@[a];
            assert forall|k: int|
                0 <= k < arch.components@.len() && self.components.infos@[
                    arch.components@[k] as int
                ].storage_type == StorageType::Table implies self.storages.tables@[
                arch.table_id as int
            ].spec_has_column(#[trigger] arch.components@[k] as int) by {
                assert(self.components.infos@[arch.components@[k] as int]
                    == before.components.infos@[arch.components@[k] as int]);
            }
            assert forall|k: int|
                0 <= k < arch.components@.len() && self.components.infos@[
                    arch.components@[k] as int
                ].storage_type == StorageType::SparseSet implies (
            #[trigger] arch.components@[k] as int) < self.storages.sparse_sets@.len()
                && self.storages.sparse_sets@[arch.components@[k] as int] is Some by {
                assert(self.components.infos@[arch.components@[k] as int]
                    == before.components.infos@[arch.components@[k] as int]);
            }
        }
        assert forall|i: int| 0 <= i < self.entities.meta@.len() implies #[trigger] self.slot_wf(
            i,
        ) by {
            assert(before.slot_wf(i));
            if self.entities.meta@[i] is Some {
                let m = self.entities.meta@[i]->Some_0;
                let e = Entity { index: i as u32, generation: m.generation };
                let arch = self.archetypes.archetypes@[m.location.archetype_id as int];
                assert forall|k: int|
                    0 <= k < arch.components@.len() && self.components.infos@[
                        arch.components@[k] as int
                    ].storage_type == StorageType::SparseSet implies self.storages.sparse_sets@[
                    #[trigger] arch.components@[k] as int
                ]->Some_0.spec_has(e) by {
                    assert(before.archetype_wf(m.location.archetype_id as int));
                    assert(self.components.infos@[arch.components@[k] as int]
                        == before.components.infos@[arch.components@[k] as int]);
                }
            }
        }
        assert forall|s: int, i: int|
            0 <= s < self.storages.sparse_sets@.len() && self.storages.sparse_sets@[s] is Some
                && 0 <= i < self.storages.sparse_sets@[s]->Some_0.slots@.len() && (
        #[trigger] self.storages.sparse_sets@[s]->Some_0.slots@[i]) is Some implies {
            let e = Entity {
                index: i as u32,
                generation: self.storages.sparse_sets@[s]->Some_0.slots@[i]->Some_0.generation,
            };
            &&& i < 0x1_0000_0000
            &&& self.spec_alive(e)
            &&& self.spec_archetype_contains(e, s)
        } by {
            assert(before.sparse_inverse_wf());
        }
    }

    /// Whether `thread` may touch the thread-bound resource stored under
    /// `component_id`; callers outside the library test this before asking
    /// for thread-bound access, and panic as the storage layer would where
    /// it is denied.
    pub fn non_send_access_allowed(&self, component_id: ComponentId, thread: u64) -> (r: bool)
        ensures
            r == self.spec_non_send_allows(component_id as int, thread),
    {
        match self.storages.get_non_send_resource(component_id) {
            Some(d) => d.owner_thread == thread,
            None => true,
        }
    }

    /// Reads the current change tick.
    pub fn read_change_tick(&self) -> (r: Tick)
        ensures
            r.tick == self.change_tick,
    {
        Tick { tick: self.change_tick }
    }

    /// Reads the last-clear tick.
    pub fn last_change_tick(&self) -> (r: Tick)
        ensures
            r == self.last_change_tick,
    {
        self.last_change_tick
    }

    /// Increments the change-tick counter and returns its value from before
    /// the increment.
    pub fn increment_change_tick(&mut self) -> (r: Tick)
        ensures
            r.tick == old(self).change_tick,
            final(self).change_tick == spec_tick_next(old(self).change_tick),
            final(self).id == old(self).id,
            final(self).entities == old(self).entities,
            final(self).archetypes == old(self).archetypes,
            final(self).components == old(self).components,
            final(self).storages == old(self).storages,
            final(self).last_change_tick == old(self).last_change_tick,
            final(self).last_trigger_id == old(self).last_trigger_id,
            old(self).wf() ==> final(self).wf(),
    {
        let r = Tick { tick: self.change_tick };
        self.change_tick = self.change_tick.wrapping_add(1);
        proof {
            if old(self).wf() {
                self.lemma_registry_grown(old(self));
            }
        }
        r
    }

    /// Increments the trigger-id counter, wrapping around at the top.
    pub fn increment_trigger_id(&mut self)
        ensures
            final(self).last_trigger_id == vstd::wrapping::u32_specs::wrapping_add(
                old(self).last_trigger_id,
                1,
            ),
            final(self).id == old(self).id,
            final(self).entities == old(self).entities,
            final(self).archetypes == old(self).archetypes,
            final(self).components == old(self).components,
            final(self).storages == old(self).storages,
            final(self).change_tick == old(self).change_tick,
            final(self).last_change_tick == old(self).last_change_tick,
            old(self).wf() ==> final(self).wf(),
    {
        self.last_trigger_id = self.last_trigger_id.wrapping_add(1);
        proof {
            if old(self).wf() {
                self.lemma_registry_grown(old(self));
            }
        }
    }

    /// Inserts (or overwrites) the resource stored under `component_id` at
    /// the current change tick: a fresh value counts as added and changed
    /// now, an overwritten one keeps its added tick and counts as changed
    /// now.
    pub fn insert_resource(&mut self, component_id: ComponentId, value: Vec<u8>)
        requires
            old(self).wf(),
            old(self).spec_info(component_id as int) matches Some(info) && info.kind
                == ComponentKind::Resource,
        ensures
            final(self).wf(),
            final(self).spec_resource_value(component_id as int) == Some(value@),
            final(self).spec_resource_ticks(component_id as int) == Some(
                ComponentTicks {
                    added: if old(self).storages.spec_has_resource(component_id as int) {
                        old(self).spec_resource_ticks(component_id as int)->Some_0.added
                    } else {
                        Tick { tick: old(self).change_tick }
                    },
                    changed: Tick { tick: old(self).change_tick },
                },
            ),
            forall|id: int|
                id != component_id as int ==> #[trigger] final(self).spec_resource_value(id)
                    == old(self).spec_resource_value(id),
            forall|id: int|
                id != component_id as int ==> #[trigger] final(self).spec_resource_ticks(id)
                    == old(self).spec_resource_ticks(id),
            final(self).id == old(self).id,
            final(self).entities == old(self).entities,
            final(self).archetypes == old(self).archetypes,
            final(self).components == old(self).components,
            final(self).storages.tables == old(self).storages.tables,
            final(self).storages.sparse_sets == old(self).storages.sparse_sets,
            final(self).storages.non_send_resources == old(self).storages.non_send_resources,
            final(self).change_tick == old(self).change_tick,
            final(self).last_change_tick == old(self).last_change_tick,
            final(self).last_trigger_id == old(self).last_trigger_id,
    {
        let tick = Tick { tick: self.change_tick };
        while self.storages.resources.len() <= component_id
            invariant
                self.id == old(self).id,
                self.entities == old(self).entities,
                self.archetypes == old(self).archetypes,
                self.components == old(self).components,
                self.storages.tables == old(self).storages.tables,
                self.storages.sparse_sets == old(self).storages.sparse_sets,
                self.storages.non_send_resources == old(self).storages.non_send_resources,
                self.change_tick == old(self).change_tick,
                self.last_change_tick == old(self).last_change_tick,
                self.last_trigger_id == old(self).last_trigger_id,
                self.storages.resources@.len() >= old(self).storages.resources@.len(),
                forall|i: int|
                    0 <= i < self.storages.resources@.len() ==> #[trigger] self.storages.resources@[i] == (if i < old(self).storages.resources@.len() {
                        old(self).storages.resources@[i]
                    } else {
                        None
                    }),
            decreases component_id + 1 - self.storages.resources@.len(),
        {
            self.storages.resources.push(None);
        }
        let added = match &self.storages.resources[component_id] {
            Some(d) => d.ticks.added,
            None => tick,
        };
        self.storages.resources[component_id] = Some(
            ResourceData { value, ticks: ComponentTicks { added, changed: tick } },
        );
        proof {
            self.lemma_registry_grown(old(self));
            assert forall|id: int| id != component_id as int implies #[trigger] final(self).spec_resource_value(id) == old(self).spec_resource_value(id)
                && final(self).spec_resource_ticks(id) == old(self).spec_resource_ticks(id) by {
                if 0 <= id < self.storages.resources@.len() {
                    if id < old(self).storages.resources@.len() {
                        assert(self.storages.resources@[id] == old(self).storages.resources@[id]);
                    } else {
                        assert(self.storages.resources@[id] is None);
                    }
                }
            }
        }
    }

    /// Inserts (or overwrites) the thread-bound resource stored under
    /// `component_id`, recording `thread` as its owner; only the owning
    /// thread may insert over an existing value.
    pub fn insert_non_send_resource(&mut self, component_id: ComponentId, value: Vec<u8>, thread: u64)
        requires
            old(self).wf(),
            old(self).spec_info(component_id as int) matches Some(info) && info.kind
                == ComponentKind::Resource,
            old(self).spec_non_send_allows(component_id as int, thread),
        ensures
            final(self).wf(),
            final(self).spec_non_send_value(component_id as int) == Some(value@),
            final(self).spec_non_send_ticks(component_id as int) == Some(
                ComponentTicks {
                    added: if old(self).storages.spec_has_non_send(component_id as int) {
                        old(self).spec_non_send_ticks(component_id as int)->Some_0.added
                    } else {
                        Tick { tick: old(self).change_tick }
                    },
                    changed: Tick { tick: old(self).change_tick },
                },
            ),
            final(self).storages.spec_has_non_send(component_id as int),
            final(self).storages.spec_non_send_owner(component_id as int) == thread,
            forall|id: int|
                id != component_id as int ==> #[trigger] final(self).spec_non_send_value(id)
                    == old(self).spec_non_send_value(id),
            forall|id: int|
                id != component_id as int ==> #[trigger] final(self).spec_non_send_ticks(id)
                    == old(self).spec_non_send_ticks(id),
            forall|id: int|
                id != component_id as int ==> #[trigger] final(self).storages.spec_has_non_send(
                    id,
                ) == old(self).storages.spec_has_non_send(id),
            forall|id: int|
                id != component_id as int && old(self).storages.spec_has_non_send(id)
                    ==> #[trigger] final(self).storages.spec_non_send_owner(id) == old(self).storages.spec_non_send_owner(id),
            final(self).id == old(self).id,
            final(self).entities == old(self).entities,
            final(self).archetypes == old(self).archetypes,
            final(self).components == old(self).components,
            final(self).storages.tables == old(self).storages.tables,
            final(self).storages.sparse_sets == old(self).storages.sparse_sets,
            final(self).storages.resources == old(self).storages.resources,
            final(self).change_tick == old(self).change_tick,
            final(self).last_change_tick == old(self).last_change_tick,
            final(self).last_trigger_id == old(self).last_trigger_id,
    {
        let tick = Tick { tick: self.change_tick };
        while self.storages.non_send_resources.len() <= component_id
            invariant
                self.id == old(self).id,
                self.entities == old(self).entities,
                self.archetypes == old(self).archetypes,
                self.components == old(self).components,
                self.storages.tables == old(self).storages.tables,
                self.storages.sparse_sets == old(self).storages.sparse_sets,
                self.storages.resources == old(self).storages.resources,
                self.change_tick == old(self).change_tick,
                self.last_change_tick == old(self).last_change_tick,
                self.last_trigger_id == old(self).last_trigger_id,
                self.storages.non_send_resources@.len() >= old(self).storages.non_send_resources@.len(),
                forall|i: int|
                    0 <= i < self.storages.non_send_resources@.len()
                        ==> #[trigger] self.storages.non_send_resources@[i] == (if i < old(self).storages.non_send_resources@.len() {
                        old(self).storages.non_send_resources@[i]
                    } else {
                        None
                    }),
            decreases component_id + 1 - self.storages.non_send_resources@.len(),
        {
            self.storages.non_send_resources.push(None);
        }
        let added = match &self.storages.non_send_resources[component_id] {
            Some(d) => d.ticks.added,
            None => tick,
        };
        self.storages.non_send_resources[component_id] = Some(
            NonSendResourceData {
                value,
                ticks: ComponentTicks { added, changed: tick },
                owner_thread: thread,
            },
        );
        proof {
            self.lemma_registry_grown(old(self));
            assert forall|id: int| id != component_id as int implies #[trigger] final(self).spec_non_send_value(id) == old(self).spec_non_send_value(id)
                && final(self).spec_non_send_ticks(id) == old(self).spec_non_send_ticks(id)
                && final(self).storages.spec_has_non_send(id) == old(self).storages.spec_has_non_send(id) by {
                if 0 <= id < self.storages.non_send_resources@.len() {
                    if id < old(self).storages.non_send_resources@.len() {
                        assert(self.storages.non_send_resources@[id] == old(self).storages.non_send_resources@[id]);
                    } else {
                        assert(self.storages.non_send_resources@[id] is None);
                    }
                }
            }
            assert forall|id: int|
                id != component_id as int && old(self).storages.spec_has_non_send(
                    id,
                ) implies #[trigger] final(self).storages.spec_non_send_owner(id) == old(self).storages.spec_non_send_owner(id) by {
                assert(self.storages.non_send_resources@[id] == old(self).storages.non_send_resources@[id]);
            }
        }
    }

    /// Overwrites the resource stored under `component_id` and stamps its
    /// changed tick with `change_tick`; the added tick, every other
    /// resource, and all component storage are left as they were.
    pub fn set_resource_value(&mut self, component_id: ComponentId, value: Vec<u8>, change_tick: Tick)
        requires
            old(self).wf(),
            old(self).storages.spec_has_resource(component_id as int),
        ensures
            final(self).wf(),
            final(self).spec_resource_value(component_id as int) == Some(value@),
            final(self).spec_resource_ticks(component_id as int) == Some(
                ComponentTicks {
                    added: old(self).spec_resource_ticks(component_id as int)->Some_0.added,
                    changed: change_tick,
                },
            ),
            forall|id: int|
                id != component_id as int ==> #[trigger] final(self).spec_resource_value(id)
                    == old(self).spec_resource_value(id),
            forall|id: int|
                id != component_id as int ==> #[trigger] final(self).spec_resource_ticks(id)
                    == old(self).spec_resource_ticks(id),
            final(self).id == old(self).id,
            final(self).entities == old(self).entities,
            final(self).archetypes == old(self).archetypes,
            final(self).components == old(self).components,
            final(self).storages.tables == old(self).storages.tables,
            final(self).storages.sparse_sets == old(self).storages.sparse_sets,
            final(self).storages.non_send_resources == old(self).storages.non_send_resources,
            final(self).change_tick == old(self).change_tick,
            final(self).last_change_tick == old(self).last_change_tick,
            final(self).last_trigger_id == old(self).last_trigger_id,
    {
        let added = match &self.storages.resources[component_id] {
            Some(d) => d.ticks.added,
            None => {
                proof {
                    assert(false);
                }
                change_tick
            },
        };
        self.storages.resources[component_id] = Some(
            ResourceData { value, ticks: ComponentTicks { added, changed: change_tick } },
        );
        proof {
            self.lemma_registry_grown(old(self));
            assert forall|id: int| id != component_id as int implies #[trigger] final(self).spec_resource_value(id) == old(self).spec_resource_value(id)
                && final(self).spec_resource_ticks(id) == old(self).spec_resource_ticks(id) by {
                if 0 <= id < self.storages.resources@.len() {
                    assert(self.storages.resources@[id] == old(self).storages.resources@[id]);
                }
            }
        }
    }

    /// Overwrites the thread-bound resource stored under `component_id` and
    /// stamps its changed tick with `change_tick`; the added tick, the
    /// owner, every other resource, and all component storage are left as
    /// they were.
    pub fn set_non_send_value(&mut self, component_id: ComponentId, value: Vec<u8>, change_tick: Tick)
        requires
            old(self).wf(),
            old(self).storages.spec_has_non_send(component_id as int),
        ensures
            final(self).wf(),
            final(self).spec_non_send_value(component_id as int) == Some(value@),
            final(self).spec_non_send_ticks(component_id as int) == Some(
                ComponentTicks {
                    added: old(self).spec_non_send_ticks(component_id as int)->Some_0.added,
                    changed: change_tick,
                },
            ),
            final(self).storages.spec_has_non_send(component_id as int),
            final(self).storages.spec_non_send_owner(component_id as int) == old(self).storages.spec_non_send_owner(component_id as int),
            forall|id: int|
                id != component_id as int ==> #[trigger] final(self).spec_non_send_value(id)
                    == old(self).spec_non_send_value(id),
            forall|id: int|
                id != component_id as int ==> #[trigger] final(self).spec_non_send_ticks(id)
                    == old(self).spec_non_send_ticks(id),
            final(self).id == old(self).id,
            final(self).entities == old(self).entities,
            final(self).archetypes == old(self).archetypes,
            final(self).components == old(self).components,
            final(self).storages.tables == old(self).storages.tables,
            final(self).storages.sparse_sets == old(self).storages.sparse_sets,
            final(self).storages.resources == old(self).storages.resources,
            final(self).change_tick == old(self).change_tick,
            final(self).last_change_tick == old(self).last_change_tick,
            final(self).last_trigger_id == old(self).last_trigger_id,
    {
        let (added, owner) = match &self.storages.non_send_resources[component_id] {
            Some(d) => (d.ticks.added, d.owner_thread),
            None => {
                proof {
                    assert(false);
                }
                (change_tick, 0)
            },
        };
        self.storages.non_send_resources[component_id] = Some(
            NonSendResourceData {
                value,
                ticks: ComponentTicks { added, changed: change_tick },
                owner_thread: owner,
            },
        );
        proof {
            self.lemma_registry_grown(old(self));
            assert forall|id: int| id != component_id as int implies #[trigger] final(self).spec_non_send_value(id) == old(self).spec_non_send_value(id)
                && final(self).spec_non_send_ticks(id) == old(self).spec_non_send_ticks(id) by {
                if 0 <= id < self.storages.non_send_resources@.len() {
                    assert(self.storages.non_send_resources@[id] == old(self).storages.non_send_resources@[id]);
                }
            }
        }
    }

    /// Inserts a sparse entry for `e` under `component_id`, creating the
    /// sparse set if the component had none yet; every other sparse set and
    /// every other field of the world are left as they were.
    fn sparse_insert(&mut self, component_id: ComponentId, e: Entity, value: Vec<u8>, tick: Tick)
        ensures
            final(self).id == old(self).id,
            final(self).entities == old(self).entities,
            final(self).archetypes == old(self).archetypes,
            final(self).components == old(self).components,
            final(self).storages.tables == old(self).storages.tables,
            final(self).storages.resources == old(self).storages.resources,
            final(self).storages.non_send_resources == old(self).storages.non_send_resources,
            final(self).change_tick == old(self).change_tick,
            final(self).last_change_tick == old(self).last_change_tick,
            final(self).last_trigger_id == old(self).last_trigger_id,
            final(self).storages.sparse_sets@.len() >= old(self).storages.sparse_sets@.len(),
            final(self).storages.sparse_sets@.len() > component_id as int,
            forall|s: int|
                0 <= s < final(self).storages.sparse_sets@.len() && s != component_id as int
                    ==> #[trigger] final(self).storages.sparse_sets@[s] == (if s < old(self).storages.sparse_sets@.len() {
                    old(self).storages.sparse_sets@[s]
                } else {
                    None
                }),
            final(self).storages.sparse_sets@[component_id as int] is Some,
            final(self).storages.sparse_sets@[component_id as int]->Some_0.spec_has(e),
            final(self).storages.sparse_sets@[component_id as int]->Some_0.spec_value(e) == Some(
                value@,
            ),
            final(self).storages.sparse_sets@[component_id as int]->Some_0.spec_ticks(e) == Some(
                ComponentTicks { added: tick, changed: tick },
            ),
            ((component_id as int) < old(self).storages.sparse_sets@.len() && old(self).storages.sparse_sets@[component_id as int] is Some) ==> final(self).storages.sparse_sets@[component_id as int]->Some_0.slots@.len() >= old(self).storages.sparse_sets@[component_id as int]->Some_0.slots@.len(),
            forall|i: int|
                0 <= i < final(self).storages.sparse_sets@[component_id as int]->Some_0.slots@.len()
                    && i != e.index as int ==> #[trigger] final(self).storages.sparse_sets@[
                    component_id as int
                ]->Some_0.slots@[i] == (if (component_id as int) < old(self).storages.sparse_sets@.len()
                        && old(self).storages.sparse_sets@[component_id as int] is Some
                        && i < old(self).storages.sparse_sets@[
                    component_id as int
                ]->Some_0.slots@.len() {
                    old(self).storages.sparse_sets@[component_id as int]->Some_0.slots@[i]
                } else {
                    None
                }),
    {
        while self.storages.sparse_sets.len() <= component_id
            invariant
                self.id == old(self).id,
                self.entities == old(self).entities,
                self.archetypes == old(self).archetypes,
                self.components == old(self).components,
                self.storages.tables == old(self).storages.tables,
                self.storages.resources == old(self).storages.resources,
                self.storages.non_send_resources == old(self).storages.non_send_resources,
                self.change_tick == old(self).change_tick,
                self.last_change_tick == old(self).last_change_tick,
                self.last_trigger_id == old(self).last_trigger_id,
                self.storages.sparse_sets@.len() >= old(self).storages.sparse_sets@.len(),
                forall|s: int|
                    0 <= s < self.storages.sparse_sets@.len()
                        ==> #[trigger] self.storages.sparse_sets@[s] == (if s < old(self).storages.sparse_sets@.len() {
                        old(self).storages.sparse_sets@[s]
                    } else {
                        None
                    }),
            decreases component_id + 1 - self.storages.sparse_sets@.len(),
        {
            self.storages.sparse_sets.push(None);
        }
        let is_none = matches!(&self.storages.sparse_sets[component_id], None);
        if is_none {
            self.storages.sparse_sets[component_id] = Some(ComponentSparseSet::new());
        }
        match &mut self.storages.sparse_sets[component_id] {
            Some(set) => {
                set.insert(e, value, tick);
            },
            None => {
                proof {
                    assert(false);
                }
            },
        }
    }
}

/// Whether some entry among the first `upto` of `bundle` names component
/// `c`.
pub open spec fn spec_bundle_lists(
    bundle: Seq<(ComponentId, Vec<u8>)>,
    c: int,
    upto: int,
) -> bool {
    exists|k: int| 0 <= k < upto && bundle[k].0 == c
}

/// Whether some entry among the first `upto` of `bundle` names component
/// `c` and `c` uses the given storage kind according to `infos`.
pub open spec fn spec_bundle_lists_with(
    bundle: Seq<(ComponentId, Vec<u8>)>,
    infos: Seq<ComponentInfo>,
    c: int,
    upto: int,
    storage_type: StorageType,
) -> bool {
    exists|k: int|
        0 <= k < upto && bundle[k].0 == c && infos[bundle[k].0 as int].storage_type
            == storage_type
}

impl World {
    /// Spawns a new entity holding the given bundle of component values and
    /// returns its id.  The new entity gets a fresh archetype listing
    /// exactly the bundle's component ids and a fresh one-row table for its
    /// dense components; every value counts as added and changed at the
    /// current change tick.  Nothing already stored is touched.
    pub fn spawn(&mut self, bundle: Vec<(ComponentId, Vec<u8>)>, spawned_by: u64) -> (e: Entity)
        requires
            old(self).wf(),
            old(self).entities.meta@.len() < 0x1_0000_0000,
            forall|i: int, j: int|
                0 <= i < j < bundle@.len() ==> (#[trigger] bundle@[i].0) != (
                #[trigger] bundle@[j].0),
            forall|k: int|
                0 <= k < bundle@.len() ==> (#[trigger] bundle@[k].0 as int) < old(self).components.infos@.len() && old(self).components.infos@[bundle@[k].0 as int].kind
                    == ComponentKind::Component,
        ensures
            final(self).wf(),
            e == (Entity { index: old(self).entities.meta@.len() as u32, generation: 1 }),
            final(self).spec_alive(e),
            final(self).spec_location(e) == Some(
                EntityLocation {
                    archetype_id: old(self).archetypes.archetypes@.len() as usize,
                    archetype_row: 0,
                    table_id: old(self).storages.tables@.len() as usize,
                    table_row: 0,
                },
            ),
            final(self).entities.spec_meta(e).spawned_by == spawned_by,
            final(self).entities.spec_meta(e).spawned_at == (Tick {
                tick: old(self).change_tick,
            }),
            forall|k: int|
                0 <= k < bundle@.len() ==> final(self).spec_component_value(
                    e,
                    #[trigger] bundle@[k].0 as int,
                ) == Some(bundle@[k].1@),
            forall|k: int|
                0 <= k < bundle@.len() ==> final(self).spec_component_ticks(
                    e,
                    #[trigger] bundle@[k].0 as int,
                ) == Some(
                    ComponentTicks {
                        added: Tick { tick: old(self).change_tick },
                        changed: Tick { tick: old(self).change_tick },
                    },
                ),
            forall|c: int|
                #[trigger] final(self).spec_archetype_contains(e, c) <==> spec_bundle_lists(
                    bundle@,
                    c,
                    bundle@.len() as int,
                ),
            forall|e2: Entity|
                e2 != e ==> #[trigger] final(self).spec_alive(e2) == old(self).spec_alive(e2),
            forall|e2: Entity|
                e2 != e ==> #[trigger] final(self).spec_location(e2) == old(self).spec_location(
                    e2,
                ),
            forall|e2: Entity, c: int|
                e2 != e ==> #[trigger] final(self).spec_component_value(e2, c) == old(self).spec_component_value(e2, c),
            forall|e2: Entity, c: int|
                e2 != e ==> #[trigger] final(self).spec_component_ticks(e2, c) == old(self).spec_component_ticks(e2, c),
            forall|e2: Entity, c: int|
                e2 != e ==> #[trigger] final(self).spec_archetype_contains(e2, c) == old(self).spec_archetype_contains(e2, c),
            final(self).entities.meta@.len() == old(self).entities.meta@.len() + 1,
            forall|i: int|
                0 <= i < old(self).entities.meta@.len() ==> #[trigger] final(self).entities.meta@[i] == old(self).entities.meta@[i],
            final(self).id == old(self).id,
            final(self).components == old(self).components,
            final(self).storages.resources == old(self).storages.resources,
            final(self).storages.non_send_resources == old(self).storages.non_send_resources,
            final(self).change_tick == old(self).change_tick,
            final(self).last_change_tick == old(self).last_change_tick,
            final(self).last_trigger_id == old(self).last_trigger_id,
    {
        let tick = Tick { tick: self.change_tick };
        let index = self.entities.meta.len();
        let e = Entity { index: index as u32, generation: 1 };
        let archetype_id = self.archetypes.archetypes.len();
        let table_id = self.storages.tables.len();
        let n = bundle.len();
        let mut table = Table { columns: Vec::new(), rows: 1 };
        let mut cids: Vec<ComponentId> = Vec::new();
        let mut i: usize = 0;
        while i < n
            invariant
                0 <= i <= n,
                n == bundle@.len(),
                forall|i2: int, j2: int|
                    0 <= i2 < j2 < bundle@.len() ==> (#[trigger] bundle@[i2].0) != (
                    #[trigger] bundle@[j2].0),
                forall|k: int|
                    0 <= k < bundle@.len() ==> (#[trigger] bundle@[k].0 as int) < old(self).components.infos@.len() && old(self).components.infos@[
                        bundle@[k].0 as int
                    ].kind == ComponentKind::Component,
                cids@.len() == i,
                forall|k: int| 0 <= k < i ==> #[trigger] cids@[k] == bundle@[k].0,
                self.id == old(self).id,
                self.entities == old(self).entities,
                self.archetypes == old(self).archetypes,
                self.components == old(self).components,
                self.storages.tables == old(self).storages.tables,
                self.storages.resources == old(self).storages.resources,
                self.storages.non_send_resources == old(self).storages.non_send_resources,
                self.change_tick == old(self).change_tick,
                self.last_change_tick == old(self).last_change_tick,
                self.last_trigger_id == old(self).last_trigger_id,
                tick == (Tick { tick: old(self).change_tick }),
                index == old(self).entities.meta@.len(),
                e == (Entity { index: index as u32, generation: 1 }),
                table.wf(),
                table.rows == 1,
                forall|c: int|
                    #[trigger] table.spec_has_column(c) <==> spec_bundle_lists_with(
                        bundle@,
                        old(self).components.infos@,
                        c,
                        i as int,
                        StorageType::Table,
                    ),
                forall|k: int|
                    0 <= k < i && old(self).components.infos@[
                        #[trigger] bundle@[k].0 as int
                    ].storage_type == StorageType::Table ==> table.spec_value(
                        bundle@[k].0 as int,
                        0,
                    ) == Some(bundle@[k].1@) && table.spec_ticks(bundle@[k].0 as int, 0)
                        == Some(ComponentTicks { added: tick, changed: tick }),
                self.storages.sparse_sets@.len() >= old(self).storages.sparse_sets@.len(),
                forall|s: int|
                    0 <= s < self.storages.sparse_sets@.len() && !spec_bundle_lists_with(
                        bundle@,
                        old(self).components.infos@,
                        s,
                        i as int,
                        StorageType::SparseSet,
                    ) ==> #[trigger] self.storages.sparse_sets@[s] == (if s < old(self).storages.sparse_sets@.len() {
                        old(self).storages.sparse_sets@[s]
                    } else {
                        None
                    }),
                forall|k: int|
                    0 <= k < i && old(self).components.infos@[
                        #[trigger] bundle@[k].0 as int
                    ].storage_type == StorageType::SparseSet ==> (bundle@[k].0 as int)
                        < self.storages.sparse_sets@.len() && self.storages.sparse_sets@[
                        bundle@[k].0 as int
                    ] is Some && self.storages.sparse_sets@[
                        bundle@[k].0 as int
                    ]->Some_0.spec_has(e) && self.storages.sparse_sets@[
                        bundle@[k].0 as int
                    ]->Some_0.spec_value(e) == Some(bundle@[k].1@)
                        && self.storages.sparse_sets@[bundle@[k].0 as int]->Some_0.spec_ticks(e)
                        == Some(ComponentTicks { added: tick, changed: tick }),
                forall|k: int|
                    0 <= k < i && old(self).components.infos@[
                        #[trigger] bundle@[k].0 as int
                    ].storage_type == StorageType::SparseSet && (bundle@[k].0 as int) < old(self).storages.sparse_sets@.len() && old(self).storages.sparse_sets@[
                        bundle@[k].0 as int
                    ] is Some ==> self.storages.sparse_sets@[
                        bundle@[k].0 as int
                    ]->Some_0.slots@.len() >= old(self).storages.sparse_sets@[
                        bundle@[k].0 as int
                    ]->Some_0.slots@.len(),
                forall|k: int, i2: int|
                    0 <= k < i && old(self).components.infos@[
                        bundle@[k].0 as int
                    ].storage_type == StorageType::SparseSet && 0 <= i2
                        < self.storages.sparse_sets@[bundle@[k].0 as int]->Some_0.slots@.len()
                        && i2 != e.index as int ==> #[trigger] self.storages.sparse_sets@[
                        bundle@[k].0 as int
                    ]->Some_0.slots@[i2] == (if (bundle@[k].0 as int) < old(self).storages.sparse_sets@.len()
                            && old(self).storages.sparse_sets@[bundle@[k].0 as int] is Some
                            && i2 < old(self).storages.sparse_sets@[
                        bundle@[k].0 as int
                    ]->Some_0.slots@.len() {
                        old(self).storages.sparse_sets@[bundle@[k].0 as int]->Some_0.slots@[i2]
                    } else {
                        None
                    }),
            decreases n - i,
        {
            let cid = bundle[i].0;
            let value = bundle[i].1.clone();
            cids.push(cid);
            let ghost pre = *self;
            let ghost pre_table = table;
            let storage_type = self.components.infos[cid].storage_type;
            match storage_type {
                StorageType::Table => {
                    proof {
                        if table.spec_has_column(cid as int) {
                            let k = choose|k: int|
                                0 <= k < i && bundle@[k].0 == cid as int && old(self).components.infos@[bundle@[k].0 as int].storage_type
                                    == StorageType::Table;
                            assert(bundle@[k].0 == bundle@[i as int].0);
                        }
                    }
                    table.push_column(cid, value, tick);
                },
                StorageType::SparseSet => {
                    self.sparse_insert(cid, e, value, tick);
                },
            }
            i += 1;
            proof {
                let iprev = i - 1;
                assert(bundle@[iprev].0 == cid);
                match storage_type {
                    StorageType::Table => {
                        assert forall|c: int| #[trigger] table.spec_has_column(
                            c,
                        ) <==> spec_bundle_lists_with(
                            bundle@,
                            old(self).components.infos@,
                            c,
                            i as int,
                            StorageType::Table,
                        ) by {
                            if table.spec_has_column(c) {
                                if c == cid as int {
                                    assert(spec_bundle_lists_with(
                                        bundle@,
                                        old(self).components.infos@,
                                        c,
                                        i as int,
                                        StorageType::Table,
                                    ));
                                } else {
                                    assert(pre_table.spec_has_column(c));
                                }
                            }
                            if spec_bundle_lists_with(
                                bundle@,
                                old(self).components.infos@,
                                c,
                                i as int,
                                StorageType::Table,
                            ) {
                                let k = choose|k: int|
                                    0 <= k < i && bundle@[k].0 == c && old(self).components.infos@[bundle@[k].0 as int].storage_type
                                        == StorageType::Table;
                                if k < iprev {
                                    assert(pre_table.spec_has_column(c));
                                }
                            }
                        }
                    },
                    StorageType::SparseSet => {
                        assert forall|s: int|
                            0 <= s < self.storages.sparse_sets@.len() && !spec_bundle_lists_with(
                                bundle@,
                                old(self).components.infos@,
                                s,
                                i as int,
                                StorageType::SparseSet,
                            ) implies #[trigger] self.storages.sparse_sets@[s] == (if s < old(self).storages.sparse_sets@.len() {
                                old(self).storages.sparse_sets@[s]
                            } else {
                                None
                            }) by {
                                assert(s != cid as int);
                                assert(!spec_bundle_lists_with(
                                    bundle@,
                                    old(self).components.infos@,
                                    s,
                                    iprev,
                                    StorageType::SparseSet,
                                ));
                        }
                        assert(!spec_bundle_lists_with(
                            bundle@,
                            old(self).components.infos@,
                            cid as int,
                            iprev,
                            StorageType::SparseSet,
                        ));
                        if (cid as int) < pre.storages.sparse_sets@.len() {
                            assert(pre.storages.sparse_sets@[cid as int]
                                == (if (cid as int) < old(self).storages.sparse_sets@.len() {
                                old(self).storages.sparse_sets@[cid as int]
                            } else {
                                None
                            }));
                        }
                        assert forall|k: int|
                            0 <= k < i && old(self).components.infos@[
                                #[trigger] bundle@[k].0 as int
                            ].storage_type == StorageType::SparseSet implies (
                        bundle@[k].0 as int) < self.storages.sparse_sets@.len()
                            && self.storages.sparse_sets@[bundle@[k].0 as int] is Some
                            && self.storages.sparse_sets@[bundle@[k].0 as int]->Some_0.spec_has(
                            e,
                        ) && self.storages.sparse_sets@[bundle@[k].0 as int]->Some_0.spec_value(
                            e,
                        ) == Some(bundle@[k].1@) && self.storages.sparse_sets@[
                            bundle@[k].0 as int
                        ]->Some_0.spec_ticks(e) == Some(
                            ComponentTicks { added: tick, changed: tick },
                        ) by {
                            if k < iprev {
                                assert(bundle@[k].0 != cid);
                                assert(self.storages.sparse_sets@[bundle@[k].0 as int]
                                    == pre.storages.sparse_sets@[bundle@[k].0 as int]);
                            }
                        }
                        assert forall|k: int, i2: int|
                            0 <= k < i && old(self).components.infos@[
                                bundle@[k].0 as int
                            ].storage_type == StorageType::SparseSet && 0 <= i2
                                < self.storages.sparse_sets@[
                                bundle@[k].0 as int
                            ]->Some_0.slots@.len() && i2 != e.index as int implies #[trigger] self.storages.sparse_sets@[
                            bundle@[k].0 as int
                        ]->Some_0.slots@[i2] == (if (bundle@[k].0 as int) < old(self).storages.sparse_sets@.len()
                                && old(self).storages.sparse_sets@[bundle@[k].0 as int] is Some
                                && i2 < old(self).storages.sparse_sets@[
                            bundle@[k].0 as int
                        ]->Some_0.slots@.len() {
                            old(self).storages.sparse_sets@[bundle@[k].0 as int]->Some_0.slots@[
                                i2
                            ]
                        } else {
                            None
                        }) by {
                            if k < iprev {
                                assert(bundle@[k].0 != cid);
                                assert(self.storages.sparse_sets@[bundle@[k].0 as int]
                                    == pre.storages.sparse_sets@[bundle@[k].0 as int]);
                            }
                        }
                    },
                }
            }
        }
        self.storages.tables.push(table);
        self.archetypes.archetypes.push(Archetype { components: cids, table_id });
        let meta = EntityMeta {
            generation: 1,
            location: EntityLocation { archetype_id, archetype_row: 0, table_id, table_row: 0 },
            spawned_by,
            spawned_at: tick,
        };
        self.entities.meta.push(Some(meta));
        proof {
            let wold = *old(self);
            let infos = wold.components.infos@;
            let nt = wold.storages.tables@.len() as int;
            let na = wold.archetypes.archetypes@.len() as int;
            let nm = wold.entities.meta@.len() as int;
            let ns = self.storages.sparse_sets@.len() as int;
            let newarch = self.archetypes.archetypes@[na];
            assert(self.entities.meta@[nm] == Some(meta));
            assert(self.spec_alive(e));
            assert(self.entities.spec_meta(e) == meta);
            assert(self.storages.tables@[nt] == table);
            // Which sparse sets hold a value, after the loop.
            assert forall|s: int|
                0 <= s < ns implies ((#[trigger] self.storages.sparse_sets@[s]) is Some <==> ((s
                < wold.storages.sparse_sets@.len() && wold.storages.sparse_sets@[s] is Some)
                || spec_bundle_lists_with(
                bundle@,
                infos,
                s,
                n as int,
                StorageType::SparseSet,
            ))) by {
                if spec_bundle_lists_with(bundle@, infos, s, n as int, StorageType::SparseSet) {
                    let k = choose|k: int|
                        0 <= k < n && bundle@[k].0 == s && infos[bundle@[k].0 as int].storage_type
                            == StorageType::SparseSet;
                    assert(self.storages.sparse_sets@[bundle@[k].0 as int] is Some);
                }
            }
            // Slot-level preservation for every entity index other than the
            // new one, across every sparse set.
            assert forall|s: int, i2: int|
                0 <= s < ns && self.storages.sparse_sets@[s] is Some && 0 <= i2
                    < self.storages.sparse_sets@[s]->Some_0.slots@.len() && i2 != e.index as int
                    implies #[trigger] self.storages.sparse_sets@[s]->Some_0.slots@[i2] == (if s
                    < wold.storages.sparse_sets@.len() && wold.storages.sparse_sets@[s] is Some
                    && i2 < wold.storages.sparse_sets@[s]->Some_0.slots@.len() {
                    wold.storages.sparse_sets@[s]->Some_0.slots@[i2]
                } else {
                    None
                }) by {
                if spec_bundle_lists_with(bundle@, infos, s, n as int, StorageType::SparseSet) {
                    let k = choose|k: int|
                        0 <= k < n && bundle@[k].0 == s && infos[bundle@[k].0 as int].storage_type
                            == StorageType::SparseSet;
                    assert(self.storages.sparse_sets@[bundle@[k].0 as int]->Some_0.slots@[i2]
                        == (if (bundle@[k].0 as int) < wold.storages.sparse_sets@.len()
                            && wold.storages.sparse_sets@[bundle@[k].0 as int] is Some && i2
                            < wold.storages.sparse_sets@[bundle@[k].0 as int]->Some_0.slots@.len() {
                        wold.storages.sparse_sets@[bundle@[k].0 as int]->Some_0.slots@[i2]
                    } else {
                        None
                    }));
                } else {
                    assert(self.storages.sparse_sets@[s] == (if s
                        < wold.storages.sparse_sets@.len() {
                        wold.storages.sparse_sets@[s]
                    } else {
                        None
                    }));
                }
            }
            // Sparse membership of the new entity, for every bundled sparse
            // component.
            assert forall|k: int|
                0 <= k < n && infos[#[trigger] bundle@[k].0 as int].storage_type
                    == StorageType::SparseSet implies self.storages.sparse_sets@[
                bundle@[k].0 as int
            ] is Some && self.storages.sparse_sets@[bundle@[k].0 as int]->Some_0.spec_has(e) by {}
            // All tables are well formed.
            assert forall|t: int|
                0 <= t < self.storages.tables@.len() implies (
            #[trigger] self.storages.tables@[t]).wf() by {
                if t < nt {
                    assert(self.storages.tables@[t] == wold.storages.tables@[t]);
                }
            }
            // All archetypes are well formed.
            assert forall|a: int|
                0 <= a < self.archetypes.archetypes@.len() implies #[trigger] self.archetype_wf(
                a,
            ) by {
                if a < na {
                    assert(wold.archetype_wf(a));
                    let arch = self.archetypes.archetypes@[a];
                    assert(arch == wold.archetypes.archetypes@[a]);
                    assert(arch.table_id < nt);
                    assert(self.storages.tables@[arch.table_id as int]
                        == wold.storages.tables@[arch.table_id as int]);
                    assert forall|k: int|
                        0 <= k < arch.components@.len() && self.components.infos@[
                            arch.components@[k] as int
                        ].storage_type == StorageType::SparseSet implies (
                    #[trigger] arch.components@[k] as int) < self.storages.sparse_sets@.len()
                        && self.storages.sparse_sets@[arch.components@[k] as int] is Some by {
                        assert((arch.components@[k] as int)
                            < wold.storages.sparse_sets@.len());
                        assert(wold.storages.sparse_sets@[arch.components@[k] as int] is Some);
                    }
                } else {
                    assert(self.archetypes.archetypes@[a] == (Archetype {
                        components: cids,
                        table_id,
                    }));
                    let arch = self.archetypes.archetypes@[a];
                    assert(arch.table_id == nt);
                    assert forall|k: int|
                        0 <= k < arch.components@.len() && self.components.infos@[
                            arch.components@[k] as int
                        ].storage_type == StorageType::Table implies self.storages.tables@[
                        arch.table_id as int
                    ].spec_has_column(#[trigger] arch.components@[k] as int) by {
                        assert(cids@[k] == bundle@[k].0);
                        assert(spec_bundle_lists_with(
                            bundle@,
                            infos,
                            bundle@[k].0 as int,
                            n as int,
                            StorageType::Table,
                        ));
                        assert(table.spec_has_column(bundle@[k].0 as int));
                    }
                    assert forall|c: int|
                        #[trigger] self.storages.tables@[arch.table_id as int].spec_has_column(
                            c,
                        ) implies arch.spec_contains(c) by {
                        assert(table.spec_has_column(c));
                        let k = choose|k: int|
                            0 <= k < n && bundle@[k].0 == c && infos[
                                bundle@[k].0 as int
                            ].storage_type == StorageType::Table;
                        assert(cids@[k] == c);
                    }
                    assert forall|k: int|
                        0 <= k < arch.components@.len() && self.components.infos@[
                            arch.components@[k] as int
                        ].storage_type == StorageType::SparseSet implies (
                    #[trigger] arch.components@[k] as int) < self.storages.sparse_sets@.len()
                        && self.storages.sparse_sets@[arch.components@[k] as int] is Some by {
                        assert(cids@[k] == bundle@[k].0);
                    }
                }
            }
            // Every entity slot is well formed.
            assert forall|i: int|
                0 <= i < self.entities.meta@.len() implies #[trigger] self.slot_wf(i) by {
                if i < nm {
                    assert(wold.slot_wf(i));
                    assert(self.entities.meta@[i] == wold.entities.meta@[i]);
                    if self.entities.meta@[i] is Some {
                        let m = self.entities.meta@[i]->Some_0;
                        let e2 = Entity { index: i as u32, generation: m.generation };
                        let arch = self.archetypes.archetypes@[m.location.archetype_id as int];
                        assert(arch == wold.archetypes.archetypes@[
                            m.location.archetype_id as int
                        ]);
                        assert(wold.archetype_wf(m.location.archetype_id as int));
                        assert(m.location.table_id < nt);
                        assert(self.storages.tables@[m.location.table_id as int]
                            == wold.storages.tables@[m.location.table_id as int]);
                        assert(e2.index as int == i);
                        assert(e2 != e);
                        assert forall|k: int|
                            0 <= k < arch.components@.len() && self.components.infos@[
                                arch.components@[k] as int
                            ].storage_type == StorageType::SparseSet
                            implies self.storages.sparse_sets@[
                            #[trigger] arch.components@[k] as int
                        ]->Some_0.spec_has(e2) by {
                            let s = arch.components@[k] as int;
                            assert(wold.storages.sparse_sets@[s]->Some_0.spec_has(e2));
                            assert(s < wold.storages.sparse_sets@.len()
                                && wold.storages.sparse_sets@[s] is Some);
                            assert(self.storages.sparse_sets@[s] is Some);
                            let oldset = wold.storages.sparse_sets@[s]->Some_0;
                            let newset = self.storages.sparse_sets@[s]->Some_0;
                            assert(oldset.slots@[i] is Some);
                            if newset.slots@.len() <= i {
                                assert(spec_bundle_lists_with(
                                    bundle@,
                                    infos,
                                    s,
                                    n as int,
                                    StorageType::SparseSet,
                                ) || newset == oldset);
                                if spec_bundle_lists_with(
                                    bundle@,
                                    infos,
                                    s,
                                    n as int,
                                    StorageType::SparseSet,
                                ) {
                                    let k2 = choose|k2: int|
                                        0 <= k2 < n && bundle@[k2].0 == s && infos[
                                            bundle@[k2].0 as int
                                        ].storage_type == StorageType::SparseSet;
                                    assert(newset.spec_has(e));
                                    assert(newset.slots@.len() > e.index as int);
                                    assert(false);
                                }
                            }
                            assert(newset.slots@[i] == oldset.slots@[i]);
                        }
                    }
                } else {
                    assert(self.entities.meta@[i] == Some(meta));
                }
            }
            // Sparse entries still belong to live entities whose archetype
            // lists them.
            assert forall|s: int, i2: int|
                0 <= s < self.storages.sparse_sets@.len() && self.storages.sparse_sets@[
                    s
                ] is Some && 0 <= i2 < self.storages.sparse_sets@[s]->Some_0.slots@.len() && (
            #[trigger] self.storages.sparse_sets@[s]->Some_0.slots@[i2]) is Some implies {
                let e2 = Entity {
                    index: i2 as u32,
                    generation: self.storages.sparse_sets@[s]->Some_0.slots@[
                        i2
                    ]->Some_0.generation,
                };
                &&& i2 < 0x1_0000_0000
                &&& self.spec_alive(e2)
                &&& self.spec_archetype_contains(e2, s)
            } by {
                let g = self.storages.sparse_sets@[s]->Some_0.slots@[i2]->Some_0.generation;
                let e2 = Entity { index: i2 as u32, generation: g };
                if i2 == e.index as int {
                    assert(self.storages.sparse_sets@[s]->Some_0.slots@[i2] == (if s
                        < wold.storages.sparse_sets@.len() && wold.storages.sparse_sets@[
                        s
                    ] is Some && i2 < wold.storages.sparse_sets@[s]->Some_0.slots@.len() {
                        wold.storages.sparse_sets@[s]->Some_0.slots@[i2]
                    } else {
                        None
                    }) || self.storages.sparse_sets@[s]->Some_0.spec_has(e));
                    if s < wold.storages.sparse_sets@.len() && wold.storages.sparse_sets@[
                        s
                    ] is Some && i2 < wold.storages.sparse_sets@[s]->Some_0.slots@.len()
                        && self.storages.sparse_sets@[s]->Some_0.slots@[i2]
                        == wold.storages.sparse_sets@[s]->Some_0.slots@[i2] {
                        assert(wold.sparse_inverse_wf());
                        assert(wold.spec_alive(e2));
                        assert(e2.index as int == i2);
                        assert(i2 < nm);
                        assert(false);
                    }
                    assert(self.storages.sparse_sets@[s]->Some_0.spec_has(e));
                    assert(g == e.generation);
                    assert(e2 == e);
                    assert(self.spec_alive(e));
                    if !spec_bundle_lists_with(bundle@, infos, s, n as int, StorageType::SparseSet) {
                        assert(self.storages.sparse_sets@[s] == (if s
                            < wold.storages.sparse_sets@.len() {
                            wold.storages.sparse_sets@[s]
                        } else {
                            None
                        }));
                        assert(s < wold.storages.sparse_sets@.len());
                        assert(wold.sparse_inverse_wf());
                        assert(wold.spec_alive(e));
                        assert(false);
                    }
                    let k = choose|k: int|
                        0 <= k < n && bundle@[k].0 == s && infos[bundle@[k].0 as int].storage_type
                            == StorageType::SparseSet;
                    assert(cids@[k] == bundle@[k].0);
                    assert(newarch.spec_contains(s));
                    assert(self.spec_archetype_contains(e, s));
                } else {
                    assert(self.storages.sparse_sets@[s]->Some_0.slots@[i2] == (if s
                        < wold.storages.sparse_sets@.len() && wold.storages.sparse_sets@[
                        s
                    ] is Some && i2 < wold.storages.sparse_sets@[s]->Some_0.slots@.len() {
                        wold.storages.sparse_sets@[s]->Some_0.slots@[i2]
                    } else {
                        None
                    }));
                    assert(wold.sparse_inverse_wf());
                    assert(wold.spec_alive(e2));
                    assert(e2.index as int == i2);
                    assert(i2 < nm);
                    assert(self.entities.meta@[i2] == wold.entities.meta@[i2]);
                    assert(self.spec_alive(e2));
                    assert(wold.spec_archetype_contains(e2, s));
                    assert(wold.slot_wf(i2));
                    let aid = wold.entities.spec_meta(e2).location.archetype_id as int;
                    assert(aid < na);
                    assert(self.archetypes.archetypes@[aid] == wold.archetypes.archetypes@[aid]);
                    assert(self.spec_archetype_of(e2) == wold.spec_archetype_of(e2));
                }
            }
            // Distinct live entities still occupy distinct table cells.
            assert forall|i: int, j: int|
                0 <= i < self.entities.meta@.len() && 0 <= j < self.entities.meta@.len() && i
                    != j && (#[trigger] self.entities.meta@[i]) is Some && (
            #[trigger] self.entities.meta@[j]) is Some implies !(self.entities.meta@[
                i
            ]->Some_0.location.table_id == self.entities.meta@[j]->Some_0.location.table_id
                && self.entities.meta@[i]->Some_0.location.table_row == self.entities.meta@[
                j
            ]->Some_0.location.table_row) by {
                if i < nm && j < nm {
                    assert(self.entities.meta@[i] == wold.entities.meta@[i]);
                    assert(self.entities.meta@[j] == wold.entities.meta@[j]);
                } else if i < nm {
                    assert(self.entities.meta@[i] == wold.entities.meta@[i]);
                    assert(wold.slot_wf(i));
                    let aid = wold.entities.meta@[i]->Some_0.location.archetype_id as int;
                    assert(wold.archetype_wf(aid));
                    assert(wold.entities.meta@[i]->Some_0.location.table_id < nt);
                } else if j < nm {
                    assert(self.entities.meta@[j] == wold.entities.meta@[j]);
                    assert(wold.slot_wf(j));
                    let aid = wold.entities.meta@[j]->Some_0.location.archetype_id as int;
                    assert(wold.archetype_wf(aid));
                    assert(wold.entities.meta@[j]->Some_0.location.table_id < nt);
                }
            }
            assert(self.wf());
            // What the new entity holds.
            assert forall|k: int| 0 <= k < n implies self.spec_component_value(
                e,
                #[trigger] bundle@[k].0 as int,
            ) == Some(bundle@[k].1@) && self.spec_component_ticks(e, bundle@[k].0 as int)
                == Some(ComponentTicks { added: tick, changed: tick }) by {
                let c = bundle@[k].0 as int;
                assert(self.spec_info(c) == Some(infos[c]));
                match infos[c].storage_type {
                    StorageType::Table => {
                        assert(self.storages.tables@[nt] == table);
                        assert(table.spec_value(c, 0) == Some(bundle@[k].1@));
                    },
                    StorageType::SparseSet => {
                        assert(self.storages.sparse_sets@[c]->Some_0.spec_value(e) == Some(
                            bundle@[k].1@,
                        ));
                    },
                }
            }
            // The new entity's archetype lists exactly the bundle.
            assert forall|c: int|
                #[trigger] self.spec_archetype_contains(e, c) <==> spec_bundle_lists(
                    bundle@,
                    c,
                    n as int,
                ) by {
                if self.spec_archetype_contains(e, c) {
                    let k = choose|k: int|
                        0 <= k < newarch.components@.len() && newarch.components@[k] == c;
                    assert(cids@[k] == bundle@[k].0);
                    assert(spec_bundle_lists(bundle@, c, n as int));
                }
                if spec_bundle_lists(bundle@, c, n as int) {
                    let k = choose|k: int| 0 <= k < n && bundle@[k].0 == c;
                    assert(cids@[k] == c);
                    assert(newarch.spec_contains(c));
                }
            }
            // Nothing already stored was touched.
            assert forall|e2: Entity| e2 != e implies #[trigger] self.spec_alive(e2) == wold.spec_alive(
                e2,
            ) && self.spec_location(e2) == wold.spec_location(e2) by {
                if (e2.index as int) < nm {
                    assert(self.entities.meta@[e2.index as int] == wold.entities.meta@[
                        e2.index as int
                    ]);
                } else if e2.index as int == nm {
                    assert(self.entities.meta@[nm] == Some(meta));
                    assert(e2.generation != 1);
                }
            }
            assert forall|e2: Entity, c: int| e2 != e implies #[trigger] self.spec_component_value(
                e2,
                c,
            ) == wold.spec_component_value(e2, c) by {
                lemma_spawn_component_frame(&wold, self, e, e2, c, nt, nm);
            }
            assert forall|e2: Entity, c: int| e2 != e implies #[trigger] self.spec_component_ticks(
                e2,
                c,
            ) == wold.spec_component_ticks(e2, c) by {
                lemma_spawn_component_frame(&wold, self, e, e2, c, nt, nm);
            }
            assert forall|e2: Entity, c: int| e2 != e implies #[trigger] self.spec_archetype_contains(
                e2,
                c,
            ) == wold.spec_archetype_contains(e2, c) by {
                assert(self.spec_alive(e2) == wold.spec_alive(e2));
                if wold.spec_alive(e2) {
                    assert(self.entities.meta@[e2.index as int] == wold.entities.meta@[
                        e2.index as int
                    ]);
                    assert(wold.slot_wf(e2.index as int));
                    let aid = wold.entities.spec_meta(e2).location.archetype_id as int;
                    assert(aid < na);
                    assert(self.archetypes.archetypes@[aid] == wold.archetypes.archetypes@[aid]);
                    assert(self.spec_archetype_of(e2) == wold.spec_archetype_of(e2));
                }
            }
        }
        e
    }
}

impl World {
    /// Overwrites the value of component `component_id` on `e` and stamps
    /// its changed tick with `change_tick`.  The added tick, every other
    /// component of every entity, all resources and all metadata are left
    /// as they were.
    pub fn set_component_value(
        &mut self,
        e: Entity,
        component_id: ComponentId,
        value: Vec<u8>,
        change_tick: Tick,
    )
        requires
            old(self).wf(),
            old(self).spec_component_value(e, component_id as int) is Some,
        ensures
            final(self).wf(),
            final(self).spec_component_value(e, component_id as int) == Some(value@),
            final(self).spec_component_ticks(e, component_id as int) == Some(
                ComponentTicks {
                    added: old(self).spec_component_ticks(
                        e,
                        component_id as int,
                    )->Some_0.added,
                    changed: change_tick,
                },
            ),
            forall|e2: Entity, c: int|
                !(e2 == e && c == component_id as int) ==> #[trigger] final(self).spec_component_value(e2, c) == old(self).spec_component_value(e2, c),
            forall|e2: Entity, c: int|
                !(e2 == e && c == component_id as int) ==> #[trigger] final(self).spec_component_ticks(e2, c) == old(self).spec_component_ticks(e2, c),
            final(self).id == old(self).id,
            final(self).entities == old(self).entities,
            final(self).archetypes == old(self).archetypes,
            final(self).components == old(self).components,
            final(self).storages.resources == old(self).storages.resources,
            final(self).storages.non_send_resources == old(self).storages.non_send_resources,
            final(self).change_tick == old(self).change_tick,
            final(self).last_change_tick == old(self).last_change_tick,
            final(self).last_trigger_id == old(self).last_trigger_id,
    {
        let cid = component_id;
        let loc = match self.entities.get(e) {
            Some(l) => l,
            None => {
                proof {
                    assert(false);
                }
                EntityLocation { archetype_id: 0, archetype_row: 0, table_id: 0, table_row: 0 }
            },
        };
        let storage_type = self.components.infos[cid].storage_type;
        match storage_type {
            StorageType::Table => {
                self.storages.tables[loc.table_id].set_component(
                    cid,
                    loc.table_row,
                    value,
                    change_tick,
                );
                proof {
                    let wold = *old(self);
                    let tid = loc.table_id as int;
                    assert(self.storages.tables@ == wold.storages.tables@.update(
                        tid,
                        self.storages.tables@[tid],
                    ));
                    assert forall|t: int|
                        0 <= t < self.storages.tables@.len() implies (
                    #[trigger] self.storages.tables@[t]).wf() by {
                        if t != tid {
                            assert(self.storages.tables@[t] == wold.storages.tables@[t]);
                        }
                    }
                    assert forall|a: int|
                        0 <= a < self.archetypes.archetypes@.len()
                            implies #[trigger] self.archetype_wf(a) by {
                        assert(wold.archetype_wf(a));
                        let arch = self.archetypes.archetypes@[a];
                        assert forall|c: int|
                            #[trigger] self.storages.tables@[arch.table_id as int].spec_has_column(
                                c,
                            ) == wold.storages.tables@[arch.table_id as int].spec_has_column(
                                c,
                            ) by {
                            if arch.table_id as int != tid {
                                assert(self.storages.tables@[arch.table_id as int]
                                    == wold.storages.tables@[arch.table_id as int]);
                            }
                        }
                    }
                    assert forall|i: int|
                        0 <= i < self.entities.meta@.len() implies #[trigger] self.slot_wf(
                        i,
                    ) by {
                        assert(wold.slot_wf(i));
                        if self.entities.meta@[i] is Some {
                            let m = self.entities.meta@[i]->Some_0;
                            assert(wold.archetype_wf(m.location.archetype_id as int));
                            assert((m.location.table_id as int) < wold.storages.tables@.len());
                            if m.location.table_id as int != tid {
                                assert(self.storages.tables@[m.location.table_id as int]
                                    == wold.storages.tables@[m.location.table_id as int]);
                            }
                        }
                    }
                    assert(self.sparse_inverse_wf()) by {
                        assert(wold.sparse_inverse_wf());
                    }
                    assert(self.wf());
                    assert forall|e2: Entity, c: int|
                        !(e2 == e && c == cid as int) implies #[trigger] self.spec_component_value(
                        e2,
                        c,
                    ) == wold.spec_component_value(e2, c)
                        && #[trigger] self.spec_component_ticks(e2, c)
                        == wold.spec_component_ticks(e2, c) by {
                        if wold.spec_alive(e2) && wold.spec_info(c) is Some {
                            let loc2 = wold.entities.spec_meta(e2).location;
                            match wold.spec_info(c)->Some_0.storage_type {
                                StorageType::Table => {
                                    assert(wold.slot_wf(e2.index as int));
                                    assert(wold.archetype_wf(loc2.archetype_id as int));
                                    assert((loc2.table_id as int) < wold.storages.tables@.len());
                                    if loc2.table_id as int != tid {
                                        assert(self.storages.tables@[loc2.table_id as int]
                                            == wold.storages.tables@[loc2.table_id as int]);
                                    } else {
                                        if e2 != e {
                                            assert(wold.entities.meta@[
                                                e2.index as int
                                            ] is Some);
                                            assert(wold.entities.meta@[e.index as int] is Some);
                                            if e2.index == e.index {
                                                assert(wold.entities.meta@[
                                                    e2.index as int
                                                ]->Some_0.generation == e2.generation);
                                                assert(e2.generation == e.generation);
                                                assert(false);
                                            }
                                            assert(!(loc2.table_id == loc.table_id
                                                && loc2.table_row == loc.table_row));
                                            assert(self.storages.tables@[tid].spec_value(
                                                c,
                                                loc2.table_row as int,
                                            ) == wold.storages.tables@[tid].spec_value(
                                                c,
                                                loc2.table_row as int,
                                            ));
                                            assert(self.storages.tables@[tid].spec_ticks(
                                                c,
                                                loc2.table_row as int,
                                            ) == wold.storages.tables@[tid].spec_ticks(
                                                c,
                                                loc2.table_row as int,
                                            ));
                                        } else {
                                            assert(c != cid as int);
                                        }
                                    }
                                },
                                StorageType::SparseSet => {},
                            }
                        }
                    }
                }
            },
            StorageType::SparseSet => {
                match &mut self.storages.sparse_sets[cid] {
                    Some(set) => {
                        set.set_value(e, value, change_tick);
                    },
                    None => {
                        proof {
                            assert(false);
                        }
                    },
                }
                proof {
                    let wold = *old(self);
                    let ci = cid as int;
                    assert(self.storages.sparse_sets@ == wold.storages.sparse_sets@.update(
                        ci,
                        self.storages.sparse_sets@[ci],
                    ));
                    let oldset = wold.storages.sparse_sets@[ci]->Some_0;
                    let newset = self.storages.sparse_sets@[ci]->Some_0;
                    assert(newset.slots@.len() == oldset.slots@.len());
                    assert forall|e2: Entity| e2 != e implies #[trigger] newset.spec_has(e2)
                        == oldset.spec_has(e2) by {
                        if e2.index != e.index {
                            if (e2.index as int) < newset.slots@.len() {
                                assert(newset.slots@[e2.index as int] == oldset.slots@[
                                    e2.index as int
                                ]);
                            }
                        } else {
                            assert(newset.slots@[e2.index as int]->Some_0.generation
                                == e.generation);
                            assert(oldset.spec_has(e));
                        }
                    }
                    assert(newset.spec_has(e));
                    assert forall|a: int|
                        0 <= a < self.archetypes.archetypes@.len()
                            implies #[trigger] self.archetype_wf(a) by {
                        assert(wold.archetype_wf(a));
                        let arch = self.archetypes.archetypes@[a];
                        assert forall|k: int|
                            0 <= k < arch.components@.len() && self.components.infos@[
                                arch.components@[k] as int
                            ].storage_type == StorageType::SparseSet implies (
                        #[trigger] arch.components@[k] as int)
                            < self.storages.sparse_sets@.len() && self.storages.sparse_sets@[
                            arch.components@[k] as int
                        ] is Some by {
                            if arch.components@[k] as int != ci {
                                assert(self.storages.sparse_sets@[arch.components@[k] as int]
                                    == wold.storages.sparse_sets@[arch.components@[k] as int]);
                            }
                        }
                    }
                    assert forall|i: int|
                        0 <= i < self.entities.meta@.len() implies #[trigger] self.slot_wf(
                        i,
                    ) by {
                        assert(wold.slot_wf(i));
                        if self.entities.meta@[i] is Some {
                            let m = self.entities.meta@[i]->Some_0;
                            let e2 = Entity { index: i as u32, generation: m.generation };
                            let arch = self.archetypes.archetypes@[
                                m.location.archetype_id as int
                            ];
                            assert(wold.archetype_wf(m.location.archetype_id as int));
                            assert forall|k: int|
                                0 <= k < arch.components@.len() && self.components.infos@[
                                    arch.components@[k] as int
                                ].storage_type == StorageType::SparseSet
                                implies self.storages.sparse_sets@[
                                #[trigger] arch.components@[k] as int
                            ]->Some_0.spec_has(e2) by {
                                if arch.components@[k] as int != ci {
                                    assert(self.storages.sparse_sets@[
                                        arch.components@[k] as int
                                    ] == wold.storages.sparse_sets@[
                                        arch.components@[k] as int
                                    ]);
                                } else {
                                    if e2 != e {
                                        assert(newset.spec_has(e2) == oldset.spec_has(e2));
                                    }
                                }
                            }
                        }
                    }
                    assert forall|s: int, i2: int|
                        0 <= s < self.storages.sparse_sets@.len() && self.storages.sparse_sets@[
                            s
                        ] is Some && 0 <= i2 < self.storages.sparse_sets@[
                            s
                        ]->Some_0.slots@.len() && (#[trigger] self.storages.sparse_sets@[
                            s
                        ]->Some_0.slots@[i2]) is Some implies {
                        let e2 = Entity {
                            index: i2 as u32,
                            generation: self.storages.sparse_sets@[s]->Some_0.slots@[
                                i2
                            ]->Some_0.generation,
                        };
                        &&& i2 < 0x1_0000_0000
                        &&& self.spec_alive(e2)
                        &&& self.spec_archetype_contains(e2, s)
                    } by {
                        assert(wold.sparse_inverse_wf());
                        if s != ci {
                            assert(self.storages.sparse_sets@[s]
                                == wold.storages.sparse_sets@[s]);
                        } else {
                            if i2 != e.index as int {
                                assert(newset.slots@[i2] == oldset.slots@[i2]);
                            } else {
                                assert(newset.slots@[i2]->Some_0.generation == e.generation);
                                assert(oldset.slots@[i2] is Some);
                                assert(oldset.spec_has(e));
                                assert(oldset.slots@[i2]->Some_0.generation == e.generation);
                            }
                        }
                    }
                    assert(self.wf());
                    assert forall|e2: Entity, c: int|
                        !(e2 == e && c == cid as int) implies #[trigger] self.spec_component_value(
                        e2,
                        c,
                    ) == wold.spec_component_value(e2, c)
                        && #[trigger] self.spec_component_ticks(e2, c)
                        == wold.spec_component_ticks(e2, c) by {
                        if wold.spec_alive(e2) && wold.spec_info(c) is Some {
                            match wold.spec_info(c)->Some_0.storage_type {
                                StorageType::Table => {},
                                StorageType::SparseSet => {
                                    if c != ci {
                                        if 0 <= c < self.storages.sparse_sets@.len() {
                                            assert(self.storages.sparse_sets@[c]
                                                == wold.storages.sparse_sets@[c]);
                                        }
                                    } else {
                                        assert(e2 != e);
                                        assert(newset.spec_value(e2) == oldset.spec_value(e2));
                                        assert(newset.spec_ticks(e2) == oldset.spec_ticks(e2));
                                    }
                                },
                            }
                        }
                    }
                }
            },
        }
    }
}

/// After a spawn, every component value and tick pair of every other entity
/// reads the same: the new table and archetype stand beyond the old ones,
/// and the sparse sets changed only at the new entity's index.
proof fn lemma_spawn_component_frame(
    wold: &World,
    wnew: &World,
    e: Entity,
    e2: Entity,
    c: int,
    nt: int,
    nm: int,
)
    requires
        wold.wf(),
        e2 != e,
        e.index as int == nm,
        nm == wold.entities.meta@.len(),
        nt == wold.storages.tables@.len(),
        wnew.components == wold.components,
        wnew.entities.meta@.len() == nm + 1,
        forall|i: int|
            0 <= i < nm ==> #[trigger] wnew.entities.meta@[i] == wold.entities.meta@[i],
        wnew.storages.tables@.len() == nt + 1,
        forall|t: int|
            0 <= t < nt ==> #[trigger] wnew.storages.tables@[t] == wold.storages.tables@[t],
        wnew.storages.sparse_sets@.len() >= wold.storages.sparse_sets@.len(),
        forall|s: int|
            0 <= s < wnew.storages.sparse_sets@.len() && (
            #[trigger] wnew.storages.sparse_sets@[s]) is Some && s
                < wold.storages.sparse_sets@.len() && wold.storages.sparse_sets@[s] is Some
                ==> wnew.storages.sparse_sets@[s]->Some_0.slots@.len()
                >= wold.storages.sparse_sets@[s]->Some_0.slots@.len(),
        wnew.entities.meta@[nm] is Some,
        wnew.entities.meta@[nm]->Some_0.generation == 1,
        e.generation == 1,
        forall|s: int, i2: int|
            0 <= s < wnew.storages.sparse_sets@.len() && wnew.storages.sparse_sets@[s] is Some
                && 0 <= i2 < wnew.storages.sparse_sets@[s]->Some_0.slots@.len() && i2
                != e.index as int ==> #[trigger] wnew.storages.sparse_sets@[s]->Some_0.slots@[i2]
                == (if s < wold.storages.sparse_sets@.len() && wold.storages.sparse_sets@[
                s
            ] is Some && i2 < wold.storages.sparse_sets@[s]->Some_0.slots@.len() {
                wold.storages.sparse_sets@[s]->Some_0.slots@[i2]
            } else {
                None
            }),
        forall|s: int|
            0 <= s < wold.storages.sparse_sets@.len() && wold.storages.sparse_sets@[s] is Some
                ==> (#[trigger] wnew.storages.sparse_sets@[s]) is Some,
    ensures
        wnew.spec_component_value(e2, c) == wold.spec_component_value(e2, c),
        wnew.spec_component_ticks(e2, c) == wold.spec_component_ticks(e2, c),
{
    if (e2.index as int) < nm {
        assert(wnew.entities.meta@[e2.index as int] == wold.entities.meta@[e2.index as int]);
    } else if e2.index as int == nm {
        assert(e2.generation != 1 ==> !wnew.spec_alive(e2));
    }
    if wold.spec_alive(e2) {
        assert(wnew.entities.meta@[e2.index as int] == wold.entities.meta@[e2.index as int]);
        assert(wnew.spec_alive(e2));
        let m = wold.entities.spec_meta(e2);
        assert(wnew.entities.spec_meta(e2) == m);
        if wold.spec_info(c) is Some {
            match wold.spec_info(c)->Some_0.storage_type {
                StorageType::Table => {
                    assert(wold.slot_wf(e2.index as int));
                    assert(wold.archetype_wf(m.location.archetype_id as int));
                    assert(m.location.table_id < nt);
                    assert(wnew.storages.tables@[m.location.table_id as int]
                        == wold.storages.tables@[m.location.table_id as int]);
                },
                StorageType::SparseSet => {
                    assert((e2.index as int) < nm);
                    if 0 <= c < wold.storages.sparse_sets@.len()
                        && wold.storages.sparse_sets@[c] is Some {
                        assert(wnew.storages.sparse_sets@[c] is Some);
                        let oldset = wold.storages.sparse_sets@[c]->Some_0;
                        let newset = wnew.storages.sparse_sets@[c]->Some_0;
                        if (e2.index as int) < newset.slots@.len() {
                            assert(newset.slots@[e2.index as int] == (if (e2.index as int)
                                < oldset.slots@.len() {
                                oldset.slots@[e2.index as int]
                            } else {
                                None
                            }));
                        } else {
                            if (e2.index as int) < oldset.slots@.len() {
                                assert(newset.slots@.len() >= oldset.slots@.len());
                                assert(false);
                            }
                        }
                    } else {
                        if 0 <= c < wnew.storages.sparse_sets@.len()
                            && wnew.storages.sparse_sets@[c] is Some {
                            let newset = wnew.storages.sparse_sets@[c]->Some_0;
                            if (e2.index as int) < newset.slots@.len() {
                                assert(newset.slots@[e2.index as int] is None);
                            }
                        }
                    }
                },
            }
        }
    } else {
        if wnew.spec_alive(e2) {
            assert(e2.index as int == nm);
            assert(wnew.entities.meta@[nm]->Some_0.generation == 1);
            assert(e2.generation == 1);
            assert(e2 == e);
            assert(false);
        }
    }
}

} // verus!
