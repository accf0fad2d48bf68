//! Laws tying the cell's access paths together.
//!
//! The accessors' own contracts pin each path down; the lemmas here state
//! the cross-cutting guarantees a consumer relies on, proved once from the
//! world's well-formedness.

use vstd::prelude::*;

use crate::component::{StorageType, TypeKey};
use crate::entity::Entity;
use crate::world::World;

verus! {

/// Round trip of values: a write through a component-write handle lands
/// where every read path looks.  After a write of `v` to the component that
/// `key` resolves to — which changes neither the registry nor the entity
/// index — the key still resolves to the same id, and the typed read of
/// `key` on that entity yields exactly `v`.
pub proof fn lemma_write_read_round_trip(
    before: &World,
    after: &World,
    e: Entity,
    key: TypeKey,
    v: Seq<u8>,
)
    requires
        before.spec_valid_component_id(key) is Some,
        after.components == before.components,
        after.spec_component_value(e, before.spec_valid_component_id(key)->Some_0) == Some(v),
    ensures
        after.spec_valid_component_id(key) == before.spec_valid_component_id(key),
        after.spec_component_value(e, after.spec_valid_component_id(key)->Some_0) == Some(v),
{
}

/// Absence equivalence: for any entity alive in a well-formed world, and
/// any type key registered as an entity component, the dispatched read of
/// that component is absent exactly when the entity's archetype does not
/// list it.  So `get` returns `None` if and only if `contains` returns
/// `false`, for every entity and every type known to the registry.
pub proof fn lemma_absence_equivalence(world: &World, e: Entity, id: int)
    requires
        world.wf(),
        world.spec_alive(e),
        world.spec_info(id) matches Some(info) && info.kind
            == crate::component::ComponentKind::Component,
    ensures
        world.spec_component_value(e, id) is None <==> !world.spec_archetype_contains(e, id),
{
    let m = world.entities.spec_meta(e);
    let loc = m.location;
    assert(world.slot_wf(e.index as int));
    let arch = world.archetypes.archetypes@[loc.archetype_id as int];
    assert(world.archetype_wf(loc.archetype_id as int));
    let info = world.spec_info(id)->Some_0;
    match info.storage_type {
        StorageType::Table => {
            if world.spec_archetype_contains(e, id) {
                let k = choose|k: int|
                    0 <= k < arch.components@.len() && arch.components@[k] == id;
                assert(world.storages.tables@[arch.table_id as int].spec_has_column(
                    arch.components@[k] as int,
                ));
                assert(world.storages.tables@[loc.table_id as int].spec_has_column(id));
                assert(world.spec_component_value(e, id) is Some);
            } else {
                if world.spec_component_value(e, id) is Some {
                    assert(world.storages.tables@[loc.table_id as int].spec_has_column(id));
                    assert(arch.spec_contains(id));
                    assert(false);
                }
            }
        },
        StorageType::SparseSet => {
            if world.spec_archetype_contains(e, id) {
                let k = choose|k: int|
                    0 <= k < arch.components@.len() && arch.components@[k] == id;
                assert(world.storages.sparse_sets@[
                    arch.components@[k] as int
                ]->Some_0.spec_has(e));
                assert(world.spec_component_value(e, id) is Some);
            } else {
                if world.spec_component_value(e, id) is Some {
                    let set = world.storages.sparse_sets@[id]->Some_0;
                    assert(set.spec_has(e));
                    assert(set.slots@[e.index as int] is Some);
                    assert(world.sparse_inverse_wf());
                    let e2 = Entity {
                        index: e.index,
                        generation: set.slots@[e.index as int]->Some_0.generation,
                    };
                    assert(world.spec_archetype_contains(e2, id));
                    assert(e2 == e);
                    assert(false);
                }
            }
        },
    }
}

} // verus!
