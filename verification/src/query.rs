//! The narrow seam between the cell and the query subsystem.
//!
//! A compiled query descriptor exposes exactly the capabilities the cell
//! drives: resolve state against the registry, match a component set, set
//! up a fetch, point it at an archetype and its table, fetch an item for
//! one entity, and release the item from the query's state.  The cell
//! proves the dispatch — an item comes back exactly when the state resolves
//! and the entity's archetype matches — while what the item holds is the
//! descriptor's own business.

use vstd::prelude::*;

use crate::archetype::Archetype;
use crate::component::{ComponentId, Components, StorageType, TypeKey};
use crate::entity::Entity;
use crate::storage::Table;
use crate::tick::Tick;
use crate::world::World;

verus! {

/// A compiled query descriptor whose items outlive the query state.
pub trait ReleaseStateQueryData {
    /// The query's compiled state: what its component keys resolved to.
    type State;

    /// The query's cursor over one archetype's storage.
    type Fetch;

    /// What the query yields for one entity.
    type Item;

    /// Whether the query's state resolves against this registry.
    spec fn spec_has_state(components: Components) -> bool;

    /// The resolved state; meaningful only when `spec_has_state`.
    spec fn spec_state(components: Components) -> Self::State;

    /// Whether the resolved state matches an archetype's component set.
    spec fn spec_matches(state: Self::State, archetype: Archetype) -> bool;

    /// Resolves the query's state against the registry.
    fn get_state(components: &Components) -> (r: Option<Self::State>)
        requires
            components.wf(),
        ensures
            r is Some <==> Self::spec_has_state(*components),
            r matches Some(s) ==> s == Self::spec_state(*components),
    ;

    /// Whether the state matches an archetype's component set.
    fn matches_component_set(state: &Self::State, archetype: &Archetype) -> (r: bool)
        ensures
            r == Self::spec_matches(*state, *archetype),
    ;

    /// Prepares a fetch for the given change-detection window.
    fn init_fetch(world: &World, state: &Self::State, last_run: Tick, this_run: Tick) -> Self::Fetch
        requires
            world.wf(),
    ;

    /// Points the fetch at one archetype and the table holding its dense
    /// components.
    fn set_archetype(
        fetch: &mut Self::Fetch,
        state: &Self::State,
        archetype: &Archetype,
        table: &Table,
    )
        requires
            table.wf(),
    ;

    /// Fetches the item for one entity at its table row.
    fn fetch(state: &Self::State, fetch: &mut Self::Fetch, entity: Entity, table_row: usize) -> Self::Item;

    /// Releases the item from the query's state.
    fn release_state(item: Self::Item) -> (r: Self::Item)
        ensures
            r == item,
    ;
}

/// A query yielding the untyped value of the single dense component whose
/// type key is `KEY`.
pub struct ValueQuery<const KEY: u64> {}

impl<const KEY: u64> ReleaseStateQueryData for ValueQuery<KEY> {
    type State = ComponentId;

    type Fetch = Vec<Vec<u8>>;

    type Item = Vec<u8>;

    open spec fn spec_has_state(components: Components) -> bool {
        &&& components.spec_has_key(KEY as TypeKey)
        &&& components.infos@[components.spec_id_of(KEY as TypeKey)].kind
            == crate::component::ComponentKind::Component
        &&& components.infos@[components.spec_id_of(KEY as TypeKey)].storage_type
            == StorageType::Table
    }

    open spec fn spec_state(components: Components) -> ComponentId {
        components.spec_id_of(KEY as TypeKey) as ComponentId
    }

    open spec fn spec_matches(state: ComponentId, archetype: Archetype) -> bool {
        archetype.spec_contains(state as int)
    }

    fn get_state(components: &Components) -> (r: Option<ComponentId>) {
        let id = match components.get_valid_id(KEY) {
            Some(id) => id,
            None => {
                return None;
            },
        };
        match components.get_info(id) {
            Some(info) => {
                if matches!(info.storage_type, StorageType::Table) {
                    Some(id)
                } else {
                    None
                }
            },
            None => None,
        }
    }

    fn matches_component_set(state: &ComponentId, archetype: &Archetype) -> (r: bool) {
        archetype.contains(*state)
    }

    fn init_fetch(world: &World, state: &ComponentId, last_run: Tick, this_run: Tick) -> Vec<
        Vec<u8>,
    > {
        Vec::new()
    }

    fn set_archetype(
        fetch: &mut Vec<Vec<u8>>,
        state: &ComponentId,
        archetype: &Archetype,
        table: &Table,
    ) {
        let n = table.columns.len();
        let mut i: usize = 0;
        let mut data: Vec<Vec<u8>> = Vec::new();
        while i < n
            invariant
                n == table.columns@.len(),
                0 <= i <= n,
            decreases n - i,
        {
            if table.columns[i].component_id == *state {
                data = table.columns[i].data.clone();
            }
            i += 1;
        }
        *fetch = data;
    }

    fn fetch(state: &ComponentId, fetch: &mut Vec<Vec<u8>>, entity: Entity, table_row: usize) -> Vec<
        u8,
    > {
        if table_row < fetch.len() {
            fetch[table_row].clone()
        } else {
            Vec::new()
        }
    }

    fn release_state(item: Vec<u8>) -> (r: Vec<u8>) {
        item
    }
}

} // verus!
