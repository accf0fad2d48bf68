//! Entity identifiers and the entity index.
//!
//! An entity is an opaque identifier made of an index and a generation.  The
//! entity index maps a live entity to the location of its row in storage and
//! remembers where and when it was spawned.

use vstd::prelude::*;

use crate::tick::Tick;

verus! {

/// Identifies one row of the store: a slot index plus the generation at
/// which that slot was last spawned.
#[derive(Debug, Clone, Copy, PartialEq, Eq, Structural)]
pub struct Entity {
    /// The slot in the entity index.
    pub index: u32,
    /// Distinguishes successive entities that reuse the same slot.
    pub generation: u32,
}

/// Where a live entity's components are stored: the archetype it belongs to
/// and the table row holding its dense components.
#[derive(Debug, Clone, Copy, PartialEq, Eq, Structural)]
pub struct EntityLocation {
    /// The archetype the entity belongs to.
    pub archetype_id: usize,
    /// The entity's row inside the archetype's entity list.
    pub archetype_row: usize,
    /// The table holding the entity's dense components.
    pub table_id: usize,
    /// The entity's row in that table.
    pub table_row: usize,
}

/// What the entity index remembers about one live entity.
#[derive(Debug, Clone, Copy, PartialEq, Eq, Structural)]
pub struct EntityMeta {
    /// The generation the slot currently holds.
    pub generation: u32,
    /// Where the entity's components are stored.
    pub location: EntityLocation,
    /// An opaque key naming the call site that spawned the entity.
    pub spawned_by: u64,
    /// The change tick at which the entity was spawned.
    pub spawned_at: Tick,
}

/// The entity index: one slot per entity index ever allocated, holding the
/// metadata of the live entity in that slot, or `None` after a despawn.
pub struct Entities {
    /// Slot metadata, indexed by `Entity::index`.
    pub meta: Vec<Option<EntityMeta>>,
}

impl Entities {
    /// Whether `e` is currently alive: its slot exists and still holds its
    /// generation.
    pub open spec fn spec_alive(&self, e: Entity) -> bool {
        &&& (e.index as int) < self.meta@.len()
        &&& self.meta@[e.index as int] is Some
        &&& self.meta@[e.index as int]->Some_0.generation == e.generation
    }

    /// The metadata of `e`; meaningful only while `spec_alive(e)`.
    pub open spec fn spec_meta(&self, e: Entity) -> EntityMeta {
        self.meta@[e.index as int]->Some_0
    }

    /// The location of `e`, or `None` when `e` is not alive.
    pub open spec fn spec_get(&self, e: Entity) -> Option<EntityLocation> {
        if self.spec_alive(e) {
            Some(self.spec_meta(e).location)
        } else {
            None
        }
    }

    /// The generation currently held by the slot of `e`, or `None` when the
    /// slot is unknown or empty.  This is the hint carried by
    /// [`EntityDoesNotExistError`].
    pub open spec fn spec_slot_generation(&self, e: Entity) -> Option<u32> {
        if (e.index as int) < self.meta@.len() && self.meta@[e.index as int] is Some {
            Some(self.meta@[e.index as int]->Some_0.generation)
        } else {
            None
        }
    }

    /// Creates an empty entity index.
    pub fn new() -> (r: Entities)
        ensures
            r.meta@.len() == 0,
    {
        Entities { meta: Vec::new() }
    }

    /// The location of `e`, or `None` when `e` is not alive.
    pub fn get(&self, e: Entity) -> (r: Option<EntityLocation>)
        ensures
            r == self.spec_get(e),
    {
        if (e.index as usize) < self.meta.len() {
            match &self.meta[e.index as usize] {
                Some(m) => {
                    if m.generation == e.generation {
                        Some(m.location)
                    } else {
                        None
                    }
                },
                None => None,
            }
        } else {
            None
        }
    }

    /// The key of the call site that spawned `e`, or `None` when `e` is not
    /// alive.
    pub fn entity_get_spawned_or_despawned_by(&self, e: Entity) -> (r: Option<u64>)
        ensures
            r is Some <==> self.spec_alive(e),
            self.spec_alive(e) ==> r == Some(self.spec_meta(e).spawned_by),
    {
        if (e.index as usize) < self.meta.len() {
            match &self.meta[e.index as usize] {
                Some(m) => {
                    if m.generation == e.generation {
                        Some(m.spawned_by)
                    } else {
                        None
                    }
                },
                None => None,
            }
        } else {
            None
        }
    }

    /// The change tick at which `e` was spawned, or `None` when `e` is not
    /// alive.
    pub fn entity_get_spawned_or_despawned_at(&self, e: Entity) -> (r: Option<Tick>)
        ensures
            r is Some <==> self.spec_alive(e),
            self.spec_alive(e) ==> r == Some(self.spec_meta(e).spawned_at),
    {
        if (e.index as usize) < self.meta.len() {
            match &self.meta[e.index as usize] {
                Some(m) => {
                    if m.generation == e.generation {
                        Some(m.spawned_at)
                    } else {
                        None
                    }
                },
                None => None,
            }
        } else {
            None
        }
    }
}

/// Returned when an entity id cannot be resolved against the entity index.
#[derive(Debug, Clone, Copy, PartialEq, Eq)]
pub struct EntityDoesNotExistError {
    /// The entity that could not be resolved.
    pub entity: Entity,
    /// The generation its slot currently holds, or `None` when the slot is
    /// unknown or empty; a hint at why the resolution failed.
    pub current_generation: Option<u32>,
}

impl EntityDoesNotExistError {
    /// Records that `entity` could not be resolved against `entities`.
    pub fn new(entity: Entity, entities: &Entities) -> (r: EntityDoesNotExistError)
        ensures
            r.entity == entity,
            r.current_generation == entities.spec_slot_generation(entity),
    {
        let current_generation = if (entity.index as usize) < entities.meta.len() {
            match &entities.meta[entity.index as usize] {
                Some(m) => Some(m.generation),
                None => None,
            }
        } else {
            None
        };
        EntityDoesNotExistError { entity, current_generation }
    }
}

} // verus!
