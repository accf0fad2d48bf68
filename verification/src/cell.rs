//! Cells granting disjoint access to a world.
//!
//! A world cell is a copyable handle bound to one world, carrying a single
//! capability bit: read-only cells can never hand out a write handle.
//! Where an unverified store would enforce that with a debug assertion,
//! this library states it as a precondition on every mutating operation.  An entity cell narrows a
//! world cell to one entity, caching its identity, its storage location and
//! the change-detection window its accesses are interpreted against.
//!
//! Because the verifier admits no shared mutable state, every accessor
//! takes the world it reads — `&World` — or writes — `&mut World` —
//! explicitly; a cell carries the world's id, and every contract ties the
//! cell to the world passed in.

use vstd::prelude::*;

use crate::archetype::{Archetype, Archetypes};
use crate::change_detection::{MutUntyped, RefUntyped, WriteTarget};
use crate::component::{ComponentId, Components, StorageType, TypeKey};
use crate::entity::{Entities, Entity, EntityDoesNotExistError, EntityLocation};
use crate::error::{ErrorHandler, DEFAULT_ERROR_HANDLER_KEY};
use crate::query::ReleaseStateQueryData;
use crate::storage::Storages;
use crate::tick::{spec_tick_next, ComponentTicks, Tick};
use crate::world::{World, WorldId};

verus! {

/// A copyable handle to a world through which disjoint accesses are made.
/// The capability bit decides whether it may ever hand out write access.
#[derive(Debug, Clone, Copy, PartialEq, Eq, Structural)]
pub struct UnsafeWorldCell {
    /// The id of the world this cell was created from.
    world_id: WorldId,
    /// Whether mutating operations may go through this cell.
    allows_mutable_access: bool,
}

impl UnsafeWorldCell {
    /// The id of the world this cell was created from.
    pub closed spec fn spec_world_id(&self) -> WorldId {
        self.world_id
    }

    /// Whether mutating operations may go through this cell.
    pub closed spec fn spec_allows_mutable_access(&self) -> bool {
        self.allows_mutable_access
    }

    /// Whether this cell was created from `world`.
    pub open spec fn spec_belongs_to(&self, world: &World) -> bool {
        self.spec_world_id() == world.id
    }

    /// Creates a cell that can be used to access everything immutably.
    pub fn new_readonly(world: &World) -> (r: UnsafeWorldCell)
        ensures
            r.spec_belongs_to(world),
            !r.spec_allows_mutable_access(),
    {
        UnsafeWorldCell { world_id: world.id, allows_mutable_access: false }
    }

    /// Creates a cell that can be used to access everything mutably.  It
    /// consumes an exclusive borrow of the world, which it leaves untouched.
    pub fn new_mutable(world: &mut World) -> (r: UnsafeWorldCell)
        ensures
            *final(world) == *old(world),
            r.spec_belongs_to(old(world)),
            r.spec_allows_mutable_access(),
    {
        UnsafeWorldCell { world_id: world.id, allows_mutable_access: true }
    }

    /// The static form of the capability guard: in place of a debug panic
    /// on a read-only cell, every caller must establish the capability bit
    /// before the call is admitted.
    pub fn assert_allows_mutable_access(&self)
        requires
            self.spec_allows_mutable_access(),
    {
    }

    /// Hands back the exclusive world borrow this cell mediates: the
    /// escalation to a whole-world reference.  Only a write-capable cell
    /// may escalate; asking on a read-only cell is the capability
    /// violation the precondition rules out.  The caller's obligation that
    /// no other access through this cell or its derivatives is live is met
    /// by construction: the exclusive borrow passed in is the only path to
    /// the world's data.
    pub fn world_mut<'w>(&self, world: &'w mut World) -> (r: &'w mut World)
        requires
            self.spec_belongs_to(old(world)),
            self.spec_allows_mutable_access(),
        ensures
            *r == *old(world),
            *final(world) == *final(r),
    {
        self.assert_allows_mutable_access();
        world
    }

    /// Hands back the shared world borrow this cell mediates, for
    /// arbitrary read-only access.
    pub fn world<'w>(&self, world: &'w World) -> (r: &'w World)
        requires
            self.spec_belongs_to(world),
        ensures
            r == world,
    {
        world
    }

    /// Hands back the shared world borrow for metadata-only access; the
    /// metadata accessors below go through it.
    pub fn world_metadata<'w>(&self, world: &'w World) -> (r: &'w World)
        requires
            self.spec_belongs_to(world),
        ensures
            r == world,
    {
        world
    }

    /// Whether mutating operations may go through this cell.
    pub fn allows_mutable_access(&self) -> (r: bool)
        ensures
            r == self.spec_allows_mutable_access(),
    {
        self.allows_mutable_access
    }

    /// Retrieves this world's unique id.
    pub fn id(&self) -> (r: WorldId)
        ensures
            r == self.spec_world_id(),
    {
        self.world_id
    }

    /// Retrieves the world's entity index.
    pub fn entities<'w>(&self, world: &'w World) -> (r: &'w Entities)
        requires
            self.spec_belongs_to(world),
        ensures
            r == &world.entities,
    {
        &world.entities
    }

    /// Retrieves the world's archetype set.
    pub fn archetypes<'w>(&self, world: &'w World) -> (r: &'w Archetypes)
        requires
            self.spec_belongs_to(world),
        ensures
            r == &world.archetypes,
    {
        &world.archetypes
    }

    /// Retrieves the world's component registry.
    pub fn components<'w>(&self, world: &'w World) -> (r: &'w Components)
        requires
            self.spec_belongs_to(world),
        ensures
            r == &world.components,
    {
        &world.components
    }

    /// Provides access to the world's raw data stores.
    pub fn storages<'w>(&self, world: &'w World) -> (r: &'w Storages)
        requires
            self.spec_belongs_to(world),
        ensures
            r == &world.storages,
    {
        &world.storages
    }

    /// Gets the current change tick of the world.
    pub fn change_tick(&self, world: &World) -> (r: Tick)
        requires
            self.spec_belongs_to(world),
        ensures
            r.tick == world.change_tick,
    {
        world.read_change_tick()
    }

    /// The tick at which change trackers were last cleared.
    pub fn last_change_tick(&self, world: &World) -> (r: Tick)
        requires
            self.spec_belongs_to(world),
        ensures
            r == world.last_change_tick,
    {
        world.last_change_tick()
    }

    /// The id of the last trigger that was fired.
    pub fn last_trigger_id(&self, world: &World) -> (r: u32)
        requires
            self.spec_belongs_to(world),
        ensures
            r == world.last_trigger_id,
    {
        world.last_trigger_id
    }

    /// Increments the world's change tick and returns the old value.  The
    /// counter bump needs no write capability; exclusivity of the counter
    /// comes from the exclusive world borrow.
    pub fn increment_change_tick(&self, world: &mut World) -> (r: Tick)
        requires
            self.spec_belongs_to(old(world)),
        ensures
            r.tick == old(world).change_tick,
            final(world).change_tick == spec_tick_next(old(world).change_tick),
            final(world).id == old(world).id,
            final(world).entities == old(world).entities,
            final(world).archetypes == old(world).archetypes,
            final(world).components == old(world).components,
            final(world).storages == old(world).storages,
            final(world).last_change_tick == old(world).last_change_tick,
            final(world).last_trigger_id == old(world).last_trigger_id,
            old(world).wf() ==> final(world).wf(),
            self.spec_belongs_to(final(world)),
    {
        world.increment_change_tick()
    }

    /// Increments the world's trigger-id counter, wrapping around at the
    /// top; only a write-capable cell may do this.
    pub fn increment_trigger_id(&self, world: &mut World)
        requires
            self.spec_belongs_to(old(world)),
            self.spec_allows_mutable_access(),
        ensures
            final(world).last_trigger_id == vstd::wrapping::u32_specs::wrapping_add(
                old(world).last_trigger_id,
                1,
            ),
            final(world).id == old(world).id,
            final(world).entities == old(world).entities,
            final(world).archetypes == old(world).archetypes,
            final(world).components == old(world).components,
            final(world).storages == old(world).storages,
            final(world).change_tick == old(world).change_tick,
            final(world).last_change_tick == old(world).last_change_tick,
            old(world).wf() ==> final(world).wf(),
    {
        self.assert_allows_mutable_access();
        world.increment_trigger_id()
    }

    /// Retrieves an entity cell exposing read and write operations for
    /// `entity`, carrying the world's own change-detection window, or the
    /// reason the entity could not be resolved.
    pub fn get_entity(&self, world: &World, entity: Entity) -> (r: Result<
        UnsafeEntityCell,
        EntityDoesNotExistError,
    >)
        requires
            self.spec_belongs_to(world),
        ensures
            r is Ok <==> world.spec_alive(entity),
            r matches Ok(cell) ==> cell.spec_world() == *self && cell.spec_entity() == entity
                && Some(cell.spec_location()) == world.spec_location(entity)
                && cell.spec_last_run() == world.last_change_tick
                && cell.spec_this_run().tick == world.change_tick,
            r matches Err(err) ==> err.entity == entity && err.current_generation
                == world.entities.spec_slot_generation(entity),
    {
        match world.entities.get(entity) {
            Some(location) => Ok(
                UnsafeEntityCell::new(
                    *self,
                    entity,
                    location,
                    world.last_change_tick(),
                    world.read_change_tick(),
                ),
            ),
            None => Err(EntityDoesNotExistError::new(entity, &world.entities)),
        }
    }

    /// Retrieves an entity cell for `entity` that evaluates change
    /// detection against the explicit window `(last_run, this_run)` instead
    /// of the world's own.
    pub fn get_entity_with_ticks(
        &self,
        world: &World,
        entity: Entity,
        last_run: Tick,
        this_run: Tick,
    ) -> (r: Result<UnsafeEntityCell, EntityDoesNotExistError>)
        requires
            self.spec_belongs_to(world),
        ensures
            r is Ok <==> world.spec_alive(entity),
            r matches Ok(cell) ==> cell.spec_world() == *self && cell.spec_entity() == entity
                && Some(cell.spec_location()) == world.spec_location(entity)
                && cell.spec_last_run() == last_run && cell.spec_this_run() == this_run,
            r matches Err(err) ==> err.entity == entity && err.current_generation
                == world.entities.spec_slot_generation(entity),
    {
        match world.entities.get(entity) {
            Some(location) => Ok(
                UnsafeEntityCell::new(*self, entity, location, last_run, this_run),
            ),
            None => Err(EntityDoesNotExistError::new(entity, &world.entities)),
        }
    }

    /// Gets the resource of the given type if it exists.
    pub fn get_resource<'w>(&self, world: &'w World, type_key: TypeKey) -> (r: Option<
        &'w Vec<u8>,
    >)
        requires
            world.wf(),
            self.spec_belongs_to(world),
        ensures
            r is Some <==> (world.spec_valid_resource_id(type_key) matches Some(id)
                && world.spec_resource_value(id) is Some),
            r matches Some(v) ==> world.spec_resource_value(
                world.spec_valid_resource_id(type_key)->Some_0,
            ) == Some(v@),
    {
        match world.components.get_valid_resource_id(type_key) {
            Some(component_id) => self.get_resource_by_id(world, component_id),
            None => None,
        }
    }

    /// Gets the resource of the given type together with its change ticks,
    /// interpreted against the world's own window, if it exists.
    pub fn get_resource_ref<'w>(&self, world: &'w World, type_key: TypeKey) -> (r: Option<
        RefUntyped<'w>,
    >)
        requires
            world.wf(),
            self.spec_belongs_to(world),
        ensures
            r is Some <==> (world.spec_valid_resource_id(type_key) matches Some(id)
                && world.spec_resource_value(id) is Some),
            r matches Some(rr) ==> Some(rr.spec_value()) == world.spec_resource_value(
                world.spec_valid_resource_id(type_key)->Some_0,
            ) && Some(rr.spec_ticks()) == world.spec_resource_ticks(
                world.spec_valid_resource_id(type_key)->Some_0,
            ) && rr.spec_last_run() == world.last_change_tick && rr.spec_this_run().tick
                == world.change_tick,
    {
        let component_id = match world.components.get_valid_resource_id(type_key) {
            Some(component_id) => component_id,
            None => {
                return None;
            },
        };
        match self.get_resource_with_ticks(world, component_id) {
            Some((value, ticks)) => Some(
                RefUntyped::new(value, ticks, world.last_change_tick(), world.read_change_tick()),
            ),
            None => None,
        }
    }

    /// Gets the resource stored under `component_id` if it exists.
    pub fn get_resource_by_id<'w>(&self, world: &'w World, component_id: ComponentId) -> (r:
        Option<&'w Vec<u8>>)
        requires
            self.spec_belongs_to(world),
        ensures
            match r {
                Some(v) => world.spec_resource_value(component_id as int) == Some(v@),
                None => world.spec_resource_value(component_id as int) is None,
            },
    {
        match world.storages.get_resource(component_id) {
            Some(d) => Some(&d.value),
            None => None,
        }
    }

    /// Gets the resource stored under `component_id` together with its tick
    /// pair, if it exists.
    pub(crate) fn get_resource_with_ticks<'w>(
        &self,
        world: &'w World,
        component_id: ComponentId,
    ) -> (r: Option<(&'w Vec<u8>, ComponentTicks)>)
        requires
            self.spec_belongs_to(world),
        ensures
            match r {
                Some(p) => world.spec_resource_value(component_id as int) == Some(p.0@)
                    && world.spec_resource_ticks(component_id as int) == Some(p.1),
                None => world.spec_resource_value(component_id as int) is None,
            },
    {
        match world.storages.get_resource(component_id) {
            Some(d) => Some((&d.value, d.ticks)),
            None => None,
        }
    }

    /// Gets the thread-bound resource stored under `component_id` together
    /// with its tick pair, if it exists; only the thread that inserted it
    /// may ask.
    pub(crate) fn get_non_send_with_ticks<'w>(
        &self,
        world: &'w World,
        component_id: ComponentId,
        caller_thread: u64,
    ) -> (r: Option<(&'w Vec<u8>, ComponentTicks)>)
        requires
            self.spec_belongs_to(world),
            world.spec_non_send_allows(component_id as int, caller_thread),
        ensures
            match r {
                Some(p) => world.spec_non_send_value(component_id as int) == Some(p.0@)
                    && world.spec_non_send_ticks(component_id as int) == Some(p.1),
                None => world.spec_non_send_value(component_id as int) is None,
            },
    {
        match world.storages.get_non_send_resource(component_id) {
            Some(d) => Some((&d.value, d.ticks)),
            None => None,
        }
    }

    /// Gets the thread-bound resource of the given type if it exists.  The
    /// caller passes the key of the thread it runs on; the storage layer
    /// admits only the thread that inserted the value.
    pub fn get_non_send_resource<'w>(
        &self,
        world: &'w World,
        type_key: TypeKey,
        caller_thread: u64,
    ) -> (r: Option<&'w Vec<u8>>)
        requires
            world.wf(),
            self.spec_belongs_to(world),
            world.spec_valid_resource_id(type_key) matches Some(id) ==> world.spec_non_send_allows(
                id,
                caller_thread,
            ),
        ensures
            r is Some <==> (world.spec_valid_resource_id(type_key) matches Some(id)
                && world.spec_non_send_value(id) is Some),
            r matches Some(v) ==> world.spec_non_send_value(
                world.spec_valid_resource_id(type_key)->Some_0,
            ) == Some(v@),
    {
        match world.components.get_valid_resource_id(type_key) {
            Some(component_id) => self.get_non_send_resource_by_id(
                world,
                component_id,
                caller_thread,
            ),
            None => None,
        }
    }

    /// Gets the thread-bound resource stored under `component_id` if it
    /// exists; only the thread that inserted it may ask.
    pub fn get_non_send_resource_by_id<'w>(
        &self,
        world: &'w World,
        component_id: ComponentId,
        caller_thread: u64,
    ) -> (r: Option<&'w Vec<u8>>)
        requires
            self.spec_belongs_to(world),
            world.spec_non_send_allows(component_id as int, caller_thread),
        ensures
            match r {
                Some(v) => world.spec_non_send_value(component_id as int) == Some(v@),
                None => world.spec_non_send_value(component_id as int) is None,
            },
    {
        match world.storages.get_non_send_resource(component_id) {
            Some(d) => Some(&d.value),
            None => None,
        }
    }

    /// Gets a write handle to the resource of the given type if it exists;
    /// only a write-capable cell may ask.  Writing through the handle
    /// stamps the resource's changed tick with the current change tick.
    pub fn get_resource_mut(&self, world: &World, type_key: TypeKey) -> (r: Option<MutUntyped>)
        requires
            world.wf(),
            self.spec_belongs_to(world),
            self.spec_allows_mutable_access(),
        ensures
            r is Some <==> (world.spec_valid_resource_id(type_key) matches Some(id)
                && world.spec_resource_value(id) is Some),
            r matches Some(m) ==> m.spec_world_id() == world.id && m.spec_target() == (
            WriteTarget::Resource {
                component_id: world.spec_valid_resource_id(type_key)->Some_0 as ComponentId,
            }) && m.spec_last_run() == world.last_change_tick && m.spec_this_run().tick
                == world.change_tick,
    {
        self.assert_allows_mutable_access();
        match world.components.get_valid_resource_id(type_key) {
            Some(component_id) => self.get_resource_mut_by_id(world, component_id),
            None => None,
        }
    }

    /// Gets a write handle to the resource stored under `component_id` if
    /// it exists; only a write-capable cell may ask.
    pub fn get_resource_mut_by_id(&self, world: &World, component_id: ComponentId) -> (r: Option<
        MutUntyped,
    >)
        requires
            self.spec_belongs_to(world),
            self.spec_allows_mutable_access(),
        ensures
            r is Some <==> world.spec_resource_value(component_id as int) is Some,
            r matches Some(m) ==> m.spec_world_id() == world.id && m.spec_target() == (
            WriteTarget::Resource { component_id }) && m.spec_last_run()
                == world.last_change_tick && m.spec_this_run().tick == world.change_tick,
    {
        self.assert_allows_mutable_access();
        match self.get_resource_with_ticks(world, component_id) {
            Some(_) => Some(
                MutUntyped::new(
                    world.id,
                    WriteTarget::Resource { component_id },
                    world.last_change_tick(),
                    world.read_change_tick(),
                ),
            ),
            None => None,
        }
    }

    /// Gets a write handle to the thread-bound resource of the given type
    /// if it exists; only a write-capable cell may ask, and only from the
    /// thread that inserted the value.
    pub fn get_non_send_resource_mut(
        &self,
        world: &World,
        type_key: TypeKey,
        caller_thread: u64,
    ) -> (r: Option<MutUntyped>)
        requires
            world.wf(),
            self.spec_belongs_to(world),
            self.spec_allows_mutable_access(),
            world.spec_valid_resource_id(type_key) matches Some(id) ==> world.spec_non_send_allows(
                id,
                caller_thread,
            ),
        ensures
            r is Some <==> (world.spec_valid_resource_id(type_key) matches Some(id)
                && world.spec_non_send_value(id) is Some),
            r matches Some(m) ==> m.spec_world_id() == world.id && m.spec_target() == (
            WriteTarget::NonSendResource {
                component_id: world.spec_valid_resource_id(type_key)->Some_0 as ComponentId,
            }) && m.spec_last_run() == world.last_change_tick && m.spec_this_run().tick
                == world.change_tick,
    {
        self.assert_allows_mutable_access();
        match world.components.get_valid_resource_id(type_key) {
            Some(component_id) => self.get_non_send_resource_mut_by_id(
                world,
                component_id,
                caller_thread,
            ),
            None => None,
        }
    }

    /// Gets a write handle to the thread-bound resource stored under
    /// `component_id` if it exists; only a write-capable cell may ask, and
    /// only from the thread that inserted the value.
    pub fn get_non_send_resource_mut_by_id(
        &self,
        world: &World,
        component_id: ComponentId,
        caller_thread: u64,
    ) -> (r: Option<MutUntyped>)
        requires
            self.spec_belongs_to(world),
            self.spec_allows_mutable_access(),
            world.spec_non_send_allows(component_id as int, caller_thread),
        ensures
            r is Some <==> world.spec_non_send_value(component_id as int) is Some,
            r matches Some(m) ==> m.spec_world_id() == world.id && m.spec_target() == (
            WriteTarget::NonSendResource { component_id }) && m.spec_last_run()
                == world.last_change_tick && m.spec_this_run().tick == world.change_tick,
    {
        self.assert_allows_mutable_access();
        match self.get_non_send_with_ticks(world, component_id, caller_thread) {
            Some(_) => Some(
                MutUntyped::new(
                    world.id,
                    WriteTarget::NonSendResource { component_id },
                    world.last_change_tick(),
                    world.read_change_tick(),
                ),
            ),
            None => None,
        }
    }

    /// Convenience method for reading the world's default error handler:
    /// the resource stored under
    /// [`DEFAULT_ERROR_HANDLER_KEY`](crate::error::DEFAULT_ERROR_HANDLER_KEY),
    /// decoded from its first byte, or the panicking default when absent.
    pub fn default_error_handler(&self, world: &World) -> (r: ErrorHandler)
        requires
            world.wf(),
            self.spec_belongs_to(world),
        ensures
            r == (if world.spec_valid_resource_id(DEFAULT_ERROR_HANDLER_KEY) is Some
                && world.spec_resource_value(
                world.spec_valid_resource_id(DEFAULT_ERROR_HANDLER_KEY)->Some_0,
            ) is Some {
                crate::error::spec_error_handler_of(
                    world.spec_resource_value(
                        world.spec_valid_resource_id(DEFAULT_ERROR_HANDLER_KEY)->Some_0,
                    )->Some_0,
                )
            } else {
                ErrorHandler::Panic
            }),
    {
        match self.get_resource(world, DEFAULT_ERROR_HANDLER_KEY) {
            Some(v) => {
                if v.len() >= 1 {
                    ErrorHandler::from_byte(v[0])
                } else {
                    ErrorHandler::Panic
                }
            },
            None => ErrorHandler::Panic,
        }
    }
}

/// An interior-mutable reference to a particular entity and its components.
#[derive(Debug, Clone, Copy, PartialEq, Eq, Structural)]
pub struct UnsafeEntityCell {
    /// The cell this entity cell was derived from.
    world: UnsafeWorldCell,
    /// The entity accessed through this cell.
    entity: Entity,
    /// The entity's cached storage location.
    location: EntityLocation,
    /// The lower bound of the change-detection window.
    last_run: Tick,
    /// The upper bound of the change-detection window.
    this_run: Tick,
}

impl UnsafeEntityCell {
    /// The cell this entity cell was derived from.
    pub closed spec fn spec_world(&self) -> UnsafeWorldCell {
        self.world
    }

    /// The entity accessed through this cell.
    pub closed spec fn spec_entity(&self) -> Entity {
        self.entity
    }

    /// The entity's cached storage location.
    pub closed spec fn spec_location(&self) -> EntityLocation {
        self.location
    }

    /// The lower bound of the change-detection window.
    pub closed spec fn spec_last_run(&self) -> Tick {
        self.last_run
    }

    /// The upper bound of the change-detection window.
    pub closed spec fn spec_this_run(&self) -> Tick {
        self.this_run
    }

    /// Whether this cell is still valid for `world`: it belongs to it and
    /// its cached location is still the entity's current one.  Structural
    /// mutations of the world invalidate derived cells.
    pub open spec fn spec_valid(&self, world: &World) -> bool {
        &&& self.spec_world().spec_belongs_to(world)
        &&& world.spec_location(self.spec_entity()) == Some(self.spec_location())
    }

    /// Assembles an entity cell from its parts.
    pub fn new(
        world: UnsafeWorldCell,
        entity: Entity,
        location: EntityLocation,
        last_run: Tick,
        this_run: Tick,
    ) -> (r: UnsafeEntityCell)
        ensures
            r.spec_world() == world,
            r.spec_entity() == entity,
            r.spec_location() == location,
            r.spec_last_run() == last_run,
            r.spec_this_run() == this_run,
    {
        UnsafeEntityCell { world, entity, location, last_run, this_run }
    }

    /// Returns the id of the current entity.
    pub fn id(&self) -> (r: Entity)
        ensures
            r == self.spec_entity(),
    {
        self.entity
    }

    /// Gets metadata indicating where the current entity is stored.
    pub fn location(&self) -> (r: EntityLocation)
        ensures
            r == self.spec_location(),
    {
        self.location
    }

    /// Gets the world cell the current entity belongs to.
    pub fn world(&self) -> (r: UnsafeWorldCell)
        ensures
            r == self.spec_world(),
    {
        self.world
    }

    /// Returns the archetype the current entity belongs to.
    pub fn archetype<'w>(&self, world: &'w World) -> (r: &'w Archetype)
        requires
            world.wf(),
            self.spec_valid(world),
        ensures
            r == &world.archetypes.archetypes@[self.spec_location().archetype_id as int],
    {
        proof {
            assert(world.slot_wf(self.entity.index as int));
        }
        &world.archetypes.archetypes[self.location.archetype_id]
    }

    /// Returns `true` if the current entity has a component of the type
    /// named by `type_key`.
    pub fn contains(&self, world: &World, type_key: TypeKey) -> (r: bool)
        requires
            world.wf(),
            self.spec_valid(world),
        ensures
            r == (world.components.spec_has_key(type_key) && world.spec_archetype_contains(
                self.spec_entity(),
                world.components.spec_id_of(type_key),
            )),
    {
        self.contains_type_id(world, type_key)
    }

    /// Returns `true` if the current entity has a component with the given
    /// id.
    pub fn contains_id(&self, world: &World, component_id: ComponentId) -> (r: bool)
        requires
            world.wf(),
            self.spec_valid(world),
        ensures
            r == world.spec_archetype_contains(self.spec_entity(), component_id as int),
    {
        self.archetype(world).contains(component_id)
    }

    /// Returns `true` if the current entity has a component whose type is
    /// named by `type_key`; unlike [`Self::contains`] in name only, since
    /// type identity is a plain key here.
    pub fn contains_type_id(&self, world: &World, type_key: TypeKey) -> (r: bool)
        requires
            world.wf(),
            self.spec_valid(world),
        ensures
            r == (world.components.spec_has_key(type_key) && world.spec_archetype_contains(
                self.spec_entity(),
                world.components.spec_id_of(type_key),
            )),
    {
        let id = match world.components.get_id(type_key) {
            Some(id) => id,
            None => {
                return false;
            },
        };
        self.contains_id(world, id)
    }

    /// Gets the component of the type named by `type_key` on the current
    /// entity, or `None` if the entity does not have it.
    pub fn get<'w>(&self, world: &'w World, type_key: TypeKey) -> (r: Option<&'w Vec<u8>>)
        requires
            world.wf(),
            self.spec_valid(world),
        ensures
            r is Some <==> (world.spec_valid_component_id(type_key) matches Some(id)
                && world.spec_component_value(self.spec_entity(), id) is Some),
            r matches Some(v) ==> world.spec_component_value(
                self.spec_entity(),
                world.spec_valid_component_id(type_key)->Some_0,
            ) == Some(v@),
    {
        let component_id = match world.components.get_valid_id(type_key) {
            Some(id) => id,
            None => {
                return None;
            },
        };
        let storage_type = world.components.infos[component_id].storage_type;
        get_component(world, component_id, storage_type, self.entity, self.location)
    }

    /// Gets the component of the type named by `type_key` together with its
    /// change ticks, interpreted against this cell's window, or `None` if
    /// the entity does not have it.
    pub fn get_ref<'w>(&self, world: &'w World, type_key: TypeKey) -> (r: Option<RefUntyped<'w>>)
        requires
            world.wf(),
            self.spec_valid(world),
        ensures
            r is Some <==> (world.spec_valid_component_id(type_key) matches Some(id)
                && world.spec_component_value(self.spec_entity(), id) is Some),
            r matches Some(rr) ==> Some(rr.spec_value()) == world.spec_component_value(
                self.spec_entity(),
                world.spec_valid_component_id(type_key)->Some_0,
            ) && Some(rr.spec_ticks()) == world.spec_component_ticks(
                self.spec_entity(),
                world.spec_valid_component_id(type_key)->Some_0,
            ) && rr.spec_last_run() == self.spec_last_run() && rr.spec_this_run()
                == self.spec_this_run(),
    {
        let component_id = match world.components.get_valid_id(type_key) {
            Some(id) => id,
            None => {
                return None;
            },
        };
        let storage_type = world.components.infos[component_id].storage_type;
        match get_component_and_ticks(world, component_id, storage_type, self.entity, self.location) {
            Some((value, ticks)) => Some(RefUntyped::new(value, ticks, self.last_run, self.this_run)),
            None => None,
        }
    }

    /// Retrieves the change ticks of the component of the type named by
    /// `type_key`, useful for change detection in custom runtimes.
    pub fn get_change_ticks(&self, world: &World, type_key: TypeKey) -> (r: Option<ComponentTicks>)
        requires
            world.wf(),
            self.spec_valid(world),
        ensures
            world.spec_valid_component_id(type_key) matches Some(id) ==> r
                == world.spec_component_ticks(self.spec_entity(), id),
            world.spec_valid_component_id(type_key) is None ==> r is None,
    {
        let component_id = match world.components.get_valid_id(type_key) {
            Some(id) => id,
            None => {
                return None;
            },
        };
        let storage_type = world.components.infos[component_id].storage_type;
        get_ticks(world, component_id, storage_type, self.entity, self.location)
    }

    /// Retrieves the change ticks of the component with the given id; for
    /// use where the type is not known at compile time.
    pub fn get_change_ticks_by_id(&self, world: &World, component_id: ComponentId) -> (r: Option<
        ComponentTicks,
    >)
        requires
            world.wf(),
            self.spec_valid(world),
        ensures
            r == world.spec_component_ticks(self.spec_entity(), component_id as int),
    {
        let info = match world.components.get_info(component_id) {
            Some(info) => info,
            None => {
                return None;
            },
        };
        let storage_type = info.storage_type;
        get_ticks(world, component_id, storage_type, self.entity, self.location)
    }

    /// Gets the component with the given id on the current entity, or
    /// `None`; for use where the type is not known at compile time.
    pub fn get_by_id<'w>(&self, world: &'w World, component_id: ComponentId) -> (r: Option<
        &'w Vec<u8>,
    >)
        requires
            world.wf(),
            self.spec_valid(world),
        ensures
            match r {
                Some(v) => world.spec_component_value(self.spec_entity(), component_id as int)
                    == Some(v@),
                None => world.spec_component_value(
                    self.spec_entity(),
                    component_id as int,
                ) is None,
            },
    {
        let info = match world.components.get_info(component_id) {
            Some(info) => info,
            None => {
                return None;
            },
        };
        let storage_type = info.storage_type;
        get_component(world, component_id, storage_type, self.entity, self.location)
    }

    /// Gets a write handle to the component of the type named by
    /// `type_key`, or `None` if the entity does not have it.  The type must
    /// be registered as mutable — the static analogue of requiring a
    /// mutable component type — and only a write-capable cell may ask.
    pub fn get_mut(&self, world: &World, type_key: TypeKey) -> (r: Option<MutUntyped>)
        requires
            world.wf(),
            self.spec_valid(world),
            self.spec_world().spec_allows_mutable_access(),
            world.spec_valid_component_id(type_key) matches Some(id)
                ==> world.components.infos@[id].mutable,
        ensures
            r is Some <==> (world.spec_valid_component_id(type_key) matches Some(id)
                && world.spec_component_value(self.spec_entity(), id) is Some),
            r matches Some(m) ==> m.spec_world_id() == world.id && m.spec_target() == (
            WriteTarget::Component {
                entity: self.spec_entity(),
                component_id: world.spec_valid_component_id(type_key)->Some_0 as ComponentId,
            }) && m.spec_last_run() == self.spec_last_run() && m.spec_this_run()
                == self.spec_this_run(),
    {
        self.get_mut_assume_mutable(world, type_key)
    }

    /// Like [`Self::get_mut`], for callers that have already established
    /// through id-level metadata that the component is mutable.
    pub fn get_mut_assume_mutable(&self, world: &World, type_key: TypeKey) -> (r: Option<
        MutUntyped,
    >)
        requires
            world.wf(),
            self.spec_valid(world),
            self.spec_world().spec_allows_mutable_access(),
            world.spec_valid_component_id(type_key) matches Some(id)
                ==> world.components.infos@[id].mutable,
        ensures
            r is Some <==> (world.spec_valid_component_id(type_key) matches Some(id)
                && world.spec_component_value(self.spec_entity(), id) is Some),
            r matches Some(m) ==> m.spec_world_id() == world.id && m.spec_target() == (
            WriteTarget::Component {
                entity: self.spec_entity(),
                component_id: world.spec_valid_component_id(type_key)->Some_0 as ComponentId,
            }) && m.spec_last_run() == self.spec_last_run() && m.spec_this_run()
                == self.spec_this_run(),
    {
        self.get_mut_using_ticks_assume_mutable(world, type_key, self.last_run, self.this_run)
    }

    /// Like [`Self::get_mut_assume_mutable`], but the returned handle
    /// carries the explicit window `(last_run, this_run)`.
    pub(crate) fn get_mut_using_ticks_assume_mutable(
        &self,
        world: &World,
        type_key: TypeKey,
        last_run: Tick,
        this_run: Tick,
    ) -> (r: Option<MutUntyped>)
        requires
            world.wf(),
            self.spec_valid(world),
            self.spec_world().spec_allows_mutable_access(),
            world.spec_valid_component_id(type_key) matches Some(id)
                ==> world.components.infos@[id].mutable,
        ensures
            r is Some <==> (world.spec_valid_component_id(type_key) matches Some(id)
                && world.spec_component_value(self.spec_entity(), id) is Some),
            r matches Some(m) ==> m.spec_world_id() == world.id && m.spec_target() == (
            WriteTarget::Component {
                entity: self.spec_entity(),
                component_id: world.spec_valid_component_id(type_key)->Some_0 as ComponentId,
            }) && m.spec_last_run() == last_run && m.spec_this_run() == this_run,
    {
        self.world.assert_allows_mutable_access();
        let component_id = match world.components.get_valid_id(type_key) {
            Some(id) => id,
            None => {
                return None;
            },
        };
        let storage_type = world.components.infos[component_id].storage_type;
        match get_component(world, component_id, storage_type, self.entity, self.location) {
            Some(_) => Some(
                MutUntyped::new(
                    world.id,
                    WriteTarget::Component { entity: self.entity, component_id },
                    last_run,
                    this_run,
                ),
            ),
            None => None,
        }
    }

    /// Gets a write handle to the component with the given id, or the exact
    /// reason none could be handed out: the id is unknown to the registry,
    /// the component is registered immutable, or the entity does not hold
    /// it.  Only a write-capable cell may ask.
    pub fn get_mut_by_id(&self, world: &World, component_id: ComponentId) -> (r: Result<
        MutUntyped,
        GetEntityMutByIdError,
    >)
        requires
            world.wf(),
            self.spec_valid(world),
            self.spec_world().spec_allows_mutable_access(),
        ensures
            r == Err::<MutUntyped, GetEntityMutByIdError>(GetEntityMutByIdError::InfoNotFound)
                <==> world.spec_info(component_id as int) is None,
            r == Err::<MutUntyped, GetEntityMutByIdError>(
                GetEntityMutByIdError::ComponentIsImmutable,
            ) <==> (world.spec_info(component_id as int) matches Some(info) && !info.mutable),
            r == Err::<MutUntyped, GetEntityMutByIdError>(
                GetEntityMutByIdError::ComponentNotFound,
            ) <==> (world.spec_info(component_id as int) matches Some(info) && info.mutable
                && world.spec_component_value(self.spec_entity(), component_id as int) is None),
            r is Ok <==> (world.spec_info(component_id as int) matches Some(info)
                && info.mutable && world.spec_component_value(
                self.spec_entity(),
                component_id as int,
            ) is Some),
            r matches Ok(m) ==> m.spec_world_id() == world.id && m.spec_target() == (
            WriteTarget::Component { entity: self.spec_entity(), component_id })
                && m.spec_last_run() == self.spec_last_run() && m.spec_this_run()
                == self.spec_this_run(),
    {
        self.world.assert_allows_mutable_access();
        let info = match world.components.get_info(component_id) {
            Some(info) => info,
            None => {
                return Err(GetEntityMutByIdError::InfoNotFound);
            },
        };
        if !info.mutable {
            return Err(GetEntityMutByIdError::ComponentIsImmutable);
        }
        let storage_type = info.storage_type;
        match get_component(world, component_id, storage_type, self.entity, self.location) {
            Some(_) => Ok(
                MutUntyped::new(
                    world.id,
                    WriteTarget::Component { entity: self.entity, component_id },
                    self.last_run,
                    self.this_run,
                ),
            ),
            None => Err(GetEntityMutByIdError::ComponentNotFound),
        }
    }

    /// Like [`Self::get_mut_by_id`], for callers that have already
    /// established through id-level metadata that the component is mutable;
    /// the immutability check is skipped.
    pub fn get_mut_assume_mutable_by_id(&self, world: &World, component_id: ComponentId) -> (r:
        Result<MutUntyped, GetEntityMutByIdError>)
        requires
            world.wf(),
            self.spec_valid(world),
            self.spec_world().spec_allows_mutable_access(),
            world.spec_info(component_id as int) matches Some(info) ==> info.mutable,
        ensures
            r == Err::<MutUntyped, GetEntityMutByIdError>(GetEntityMutByIdError::InfoNotFound)
                <==> world.spec_info(component_id as int) is None,
            r == Err::<MutUntyped, GetEntityMutByIdError>(
                GetEntityMutByIdError::ComponentNotFound,
            ) <==> (world.spec_info(component_id as int) is Some && world.spec_component_value(
                self.spec_entity(),
                component_id as int,
            ) is None),
            r is Ok <==> (world.spec_info(component_id as int) is Some
                && world.spec_component_value(
                self.spec_entity(),
                component_id as int,
            ) is Some),
            r matches Ok(m) ==> m.spec_world_id() == world.id && m.spec_target() == (
            WriteTarget::Component { entity: self.spec_entity(), component_id })
                && m.spec_last_run() == self.spec_last_run() && m.spec_this_run()
                == self.spec_this_run(),
    {
        self.world.assert_allows_mutable_access();
        let info = match world.components.get_info(component_id) {
            Some(info) => info,
            None => {
                return Err(GetEntityMutByIdError::InfoNotFound);
            },
        };
        let storage_type = info.storage_type;
        match get_component(world, component_id, storage_type, self.entity, self.location) {
            Some(_) => Ok(
                MutUntyped::new(
                    world.id,
                    WriteTarget::Component { entity: self.entity, component_id },
                    self.last_run,
                    self.this_run,
                ),
            ),
            None => Err(GetEntityMutByIdError::ComponentNotFound),
        }
    }

    /// Returns the components of the current entity that match the query
    /// `Q`, or `None` if the entity's archetype does not have what `Q`
    /// requires.  An item comes back exactly when `Q`'s state resolves
    /// against the registry and matches the entity's archetype.
    pub fn get_components<Q: ReleaseStateQueryData>(&self, world: &World) -> (r: Option<Q::Item>)
        requires
            world.wf(),
            self.spec_valid(world),
        ensures
            r is Some <==> (Q::spec_has_state(world.components) && Q::spec_matches(
                Q::spec_state(world.components),
                world.spec_archetype_of(self.spec_entity()),
            )),
    {
        let state = match Q::get_state(&world.components) {
            Some(s) => s,
            None => {
                return None;
            },
        };
        proof {
            assert(world.slot_wf(self.entity.index as int));
            assert(world.archetype_wf(self.location.archetype_id as int));
        }
        let location = self.location;
        let archetype = &world.archetypes.archetypes[location.archetype_id];
        if Q::matches_component_set(&state, archetype) {
            let mut fetch = Q::init_fetch(world, &state, self.last_run, self.this_run);
            let table = &world.storages.tables[location.table_id];
            Q::set_archetype(&mut fetch, &state, archetype, table);
            let item = Q::fetch(&state, &mut fetch, self.entity, location.table_row);
            Some(Q::release_state(item))
        } else {
            None
        }
    }

    /// The key of the call site that spawned this entity.
    pub fn spawned_by(&self, world: &World) -> (r: u64)
        requires
            world.wf(),
            self.spec_valid(world),
        ensures
            r == world.entities.spec_meta(self.spec_entity()).spawned_by,
    {
        match world.entities.entity_get_spawned_or_despawned_by(self.entity) {
            Some(by) => by,
            None => {
                proof {
                    assert(false);
                }
                0
            },
        }
    }

    /// The tick at which this entity was spawned.
    pub fn spawned_at(&self, world: &World) -> (r: Tick)
        requires
            world.wf(),
            self.spec_valid(world),
        ensures
            r == world.entities.spec_meta(self.spec_entity()).spawned_at,
    {
        match world.entities.entity_get_spawned_or_despawned_at(self.entity) {
            Some(at) => at,
            None => {
                proof {
                    assert(false);
                }
                Tick { tick: 0 }
            },
        }
    }
}

/// The exact reason a by-id write handle could not be handed out.
#[derive(Debug, Clone, Copy, PartialEq, Eq, Structural)]
pub enum GetEntityMutByIdError {
    /// The registry has no info for the id.
    InfoNotFound,
    /// The component is registered immutable; a write handle to it would
    /// violate its invariants.
    ComponentIsImmutable,
    /// The entity does not hold the component.
    ComponentNotFound,
}

/// Reads the value of component `component_id` on `entity`, which must be
/// present; the borrow-taking form behind the write handles' `read`.
pub fn read_component_value<'w>(world: &'w World, entity: Entity, component_id: ComponentId) -> (r:
    &'w Vec<u8>)
    requires
        world.wf(),
        world.spec_component_value(entity, component_id as int) is Some,
    ensures
        Some(r@) == world.spec_component_value(entity, component_id as int),
{
    let location = match world.entities.get(entity) {
        Some(l) => l,
        None => {
            proof {
                assert(false);
            }
            EntityLocation { archetype_id: 0, archetype_row: 0, table_id: 0, table_row: 0 }
        },
    };
    let storage_type = world.components.infos[component_id].storage_type;
    match get_component(world, component_id, storage_type, entity, location) {
        Some(v) => v,
        None => {
            proof {
                assert(false);
            }
            &world.storages.tables[0].columns[0].data[0]
        },
    }
}

/// Reads the tick pair of component `component_id` on `entity`, which must
/// be present.
pub fn read_component_ticks(world: &World, entity: Entity, component_id: ComponentId) -> (r:
    ComponentTicks)
    requires
        world.wf(),
        world.spec_component_value(entity, component_id as int) is Some,
    ensures
        Some(r) == world.spec_component_ticks(entity, component_id as int),
{
    let location = match world.entities.get(entity) {
        Some(l) => l,
        None => {
            proof {
                assert(false);
            }
            EntityLocation { archetype_id: 0, archetype_row: 0, table_id: 0, table_row: 0 }
        },
    };
    let storage_type = world.components.infos[component_id].storage_type;
    match get_ticks(world, component_id, storage_type, entity, location) {
        Some(t) => t,
        None => {
            proof {
                assert(false);
            }
            ComponentTicks { added: Tick { tick: 0 }, changed: Tick { tick: 0 } }
        },
    }
}

/// Gets the value of a particular component on a particular entity,
/// dispatching on the component's storage kind.
fn get_component<'w>(
    world: &'w World,
    component_id: ComponentId,
    storage_type: StorageType,
    entity: Entity,
    location: EntityLocation,
) -> (r: Option<&'w Vec<u8>>)
    requires
        world.wf(),
        world.spec_location(entity) == Some(location),
        world.spec_info(component_id as int) matches Some(info) && info.storage_type
            == storage_type,
    ensures
        match r {
            Some(v) => world.spec_component_value(entity, component_id as int) == Some(v@),
            None => world.spec_component_value(entity, component_id as int) is None,
        },
{
    proof {
        assert(world.slot_wf(entity.index as int));
        assert(world.archetype_wf(location.archetype_id as int));
    }
    match storage_type {
        StorageType::Table => {
            let table = &world.storages.tables[location.table_id];
            table.get_component(component_id, location.table_row)
        },
        StorageType::SparseSet => {
            if component_id < world.storages.sparse_sets.len() {
                match &world.storages.sparse_sets[component_id] {
                    Some(set) => set.get(entity),
                    None => None,
                }
            } else {
                None
            }
        },
    }
}

/// Gets the value of a particular component on a particular entity together
/// with its tick pair, dispatching on the component's storage kind.
fn get_component_and_ticks<'w>(
    world: &'w World,
    component_id: ComponentId,
    storage_type: StorageType,
    entity: Entity,
    location: EntityLocation,
) -> (r: Option<(&'w Vec<u8>, ComponentTicks)>)
    requires
        world.wf(),
        world.spec_location(entity) == Some(location),
        world.spec_info(component_id as int) matches Some(info) && info.storage_type
            == storage_type,
    ensures
        r is Some <==> world.spec_component_value(entity, component_id as int) is Some,
        r matches Some(p) ==> world.spec_component_value(entity, component_id as int) == Some(
            p.0@,
        ) && world.spec_component_ticks(entity, component_id as int) == Some(p.1),
{
    proof {
        assert(world.slot_wf(entity.index as int));
        assert(world.archetype_wf(location.archetype_id as int));
    }
    match storage_type {
        StorageType::Table => {
            let table = &world.storages.tables[location.table_id];
            let value = match table.get_component(component_id, location.table_row) {
                Some(v) => v,
                None => {
                    return None;
                },
            };
            let added = match table.get_added_tick(component_id, location.table_row) {
                Some(t) => t,
                None => {
                    proof {
                        assert(false);
                    }
                    return None;
                },
            };
            let changed = match table.get_changed_tick(component_id, location.table_row) {
                Some(t) => t,
                None => {
                    proof {
                        assert(false);
                    }
                    return None;
                },
            };
            Some((value, ComponentTicks { added, changed }))
        },
        StorageType::SparseSet => {
            if component_id < world.storages.sparse_sets.len() {
                match &world.storages.sparse_sets[component_id] {
                    Some(set) => set.get_with_ticks(entity),
                    None => None,
                }
            } else {
                None
            }
        },
    }
}

/// Gets the tick pair of a particular component on a particular entity,
/// dispatching on the component's storage kind.
fn get_ticks(
    world: &World,
    component_id: ComponentId,
    storage_type: StorageType,
    entity: Entity,
    location: EntityLocation,
) -> (r: Option<ComponentTicks>)
    requires
        world.wf(),
        world.spec_location(entity) == Some(location),
        world.spec_info(component_id as int) matches Some(info) && info.storage_type
            == storage_type,
    ensures
        r == world.spec_component_ticks(entity, component_id as int),
{
    proof {
        assert(world.slot_wf(entity.index as int));
        assert(world.archetype_wf(location.archetype_id as int));
    }
    match storage_type {
        StorageType::Table => {
            let table = &world.storages.tables[location.table_id];
            table.get_ticks(component_id, location.table_row)
        },
        StorageType::SparseSet => {
            if component_id < world.storages.sparse_sets.len() {
                match &world.storages.sparse_sets[component_id] {
                    Some(set) => set.get_ticks(entity),
                    None => None,
                }
            } else {
                None
            }
        },
    }
}

} // verus!
