//! Change-detecting handles.
//!
//! A read handle pairs a borrowed value with a snapshot of its tick pair and
//! the `(last_run, this_run)` window it is interpreted against.  A write
//! handle names one writable slot of the world — a resource, a thread-bound
//! resource, or a component on an entity — together with that window;
//! writing through it overwrites the slot and stamps its changed tick with
//! `this_run`, so later readers detect the change.

use vstd::prelude::*;

use crate::component::ComponentId;
use crate::entity::Entity;
use crate::tick::{spec_is_newer_than, ComponentTicks, Tick};
use crate::world::{World, WorldId};

verus! {

/// A read handle: a borrowed value, its tick pair, and the window the ticks
/// are interpreted against.
pub struct RefUntyped<'w> {
    /// The borrowed value.
    pub(crate) value: &'w Vec<u8>,
    /// When the value was added and last changed.
    pub(crate) ticks: ComponentTicks,
    /// The lower bound of the change-detection window.
    pub(crate) last_run: Tick,
    /// The upper bound of the change-detection window.
    pub(crate) this_run: Tick,
}

impl<'w> RefUntyped<'w> {
    /// The bytes of the value read.
    pub closed spec fn spec_value(&self) -> Seq<u8> {
        self.value@
    }

    /// The tick pair snapshot carried by the handle.
    pub closed spec fn spec_ticks(&self) -> ComponentTicks {
        self.ticks
    }

    /// The lower bound of the change-detection window.
    pub closed spec fn spec_last_run(&self) -> Tick {
        self.last_run
    }

    /// The upper bound of the change-detection window.
    pub closed spec fn spec_this_run(&self) -> Tick {
        self.this_run
    }

    /// Assembles a read handle from its parts.
    pub(crate) fn new(
        value: &'w Vec<u8>,
        ticks: ComponentTicks,
        last_run: Tick,
        this_run: Tick,
    ) -> (r: RefUntyped<'w>)
        ensures
            r.spec_value() == value@,
            r.spec_ticks() == ticks,
            r.spec_last_run() == last_run,
            r.spec_this_run() == this_run,
    {
        RefUntyped { value, ticks, last_run, this_run }
    }

    /// The borrowed value.
    pub fn value(&self) -> (r: &'w Vec<u8>)
        ensures
            r@ == self.spec_value(),
    {
        self.value
    }

    /// The tick pair snapshot.
    pub fn ticks(&self) -> (r: ComponentTicks)
        ensures
            r == self.spec_ticks(),
    {
        self.ticks
    }

    /// Whether the value was added inside the handle's window.
    pub fn is_added(&self) -> (r: bool)
        ensures
            r == spec_is_newer_than(
                self.spec_ticks().added.tick,
                self.spec_last_run().tick,
                self.spec_this_run().tick,
            ),
    {
        self.ticks.is_added(self.last_run, self.this_run)
    }

    /// Whether the value was written inside the handle's window.
    pub fn is_changed(&self) -> (r: bool)
        ensures
            r == spec_is_newer_than(
                self.spec_ticks().changed.tick,
                self.spec_last_run().tick,
                self.spec_this_run().tick,
            ),
    {
        self.ticks.is_changed(self.last_run, self.this_run)
    }
}

/// The slot of the world a write handle points at.
#[derive(Debug, Clone, Copy, PartialEq, Eq, Structural)]
pub enum WriteTarget {
    /// The resource stored under a component id.
    Resource {
        /// The resource's component id.
        component_id: ComponentId,
    },
    /// The thread-bound resource stored under a component id.
    NonSendResource {
        /// The resource's component id.
        component_id: ComponentId,
    },
    /// A component on an entity.
    Component {
        /// The entity holding the component.
        entity: Entity,
        /// The component's id.
        component_id: ComponentId,
    },
}

/// The value currently stored at `target` in `world`, or `None`.
pub open spec fn spec_target_value(world: &World, target: WriteTarget) -> Option<Seq<u8>> {
    match target {
        WriteTarget::Resource { component_id } => world.spec_resource_value(component_id as int),
        WriteTarget::NonSendResource { component_id } => world.spec_non_send_value(
            component_id as int,
        ),
        WriteTarget::Component { entity, component_id } => world.spec_component_value(
            entity,
            component_id as int,
        ),
    }
}

/// The tick pair currently stored at `target` in `world`, or `None`.
pub open spec fn spec_target_ticks(world: &World, target: WriteTarget) -> Option<
    ComponentTicks,
> {
    match target {
        WriteTarget::Resource { component_id } => world.spec_resource_ticks(component_id as int),
        WriteTarget::NonSendResource { component_id } => world.spec_non_send_ticks(
            component_id as int,
        ),
        WriteTarget::Component { entity, component_id } => world.spec_component_ticks(
            entity,
            component_id as int,
        ),
    }
}

/// A write handle: names one writable slot of one world, and carries the
/// change-detection window it was derived under.  Only a write-capable cell
/// hands these out.
#[derive(Debug, Clone, Copy, PartialEq, Eq, Structural)]
pub struct MutUntyped {
    /// The world the handle belongs to.
    pub(crate) world_id: WorldId,
    /// The slot written through this handle.
    pub(crate) target: WriteTarget,
    /// The lower bound of the change-detection window.
    pub(crate) last_run: Tick,
    /// The upper bound of the window; writes are stamped with it.
    pub(crate) this_run: Tick,
}

impl MutUntyped {
    /// The world the handle belongs to.
    pub closed spec fn spec_world_id(&self) -> WorldId {
        self.world_id
    }

    /// The slot written through this handle.
    pub closed spec fn spec_target(&self) -> WriteTarget {
        self.target
    }

    /// The lower bound of the change-detection window.
    pub closed spec fn spec_last_run(&self) -> Tick {
        self.last_run
    }

    /// The upper bound of the window; writes are stamped with it.
    pub closed spec fn spec_this_run(&self) -> Tick {
        self.this_run
    }

    /// Whether the handle's slot still holds a value in `world`.
    pub open spec fn spec_points_into(&self, world: &World) -> bool {
        &&& self.spec_world_id() == world.id
        &&& spec_target_value(world, self.spec_target()) is Some
    }

    /// Assembles a write handle from its parts.
    pub(crate) fn new(world_id: WorldId, target: WriteTarget, last_run: Tick, this_run: Tick) -> (r:
        MutUntyped)
        ensures
            r.spec_world_id() == world_id,
            r.spec_target() == target,
            r.spec_last_run() == last_run,
            r.spec_this_run() == this_run,
    {
        MutUntyped { world_id, target, last_run, this_run }
    }

    /// The slot written through this handle.
    pub fn target(&self) -> (r: WriteTarget)
        ensures
            r == self.spec_target(),
    {
        self.target
    }

    /// Reads the value currently stored at the handle's slot.
    pub fn read<'w>(&self, world: &'w World) -> (r: &'w Vec<u8>)
        requires
            world.wf(),
            self.spec_points_into(world),
        ensures
            Some(r@) == spec_target_value(world, self.spec_target()),
    {
        match self.target {
            WriteTarget::Resource { component_id } => {
                match world.storages.get_resource(component_id) {
                    Some(d) => &d.value,
                    None => {
                        proof {
                            assert(false);
                        }
                        &world.storages.resources[component_id].as_ref().unwrap().value
                    },
                }
            },
            WriteTarget::NonSendResource { component_id } => {
                match world.storages.get_non_send_resource(component_id) {
                    Some(d) => &d.value,
                    None => {
                        proof {
                            assert(false);
                        }
                        &world.storages.non_send_resources[component_id].as_ref().unwrap().value
                    },
                }
            },
            WriteTarget::Component { entity, component_id } => {
                crate::cell::read_component_value(world, entity, component_id)
            },
        }
    }

    /// Reads the tick pair currently stored at the handle's slot.
    pub fn ticks(&self, world: &World) -> (r: ComponentTicks)
        requires
            world.wf(),
            self.spec_points_into(world),
        ensures
            Some(r) == spec_target_ticks(world, self.spec_target()),
    {
        match self.target {
            WriteTarget::Resource { component_id } => {
                match world.storages.get_resource(component_id) {
                    Some(d) => d.ticks,
                    None => {
                        proof {
                            assert(false);
                        }
                        ComponentTicks { added: self.last_run, changed: self.last_run }
                    },
                }
            },
            WriteTarget::NonSendResource { component_id } => {
                match world.storages.get_non_send_resource(component_id) {
                    Some(d) => d.ticks,
                    None => {
                        proof {
                            assert(false);
                        }
                        ComponentTicks { added: self.last_run, changed: self.last_run }
                    },
                }
            },
            WriteTarget::Component { entity, component_id } => {
                crate::cell::read_component_ticks(world, entity, component_id)
            },
        }
    }

    /// Whether the slot's value was written inside the handle's window.
    pub fn is_changed(&self, world: &World) -> (r: bool)
        requires
            world.wf(),
            self.spec_points_into(world),
        ensures
            r == spec_is_newer_than(
                spec_target_ticks(world, self.spec_target())->Some_0.changed.tick,
                self.spec_last_run().tick,
                self.spec_this_run().tick,
            ),
    {
        let t = self.ticks(world);
        t.is_changed(self.last_run, self.this_run)
    }

    /// Whether the slot's value was added inside the handle's window.
    pub fn is_added(&self, world: &World) -> (r: bool)
        requires
            world.wf(),
            self.spec_points_into(world),
        ensures
            r == spec_is_newer_than(
                spec_target_ticks(world, self.spec_target())->Some_0.added.tick,
                self.spec_last_run().tick,
                self.spec_this_run().tick,
            ),
    {
        let t = self.ticks(world);
        t.is_added(self.last_run, self.this_run)
    }

    /// Writes `value` through the handle: the slot's value is replaced and
    /// its changed tick is stamped with the handle's `this_run`.  The added
    /// tick, every other slot of the world, and all metadata are left as
    /// they were.
    pub fn write(&self, world: &mut World, value: Vec<u8>)
        requires
            old(world).wf(),
            self.spec_points_into(old(world)),
        ensures
            final(world).wf(),
            spec_target_value(final(world), self.spec_target()) == Some(value@),
            spec_target_ticks(final(world), self.spec_target()) == Some(
                ComponentTicks {
                    added: spec_target_ticks(old(world), self.spec_target())->Some_0.added,
                    changed: self.spec_this_run(),
                },
            ),
            final(world).id == old(world).id,
            final(world).entities == old(world).entities,
            final(world).archetypes == old(world).archetypes,
            final(world).components == old(world).components,
            final(world).change_tick == old(world).change_tick,
            final(world).last_change_tick == old(world).last_change_tick,
            final(world).last_trigger_id == old(world).last_trigger_id,
            self.spec_target() matches WriteTarget::Resource { component_id } ==> (
            final(world).storages.sparse_sets == old(world).storages.sparse_sets && final(world).storages.tables == old(world).storages.tables && final(world).storages.non_send_resources == old(world).storages.non_send_resources && (
            forall|id: int|
                id != component_id as int ==> #[trigger] final(world).spec_resource_value(id)
                    == old(world).spec_resource_value(id) && final(world).spec_resource_ticks(
                    id,
                ) == old(world).spec_resource_ticks(id))),
            self.spec_target() matches WriteTarget::NonSendResource { component_id } ==> (
            final(world).storages.sparse_sets == old(world).storages.sparse_sets && final(world).storages.tables == old(world).storages.tables && final(world).storages.resources
                == old(world).storages.resources && (forall|id: int|
                id != component_id as int ==> #[trigger] final(world).spec_non_send_value(id)
                    == old(world).spec_non_send_value(id) && final(world).spec_non_send_ticks(
                    id,
                ) == old(world).spec_non_send_ticks(id))),
            self.spec_target() matches WriteTarget::Component { entity, component_id } ==> (
            final(world).storages.resources == old(world).storages.resources && final(world).storages.non_send_resources == old(world).storages.non_send_resources && (
            forall|e2: Entity, c: int|
                !(e2 == entity && c == component_id as int) ==> #[trigger] final(world).spec_component_value(e2, c) == old(world).spec_component_value(e2, c)
                    && #[trigger] final(world).spec_component_ticks(e2, c) == old(world).spec_component_ticks(e2, c))),
    {
        match self.target {
            WriteTarget::Resource { component_id } => {
                world.set_resource_value(component_id, value, self.this_run);
            },
            WriteTarget::NonSendResource { component_id } => {
                world.set_non_send_value(component_id, value, self.this_run);
            },
            WriteTarget::Component { entity, component_id } => {
                world.set_component_value(entity, component_id, value, self.this_run);
            },
        }
    }
}

} // verus!
