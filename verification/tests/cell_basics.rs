use world_cell::cell::UnsafeWorldCell;
use world_cell::component::StorageType;
use world_cell::entity::Entity;
use world_cell::world::World;

#[test]
fn readonly_cell_reports_no_write_capability() {
    let world = World::new(1);
    let cell = UnsafeWorldCell::new_readonly(&world);
    assert!(!cell.allows_mutable_access());
    assert_eq!(cell.id(), 1);
}

#[test]
fn mutable_cell_reports_write_capability() {
    let mut world = World::new(2);
    let cell = UnsafeWorldCell::new_mutable(&mut world);
    assert!(cell.allows_mutable_access());
    assert_eq!(cell.id(), 2);
}

#[test]
fn get_entity_fails_for_unknown_entity() {
    let world = World::new(3);
    let cell = UnsafeWorldCell::new_readonly(&world);
    let ghostly = Entity { index: 4, generation: 1 };
    let err = cell.get_entity(&world, ghostly).err().expect("no entity was spawned");
    assert_eq!(err.entity, ghostly);
    assert_eq!(err.current_generation, None);
}

#[test]
fn get_entity_reports_current_generation_on_mismatch() {
    let mut world = World::new(4);
    let key: u64 = 10;
    let cid = world.register_component(key, StorageType::Table, true);
    let e = world.spawn(vec![(cid, vec![1u8])], 0);
    let cell = UnsafeWorldCell::new_readonly(&world);
    let stale = Entity { index: e.index, generation: e.generation + 1 };
    let err = cell.get_entity(&world, stale).err().expect("generation should not match");
    assert_eq!(err.entity, stale);
    assert_eq!(err.current_generation, Some(e.generation));
}

#[test]
fn entity_cell_carries_identity_and_window() {
    let mut world = World::new(5);
    let key: u64 = 11;
    let cid = world.register_component(key, StorageType::Table, true);
    let e = world.spawn(vec![(cid, vec![7u8])], 42);
    let cell = UnsafeWorldCell::new_readonly(&world);
    let ecell = cell.get_entity(&world, e).ok().expect("entity is alive");
    assert_eq!(ecell.id(), e);
    assert_eq!(ecell.location().table_row, 0);
    assert_eq!(ecell.world().id(), 5);
    assert_eq!(ecell.spawned_by(&world), 42);
    assert_eq!(ecell.spawned_at(&world).get(), 1);
    assert!(ecell.archetype(&world).contains(cid));
    assert_eq!(ecell.archetype(&world).component_count(), 1);
}

#[test]
fn writable_cell_escalates_to_world_references() {
    let mut world = World::new(7);
    let cell = UnsafeWorldCell::new_mutable(&mut world);
    {
        let w = cell.world_mut(&mut world);
        w.change_tick = 9;
    }
    assert_eq!(cell.world(&world).change_tick, 9);
    assert_eq!(cell.world_metadata(&world).id, 7);
}

#[test]
fn metadata_accessors_reach_the_world() {
    let mut world = World::new(6);
    let key: u64 = 12;
    let cid = world.register_component(key, StorageType::Table, true);
    world.spawn(vec![(cid, vec![9u8])], 0);
    let cell = UnsafeWorldCell::new_readonly(&world);
    assert_eq!(cell.components(&world).len(), 1);
    assert_eq!(cell.archetypes(&world).len(), 1);
    assert_eq!(cell.entities(&world).get(Entity { index: 0, generation: 1 }).is_some(), true);
    assert_eq!(cell.storages(&world).tables.len(), 1);
}
