use world_cell::cell::UnsafeWorldCell;
use world_cell::tick::Tick;
use world_cell::component::StorageType;
use world_cell::world::World;

#[test]
fn component_round_trip_dense_and_sparse() {
    let mut world = World::new(1);
    let dense_key: u64 = 30;
    let sparse_key: u64 = 31;
    let dense = world.register_component(dense_key, StorageType::Table, true);
    let sparse = world.register_component(sparse_key, StorageType::SparseSet, true);
    let e = world.spawn(vec![(dense, vec![1u8]), (sparse, vec![2u8])], 0);

    let cell = UnsafeWorldCell::new_mutable(&mut world);
    let ecell = cell.get_entity(&world, e).ok().expect("alive");
    assert_eq!(ecell.get(&world, dense_key), Some(&vec![1u8]));
    assert_eq!(ecell.get(&world, sparse_key), Some(&vec![2u8]));

    let m = ecell.get_mut(&world, dense_key).expect("present");
    m.write(&mut world, vec![10u8]);
    let m = ecell.get_mut(&world, sparse_key).expect("present");
    m.write(&mut world, vec![20u8]);

    assert_eq!(ecell.get(&world, dense_key), Some(&vec![10u8]));
    assert_eq!(ecell.get(&world, sparse_key), Some(&vec![20u8]));
}

#[test]
fn write_updates_changed_tick_and_keeps_added() {
    let mut world = World::new(2);
    let key: u64 = 32;
    let cid = world.register_component(key, StorageType::Table, true);
    let e = world.spawn(vec![(cid, vec![1u8])], 0);
    let spawn_tick = world.read_change_tick();

    let cell = UnsafeWorldCell::new_mutable(&mut world);
    cell.increment_change_tick(&mut world);
    let now = world.read_change_tick();
    assert_ne!(now, spawn_tick);

    let ecell = cell.get_entity(&world, e).ok().expect("alive");
    let ticks_before = ecell.get_change_ticks(&world, key).expect("present");
    assert_eq!(ticks_before.added, spawn_tick);
    assert_eq!(ticks_before.changed, spawn_tick);

    let m = ecell.get_mut(&world, key).expect("present");
    m.write(&mut world, vec![2u8]);
    let ticks_after = ecell.get_change_ticks(&world, key).expect("present");
    assert_eq!(ticks_after.added, spawn_tick);
    assert_eq!(ticks_after.changed, now);
    assert!(m.is_changed(&world));

    // Reading alone moves no tick.
    let r = ecell.get_ref(&world, key).expect("present");
    assert_eq!(r.value(), &vec![2u8]);
    let ticks_read = ecell.get_change_ticks(&world, key).expect("present");
    assert_eq!(ticks_read, ticks_after);
}

#[test]
fn absence_matches_contains() {
    let mut world = World::new(3);
    let here_key: u64 = 33;
    let missing_key: u64 = 34;
    let here = world.register_component(here_key, StorageType::Table, true);
    let missing = world.register_component(missing_key, StorageType::SparseSet, true);
    let e = world.spawn(vec![(here, vec![5u8])], 0);
    let cell = UnsafeWorldCell::new_readonly(&world);
    let ecell = cell.get_entity(&world, e).ok().expect("alive");

    assert!(ecell.contains(&world, here_key));
    assert!(ecell.get(&world, here_key).is_some());
    assert!(!ecell.contains(&world, missing_key));
    assert!(ecell.get(&world, missing_key).is_none());
    assert!(ecell.contains_id(&world, here));
    assert!(!ecell.contains_id(&world, missing));
    assert!(ecell.contains_type_id(&world, here_key));
    assert!(!ecell.contains_type_id(&world, 999));
}

#[test]
fn untyped_reads_match_typed_reads() {
    let mut world = World::new(4);
    let key: u64 = 35;
    let cid = world.register_component(key, StorageType::SparseSet, true);
    let e = world.spawn(vec![(cid, vec![8u8, 9])], 0);
    let cell = UnsafeWorldCell::new_readonly(&world);
    let ecell = cell.get_entity(&world, e).ok().expect("alive");
    assert_eq!(ecell.get_by_id(&world, cid), ecell.get(&world, key));
    assert_eq!(
        ecell.get_change_ticks_by_id(&world, cid),
        ecell.get_change_ticks(&world, key)
    );
}

#[test]
fn disjoint_writes_to_two_entities() {
    let mut world = World::new(5);
    let key: u64 = 36;
    let cid = world.register_component(key, StorageType::Table, true);
    let e1 = world.spawn(vec![(cid, vec![0u8])], 0);
    let e2 = world.spawn(vec![(cid, vec![0u8])], 0);

    let cell = UnsafeWorldCell::new_mutable(&mut world);
    let c1 = cell.get_entity(&world, e1).ok().expect("alive");
    let c2 = cell.get_entity(&world, e2).ok().expect("alive");
    // Hold both write handles at once, then write through each.
    let m1 = c1.get_mut(&world, key).expect("present");
    let m2 = c2.get_mut(&world, key).expect("present");
    m1.write(&mut world, vec![1u8]);
    m2.write(&mut world, vec![2u8]);
    assert_eq!(c1.get(&world, key), Some(&vec![1u8]));
    assert_eq!(c2.get(&world, key), Some(&vec![2u8]));
}

#[test]
fn explicit_tick_window_is_carried() {
    let mut world = World::new(6);
    let key: u64 = 37;
    let cid = world.register_component(key, StorageType::Table, true);
    let e = world.spawn(vec![(cid, vec![1u8])], 0);
    let cell = UnsafeWorldCell::new_readonly(&world);
    let last = Tick::new(0);
    let this = Tick::new(5);
    let ecell = cell
        .get_entity_with_ticks(&world, e, last, this)
        .ok()
        .expect("alive");
    let r = ecell.get_ref(&world, key).expect("present");
    // Spawned at tick 1, window (0, 5): the value counts as added.
    assert!(r.is_added());
    assert!(r.is_changed());
}
