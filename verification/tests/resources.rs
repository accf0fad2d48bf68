use world_cell::cell::UnsafeWorldCell;
use world_cell::error::{ErrorHandler, DEFAULT_ERROR_HANDLER_KEY};
use world_cell::world::World;

#[test]
fn resource_round_trip_with_change_ticks() {
    let mut world = World::new(1);
    let key: u64 = 20;
    let cid = world.register_resource(key);
    let t1 = world.read_change_tick();
    world.insert_resource(cid, vec![1u8, 2, 3]);

    let cell = UnsafeWorldCell::new_mutable(&mut world);
    assert_eq!(cell.get_resource(&world, key), Some(&vec![1u8, 2, 3]));
    let r = cell.get_resource_ref(&world, key).expect("resource present");
    assert_eq!(r.ticks().changed, t1);
    assert_eq!(r.ticks().added, t1);

    let pre_increment = cell.increment_change_tick(&mut world);
    assert_eq!(pre_increment, t1);
    let t2 = world.read_change_tick();
    let m = cell.get_resource_mut(&world, key).expect("resource present");
    m.write(&mut world, vec![4u8, 5]);
    assert_eq!(cell.get_resource(&world, key), Some(&vec![4u8, 5]));
    let r = cell.get_resource_ref(&world, key).expect("resource present");
    assert_eq!(r.ticks().changed, t2);
    assert_eq!(r.ticks().added, t1);
    assert!(r.is_changed());
}

#[test]
fn absent_resource_reads_as_none() {
    let mut world = World::new(2);
    let registered: u64 = 21;
    let unregistered: u64 = 22;
    let cid = world.register_resource(registered);
    let cell = UnsafeWorldCell::new_readonly(&world);
    // Registered but never inserted, and never registered at all.
    assert_eq!(cell.get_resource(&world, registered), None);
    assert_eq!(cell.get_resource(&world, unregistered), None);
    assert_eq!(cell.get_resource_by_id(&world, cid), None);
}

#[test]
fn resource_write_updates_only_its_slot() {
    let mut world = World::new(3);
    let key_a: u64 = 23;
    let key_b: u64 = 24;
    let cid_a = world.register_resource(key_a);
    let cid_b = world.register_resource(key_b);
    world.insert_resource(cid_a, vec![1u8]);
    world.insert_resource(cid_b, vec![2u8]);
    let cell = UnsafeWorldCell::new_mutable(&mut world);
    let m = cell.get_resource_mut_by_id(&world, cid_a).expect("resource present");
    m.write(&mut world, vec![9u8]);
    assert_eq!(cell.get_resource_by_id(&world, cid_a), Some(&vec![9u8]));
    assert_eq!(cell.get_resource_by_id(&world, cid_b), Some(&vec![2u8]));
}

#[test]
fn non_send_resource_honours_thread_affinity() {
    let mut world = World::new(4);
    let key: u64 = 25;
    let cid = world.register_resource(key);
    let home_thread: u64 = 7;
    let other_thread: u64 = 8;
    world.insert_non_send_resource(cid, vec![6u8], home_thread);
    // The storage layer admits the inserting thread and refuses the rest.
    assert!(world.non_send_access_allowed(cid, home_thread));
    assert!(!world.non_send_access_allowed(cid, other_thread));
    let cell = UnsafeWorldCell::new_mutable(&mut world);
    assert_eq!(cell.get_non_send_resource(&world, key, home_thread), Some(&vec![6u8]));
    let m = cell.get_non_send_resource_mut(&world, key, home_thread).expect("present");
    m.write(&mut world, vec![7u8]);
    assert_eq!(
        cell.get_non_send_resource_by_id(&world, cid, home_thread),
        Some(&vec![7u8])
    );
}

#[test]
fn default_error_handler_falls_back_to_panic() {
    let mut world = World::new(5);
    let cell = UnsafeWorldCell::new_readonly(&world);
    assert_eq!(cell.default_error_handler(&world), ErrorHandler::Panic);
    let cid = world.register_resource(DEFAULT_ERROR_HANDLER_KEY);
    world.insert_resource(cid, vec![ErrorHandler::Warn.to_byte()]);
    let cell = UnsafeWorldCell::new_readonly(&world);
    assert_eq!(cell.default_error_handler(&world), ErrorHandler::Warn);
}
