use world_cell::cell::{GetEntityMutByIdError, UnsafeWorldCell};
use world_cell::component::StorageType;
use world_cell::world::World;

#[test]
fn untyped_write_error_ladder() {
    let mut world = World::new(1);
    let immutable_key: u64 = 40;
    let mutable_key: u64 = 41;
    let immutable = world.register_component(immutable_key, StorageType::Table, false);
    let mutable = world.register_component(mutable_key, StorageType::Table, true);
    // The entity has the immutable component but not the mutable one.
    let e = world.spawn(vec![(immutable, vec![1u8])], 0);

    let cell = UnsafeWorldCell::new_mutable(&mut world);
    let ecell = cell.get_entity(&world, e).ok().expect("alive");

    let never_registered: usize = 99;
    assert_eq!(
        ecell.get_mut_by_id(&world, never_registered),
        Err(GetEntityMutByIdError::InfoNotFound)
    );
    assert_eq!(
        ecell.get_mut_by_id(&world, immutable),
        Err(GetEntityMutByIdError::ComponentIsImmutable)
    );
    assert_eq!(
        ecell.get_mut_by_id(&world, mutable),
        Err(GetEntityMutByIdError::ComponentNotFound)
    );
}

#[test]
fn untyped_write_succeeds_on_present_mutable_component() {
    let mut world = World::new(2);
    let key: u64 = 42;
    let cid = world.register_component(key, StorageType::SparseSet, true);
    let e = world.spawn(vec![(cid, vec![3u8])], 0);
    let cell = UnsafeWorldCell::new_mutable(&mut world);
    let ecell = cell.get_entity(&world, e).ok().expect("alive");
    let m = ecell.get_mut_by_id(&world, cid).expect("mutable and present");
    m.write(&mut world, vec![4u8]);
    assert_eq!(ecell.get_by_id(&world, cid), Some(&vec![4u8]));
}

#[test]
fn assume_mutable_skips_the_immutability_check() {
    let mut world = World::new(3);
    let key: u64 = 43;
    let cid = world.register_component(key, StorageType::Table, true);
    let e = world.spawn(vec![], 0);
    let cell = UnsafeWorldCell::new_mutable(&mut world);
    let ecell = cell.get_entity(&world, e).ok().expect("alive");
    assert_eq!(
        ecell.get_mut_assume_mutable_by_id(&world, cid),
        Err(GetEntityMutByIdError::ComponentNotFound)
    );
    assert_eq!(
        ecell.get_mut_assume_mutable_by_id(&world, 7),
        Err(GetEntityMutByIdError::InfoNotFound)
    );
}
