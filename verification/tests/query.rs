use world_cell::cell::UnsafeWorldCell;
use world_cell::component::StorageType;
use world_cell::query::ValueQuery;
use world_cell::world::World;

#[test]
fn value_query_fetches_a_matching_component() {
    let mut world = World::new(1);
    let cid = world.register_component(50, StorageType::Table, true);
    assert_eq!(cid, 0);
    let e = world.spawn(vec![(cid, vec![1u8, 2, 3])], 0);
    let cell = UnsafeWorldCell::new_readonly(&world);
    let ecell = cell.get_entity(&world, e).ok().expect("alive");
    let item = ecell.get_components::<ValueQuery<50>>(&world);
    assert_eq!(item, Some(vec![1u8, 2, 3]));
}

#[test]
fn value_query_misses_an_entity_without_the_component() {
    let mut world = World::new(2);
    let _queried = world.register_component(51, StorageType::Table, true);
    let other = world.register_component(52, StorageType::Table, true);
    let e = world.spawn(vec![(other, vec![9u8])], 0);
    let cell = UnsafeWorldCell::new_readonly(&world);
    let ecell = cell.get_entity(&world, e).ok().expect("alive");
    assert_eq!(ecell.get_components::<ValueQuery<51>>(&world), None);
}

#[test]
fn value_query_needs_a_registered_dense_component() {
    let mut world = World::new(3);
    let sparse = world.register_component(53, StorageType::SparseSet, true);
    let e = world.spawn(vec![(sparse, vec![4u8])], 0);
    let cell = UnsafeWorldCell::new_readonly(&world);
    let ecell = cell.get_entity(&world, e).ok().expect("alive");
    // Unregistered key: no state resolves.
    assert_eq!(ecell.get_components::<ValueQuery<54>>(&world), None);
    // Sparse storage: this query only walks tables.
    assert_eq!(ecell.get_components::<ValueQuery<53>>(&world), None);
}
