use world_cell::cell::UnsafeWorldCell;
use world_cell::tick::{ComponentTicks, Tick, MAX_CHANGE_AGE};
use world_cell::world::World;

#[test]
fn increment_change_tick_returns_strictly_increasing_values() {
    let mut world = World::new(1);
    let cell = UnsafeWorldCell::new_readonly(&world);
    let a = cell.increment_change_tick(&mut world);
    let b = cell.increment_change_tick(&mut world);
    let c = cell.increment_change_tick(&mut world);
    assert_eq!(a.get(), 1);
    assert_eq!(b.get(), 2);
    assert_eq!(c.get(), 3);
    assert_eq!(b.relative_to(a).get(), 1);
    assert_eq!(c.relative_to(b).get(), 1);
}

#[test]
fn increment_change_tick_wraps_around() {
    let mut world = World::new(2);
    world.change_tick = u32::MAX;
    let cell = UnsafeWorldCell::new_readonly(&world);
    let before = cell.increment_change_tick(&mut world);
    let after = cell.increment_change_tick(&mut world);
    assert_eq!(before.get(), u32::MAX);
    assert_eq!(after.get(), 0);
    // Still one step apart modulo wraparound.
    assert_eq!(after.relative_to(before).get(), 1);
}

#[test]
fn is_newer_than_on_exact_values() {
    // Stamped at 3, window (2, 5): inside, so newer.
    assert!(Tick::new(3).is_newer_than(Tick::new(2), Tick::new(5)));
    // Stamped at 2, window (2, 5): not newer than the last run itself.
    assert!(!Tick::new(2).is_newer_than(Tick::new(2), Tick::new(5)));
    // Stamped at 1, window (2, 5): older than the last run.
    assert!(!Tick::new(1).is_newer_than(Tick::new(2), Tick::new(5)));
}

#[test]
fn ages_saturate_at_the_change_age_cap() {
    // Both distances exceed the cap, so the comparison saturates to equal.
    let stamp = Tick::new(0);
    let last = Tick::new(1);
    let now = Tick::new(MAX_CHANGE_AGE.wrapping_add(10));
    assert!(!stamp.is_newer_than(last, now));
}

#[test]
fn component_ticks_report_added_and_changed() {
    let t = ComponentTicks::new(Tick::new(4));
    assert_eq!(t.added, Tick::new(4));
    assert_eq!(t.changed, Tick::new(4));
    assert!(t.is_added(Tick::new(3), Tick::new(6)));
    assert!(t.is_changed(Tick::new(3), Tick::new(6)));
    assert!(!t.is_added(Tick::new(4), Tick::new(6)));
}

#[test]
fn trigger_id_wraps() {
    let mut world = World::new(3);
    world.last_trigger_id = u32::MAX;
    let cell = UnsafeWorldCell::new_mutable(&mut world);
    cell.increment_trigger_id(&mut world);
    assert_eq!(world.last_trigger_id, 0);
    cell.increment_trigger_id(&mut world);
    assert_eq!(world.last_trigger_id, 1);
}
