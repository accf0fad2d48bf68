//! Change-detection ticks.
//!
//! A tick is a monotonically increasing counter value drawn from the world's
//! change-tick counter.  The counter wraps around, so ticks are compared
//! relative to one another inside a sliding window rather than absolutely.

use vstd::prelude::*;

verus! {

/// The maximum age a tick may reach before relative comparisons saturate.
/// Ages are clamped to this value, which keeps a comparison meaningful even
/// after the underlying counter has wrapped around.
pub const MAX_CHANGE_AGE: u32 = u32::MAX - (2 * 518_400_000 - 1);

/// A value of the world's change-tick counter.
#[derive(Debug, Clone, Copy, PartialEq, Eq, Structural)]
pub struct Tick {
    /// The raw counter value.
    pub tick: u32,
}

/// The counter value that follows `t`, wrapping around at the top.
pub open spec fn spec_tick_next(t: u32) -> u32 {
    vstd::wrapping::u32_specs::wrapping_add(t, 1)
}

/// The age of counter value `of` relative to counter value `since`,
/// i.e. how many increments lead from `since` to `of`, modulo wraparound.
pub open spec fn spec_tick_relative(of: u32, since: u32) -> u32 {
    vstd::wrapping::u32_specs::wrapping_sub(of, since)
}

/// The age used by relative comparisons: the distance from `since` to `of`,
/// clamped to [`MAX_CHANGE_AGE`].
pub open spec fn spec_tick_age(of: u32, since: u32) -> u32 {
    if spec_tick_relative(of, since) > MAX_CHANGE_AGE {
        MAX_CHANGE_AGE
    } else {
        spec_tick_relative(of, since)
    }
}

/// Whether a datum stamped with tick `t` counts as newer than the window
/// `(last_run, this_run)`: its clamped age at `this_run` is strictly smaller
/// than the clamped age of `last_run` at `this_run`.
pub open spec fn spec_is_newer_than(t: u32, last_run: u32, this_run: u32) -> bool {
    spec_tick_age(this_run, last_run) > spec_tick_age(this_run, t)
}

impl Tick {
    /// Creates a tick holding the raw counter value `tick`.
    pub fn new(tick: u32) -> (r: Tick)
        ensures
            r.tick == tick,
    {
        Tick { tick }
    }

    /// Returns the raw counter value.
    pub fn get(self) -> (r: u32)
        ensures
            r == self.tick,
    {
        self.tick
    }

    /// The distance from `other` to `self`, modulo wraparound.
    pub fn relative_to(self, other: Tick) -> (r: Tick)
        ensures
            r.tick == spec_tick_relative(self.tick, other.tick),
    {
        Tick { tick: self.tick.wrapping_sub(other.tick) }
    }

    /// Whether this tick falls inside the change-detection window
    /// `(last_run, this_run)`: it is newer than the last run as seen from the
    /// current run.
    pub fn is_newer_than(self, last_run: Tick, this_run: Tick) -> (r: bool)
        ensures
            r == spec_is_newer_than(self.tick, last_run.tick, this_run.tick),
    {
        let ticks_since_insert = min_u32(
            this_run.relative_to(self).tick,
            MAX_CHANGE_AGE,
        );
        let ticks_since_system = min_u32(
            this_run.relative_to(last_run).tick,
            MAX_CHANGE_AGE,
        );
        ticks_since_system > ticks_since_insert
    }
}

/// The smaller of two counter values.
fn min_u32(a: u32, b: u32) -> (r: u32)
    ensures
        r == if a < b { a } else { b },
{
    if a < b {
        a
    } else {
        b
    }
}

/// The pair of ticks kept beside every stored component or resource value:
/// when the value was added, and when it was last changed.
#[derive(Debug, Clone, Copy, PartialEq, Eq, Structural)]
pub struct ComponentTicks {
    /// The tick at which the value was first added.
    pub added: Tick,
    /// The tick at which the value was last written.
    pub changed: Tick,
}

impl ComponentTicks {
    /// The tick pair of a value that was just added at `tick`: it counts as
    /// both added and changed there.
    pub fn new(tick: Tick) -> (r: ComponentTicks)
        ensures
            r.added == tick,
            r.changed == tick,
    {
        ComponentTicks { added: tick, changed: tick }
    }

    /// Whether the value was added inside the window `(last_run, this_run)`.
    pub fn is_added(&self, last_run: Tick, this_run: Tick) -> (r: bool)
        ensures
            r == spec_is_newer_than(self.added.tick, last_run.tick, this_run.tick),
    {
        self.added.is_newer_than(last_run, this_run)
    }

    /// Whether the value was written inside the window `(last_run, this_run)`.
    pub fn is_changed(&self, last_run: Tick, this_run: Tick) -> (r: bool)
        ensures
            r == spec_is_newer_than(self.changed.tick, last_run.tick, this_run.tick),
    {
        self.changed.is_newer_than(last_run, this_run)
    }
}

/// Tick monotonicity: the value returned by one counter increment and the
/// value returned by the next differ by exactly one step modulo wraparound,
/// so the returned values are strictly increasing inside the window.
pub proof fn lemma_tick_increment_monotonic(t: u32)
    ensures
        spec_tick_relative(spec_tick_next(t), t) == 1,
        spec_tick_next(t) != t,
{
}

} // verus!
