//! Archetypes: the set of component kinds an entity currently has.
//!
//! Entities with the same component set share an archetype, and each
//! archetype owns the table that stores its dense components.  The cell's
//! presence predicates consult archetype metadata only, never payloads.

use vstd::prelude::*;

use crate::component::ComponentId;

verus! {

/// One archetype: a component set plus the table its dense components live
/// in.
pub struct Archetype {
    /// The ids of the components every entity of this archetype has.
    pub components: Vec<ComponentId>,
    /// The table storing the dense components of this archetype.
    pub table_id: usize,
}

impl Archetype {
    /// Whether this archetype's component set contains `component_id`.
    pub open spec fn spec_contains(&self, component_id: int) -> bool {
        exists|i: int| 0 <= i < self.components@.len() && self.components@[i] == component_id
    }

    /// Whether this archetype's component set contains `component_id`.
    pub fn contains(&self, component_id: ComponentId) -> (r: bool)
        ensures
            r == self.spec_contains(component_id as int),
    {
        let n = self.components.len();
        let mut i: usize = 0;
        while i < n
            invariant
                n == self.components@.len(),
                0 <= i <= n,
                forall|j: int| 0 <= j < i ==> self.components@[j] != component_id,
            decreases n - i,
        {
            if self.components[i] == component_id {
                proof {
                    assert(self.components@[i as int] == component_id);
                }
                return true;
            }
            i += 1;
        }
        false
    }

    /// The number of component kinds in this archetype.
    pub fn component_count(&self) -> (r: usize)
        ensures
            r == self.components@.len(),
    {
        self.components.len()
    }
}

/// The set of all archetypes of a world, indexed by archetype id.
pub struct Archetypes {
    /// The archetypes, in creation order.
    pub archetypes: Vec<Archetype>,
}

impl Archetypes {
    /// Creates an empty archetype set.
    pub fn new() -> (r: Archetypes)
        ensures
            r.archetypes@.len() == 0,
    {
        Archetypes { archetypes: Vec::new() }
    }

    /// The number of archetypes.
    pub fn len(&self) -> (r: usize)
        ensures
            r == self.archetypes@.len(),
    {
        self.archetypes.len()
    }

    /// The archetype with the given id, or `None` for an unknown id.
    pub fn get(&self, archetype_id: usize) -> (r: Option<&Archetype>)
        ensures
            r is Some <==> (archetype_id as int) < self.archetypes@.len(),
            (archetype_id as int) < self.archetypes@.len() ==> r == Some(
                &self.archetypes@[archetype_id as int],
            ),
    {
        if archetype_id < self.archetypes.len() {
            Some(&self.archetypes[archetype_id])
        } else {
            None
        }
    }
}

} // verus!
