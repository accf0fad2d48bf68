//! The component registry: metadata describing every registered component
//! and resource kind, keyed by a numeric type key.
//!
//! A *type key* stands for the identity of a Rust type: the world stores
//! values untyped, and accessors resolve a type key to a component id through
//! this registry before touching any storage.

use vstd::prelude::*;

verus! {

/// Identifies a registered component or resource kind: an index into the
/// registry's list of infos.
pub type ComponentId = usize;

/// Stands for the identity of a component or resource type.  Two values are
/// of the same type exactly when their keys are equal.
pub type TypeKey = u64;

/// Where values of a component kind are stored.
#[derive(Debug, Clone, Copy, PartialEq, Eq, Structural)]
pub enum StorageType {
    /// Dense storage: one table row per entity of an archetype.
    Table,
    /// Sparse storage: a per-component set keyed by entity.
    SparseSet,
}

/// Whether an id was registered for entity components or for a singleton
/// resource.
#[derive(Debug, Clone, Copy, PartialEq, Eq, Structural)]
pub enum ComponentKind {
    /// Attached to entities.
    Component,
    /// A singleton keyed by its type.
    Resource,
}

/// The registry's metadata for one component id.
#[derive(Debug, Clone, Copy, PartialEq, Eq, Structural)]
pub struct ComponentInfo {
    /// The type this id was registered for.
    pub type_key: TypeKey,
    /// Where values of this kind live.
    pub storage_type: StorageType,
    /// Whether values of this kind may be written after insertion.
    pub mutable: bool,
    /// Whether this id names an entity component or a resource.
    pub kind: ComponentKind,
}

/// The component registry.  The id of an info is its index in `infos`.
pub struct Components {
    /// Metadata per component id, in registration order.
    pub infos: Vec<ComponentInfo>,
}

impl Components {
    /// Registry well-formedness: no type key is registered twice.
    pub open spec fn wf(&self) -> bool {
        forall|i: int, j: int|
            0 <= i < j < self.infos@.len() ==> (#[trigger] self.infos@[i].type_key)
                != (#[trigger] self.infos@[j].type_key)
    }

    /// Whether some id is registered for `key`.
    pub open spec fn spec_has_key(&self, key: TypeKey) -> bool {
        exists|i: int| 0 <= i < self.infos@.len() && self.infos@[i].type_key == key
    }

    /// The id registered for `key`; meaningful only when `spec_has_key(key)`.
    pub open spec fn spec_id_of(&self, key: TypeKey) -> int {
        choose|i: int| 0 <= i < self.infos@.len() && self.infos@[i].type_key == key
    }

    /// The info at `id`, or `None` for an unknown id.
    pub open spec fn spec_get_info(&self, id: int) -> Option<ComponentInfo> {
        if 0 <= id < self.infos@.len() {
            Some(self.infos@[id])
        } else {
            None
        }
    }

    /// Creates an empty registry.
    pub fn new() -> (r: Components)
        ensures
            r.wf(),
            r.infos@.len() == 0,
    {
        Components { infos: Vec::new() }
    }

    /// The number of registered ids.
    pub fn len(&self) -> (r: usize)
        ensures
            r == self.infos@.len(),
    {
        self.infos.len()
    }

    /// The id registered for `key`, or `None` when the key is unknown.
    pub fn get_id(&self, key: TypeKey) -> (r: Option<ComponentId>)
        requires
            self.wf(),
        ensures
            r is Some <==> self.spec_has_key(key),
            r is Some ==> r->Some_0 == self.spec_id_of(key),
    {
        let n = self.infos.len();
        let mut i: usize = 0;
        while i < n
            invariant
                self.wf(),
                n == self.infos@.len(),
                0 <= i <= n,
                forall|j: int| 0 <= j < i ==> self.infos@[j].type_key != key,
            decreases n - i,
        {
            if self.infos[i].type_key == key {
                proof {
                    assert(self.infos@[i as int].type_key == key);
                    let w = self.spec_id_of(key);
                    assert(self.infos@[w].type_key == key);
                    if w < i {
                        assert(self.infos@[w].type_key != self.infos@[i as int].type_key);
                    } else if i < w {
                        assert(self.infos@[i as int].type_key != self.infos@[w].type_key);
                    }
                }
                return Some(i);
            }
            i += 1;
        }
        None
    }

    /// The id registered for `key`, provided that id names an entity
    /// component, or `None` otherwise.
    pub fn get_valid_id(&self, key: TypeKey) -> (r: Option<ComponentId>)
        requires
            self.wf(),
        ensures
            r is Some <==> self.spec_has_key(key)
                && self.infos@[self.spec_id_of(key)].kind == ComponentKind::Component,
            r is Some ==> r->Some_0 == self.spec_id_of(key),
    {
        match self.get_id(key) {
            Some(id) => {
                if matches!(self.infos[id].kind, ComponentKind::Component) {
                    Some(id)
                } else {
                    None
                }
            },
            None => None,
        }
    }

    /// The id registered for `key`, provided that id names a resource, or
    /// `None` otherwise.
    pub fn get_valid_resource_id(&self, key: TypeKey) -> (r: Option<ComponentId>)
        requires
            self.wf(),
        ensures
            r is Some <==> self.spec_has_key(key)
                && self.infos@[self.spec_id_of(key)].kind == ComponentKind::Resource,
            r is Some ==> r->Some_0 == self.spec_id_of(key),
    {
        match self.get_id(key) {
            Some(id) => {
                if matches!(self.infos[id].kind, ComponentKind::Resource) {
                    Some(id)
                } else {
                    None
                }
            },
            None => None,
        }
    }

    /// The info registered at `id`, or `None` for an unknown id.
    pub fn get_info(&self, id: ComponentId) -> (r: Option<&ComponentInfo>)
        ensures
            match r {
                Some(info) => self.spec_get_info(id as int) == Some(*info),
                None => self.spec_get_info(id as int) is None,
            },
    {
        if id < self.infos.len() {
            Some(&self.infos[id])
        } else {
            None
        }
    }

    /// Registers `key` with the given metadata and returns its id.  When the
    /// key is already registered, the existing id is returned and the
    /// registry is left unchanged.
    pub fn register(
        &mut self,
        key: TypeKey,
        storage_type: StorageType,
        mutable: bool,
        kind: ComponentKind,
    ) -> (r: ComponentId)
        requires
            old(self).wf(),
        ensures
            final(self).wf(),
            final(self).spec_has_key(key),
            r == final(self).spec_id_of(key),
            old(self).spec_has_key(key) ==> *final(self) == *old(self),
            !old(self).spec_has_key(key) ==> final(self).infos@ == old(self).infos@.push(
                ComponentInfo { type_key: key, storage_type, mutable, kind },
            ),
    {
        match self.get_id(key) {
            Some(id) => id,
            None => {
                let id = self.infos.len();
                self.infos.push(ComponentInfo { type_key: key, storage_type, mutable, kind });
                proof {
                    assert forall|i: int, j: int|
                        0 <= i < j < self.infos@.len() implies self.infos@[i].type_key
                        != self.infos@[j].type_key by {
                        if j == self.infos@.len() - 1 {
                            assert(old(self).infos@[i].type_key != key);
                        }
                    }
                    assert(self.infos@[id as int].type_key == key);
                    let w = self.spec_id_of(key);
                    assert(self.infos@[w].type_key == key);
                    if w != id {
                        assert(old(self).infos@[w].type_key == key);
                    }
                }
                id
            },
        }
    }
}

} // verus!
