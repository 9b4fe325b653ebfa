use std::collections::hash_map::Entry;
use std::collections::HashMap;
use vstd::prelude::*;

use crate::any_handle::{AnyHandle, Handle, HandleMut};
use crate::local_any_handle::LocalAnyHandle;

verus! {

broadcast use vstd::std_specs::hash::group_hash_axioms;

/// Identifies a resource stored in the world.
#[derive(Clone, Copy, Debug, PartialEq, Eq, Structural, Hash)]
pub struct ResourceId(pub u64);

impl ResourceId {
    pub fn new(id: u64) -> (r: ResourceId)
        ensures
            r.0 == id,
    {
        ResourceId(id)
    }
}

/// A type that can be stored in the world's shared resources; each resource
/// type names its own identifier.
pub trait Resource {
    /// The identifier under which the resource is stored.
    const ID: ResourceId;

    fn id() -> (id: ResourceId)
        ensures
            id == Self::ID,
    {
        Self::ID
    }
}

/// A type that can be stored in the resources local to the world's center.
pub trait LocalResource {
    /// The identifier under which the resource is stored.
    const ID: ResourceId;

    fn id() -> (id: ResourceId)
        ensures
            id == Self::ID,
    {
        Self::ID
    }
}

/// The values of a map of handles.
pub open spec fn handle_values<V>(m: Map<u64, AnyHandle<V>>) -> Map<u64, V> {
    m.map_values(|h: AnyHandle<V>| h.spec_value())
}

/// Storing a handle stores its value.
pub proof fn lemma_values_insert<V>(m: Map<u64, AnyHandle<V>>, k: u64)
    ensures
        forall|h: AnyHandle<V>|
            #[trigger] handle_values(m.insert(k, h)) == handle_values(m).insert(k, h.spec_value()),
{
    assert forall|h: AnyHandle<V>|
        #[trigger] handle_values(m.insert(k, h)) == handle_values(m).insert(k, h.spec_value()) by {
        assert(handle_values(m.insert(k, h)) =~= handle_values(m).insert(k, h.spec_value()));
    }
}

/// The world's shared resources, each under its identifier.
pub struct Resources<V> {
    entries: HashMap<u64, AnyHandle<V>>,
}

impl<V> View for Resources<V> {
    type V = Map<u64, V>;

    closed spec fn view(&self) -> Map<u64, V> {
        handle_values(self.entries@)
    }
}

impl<V> Resources<V> {
    /// The identifiers stored form a finite set.
    pub closed spec fn wf(&self) -> bool {
        self.entries@.dom().finite()
    }

    pub fn new() -> (r: Resources<V>)
        ensures
            r.wf(),
            r@ == Map::<u64, V>::empty(),
    {
        let r = Resources { entries: HashMap::new() };
        proof {
            assert(r@ =~= Map::<u64, V>::empty());
        }
        r
    }

    /// Stores `value` under `id`, replacing what was there.
    pub fn insert(&mut self, id: ResourceId, value: V)
        requires
            old(self).wf(),
        ensures
            final(self).wf(),
            final(self)@ == old(self)@.insert(id.0, value),
    {
        let h = AnyHandle::new_any(value);
        self.entries.insert(id.0, h);
        proof {
            assert(self@ =~= old(self)@.insert(id.0, value));
        }
    }

    pub fn handle_ref(&self, id: ResourceId) -> (r: Option<&AnyHandle<V>>)
        requires
            self.wf(),
        ensures
            match r {
                Some(h) => self@.contains_key(id.0) && h.spec_value() == self@[id.0],
                None => !self@.contains_key(id.0),
            },
    {
        self.entries.get(&id.0)
    }

    /// A shared read handle on the resource stored under `id`.
    pub fn handle(&self, id: ResourceId) -> (r: Option<Handle<V>>)
        requires
            self.wf(),
        ensures
            match r {
                Some(h) => self@.contains_key(id.0) && h.spec_value() == self@[id.0],
                None => !self@.contains_key(id.0),
            },
    {
        match self.handle_ref(id) {
            Some(h) => Some(h.handle()),
            None => None,
        }
    }

    pub fn handle_ref_mut(&mut self, id: ResourceId) -> (r: Option<&mut AnyHandle<V>>)
        requires
            old(self).wf(),
        ensures
            match r {
                Some(h) => old(self)@.contains_key(id.0) && h.spec_value() == old(self)@[id.0]
                    && final(self).wf() && final(self)@ == old(self)@.insert(
                    id.0,
                    final(h).spec_value(),
                ),
                None => !old(self)@.contains_key(id.0) && final(self)@ == old(self)@ && final(self).wf(),
            },
    {
        broadcast use vstd::std_specs::hash::axiom_has_resolved_entry;
        match self.entries.entry(id.0) {
            Entry::Occupied(e) => {
                proof {
                    lemma_values_insert(old(self).entries@, id.0);
                }
                Some(e.into_mut())
            },
            Entry::Vacant(e) => {
                proof {
                    assert(old(self).entries@.remove(id.0) =~= old(self).entries@);
                }
                None
            },
        }
    }

    /// The exclusive write handle on the resource stored under `id`; there is
    /// none when no resource is stored there, or while a read handle on it is
    /// alive.
    pub fn handle_mut(&mut self, id: ResourceId) -> (r: Option<HandleMut<'_, V>>)
        requires
            old(self).wf(),
        ensures
            !old(self)@.contains_key(id.0) ==> r is None,
            match r {
                Some(h) => old(self)@.contains_key(id.0) && *h.0 == old(self)@[id.0]
                    && final(self).wf() && final(self)@ == old(self)@.insert(id.0, *final(h.0)),
                None => final(self)@ == old(self)@ && final(self).wf(),
            },
    {
        match self.handle_ref_mut(id) {
            Some(h) => {
                let ghost before = *h;
                let r = h.handle_mut();
                proof {
                    if r is None {
                        assert(old(self)@.insert(id.0, before.spec_value()) =~= old(self)@);
                    }
                }
                r
            },
            None => None,
        }
    }

    /// Removes the resource stored under `id` and returns it; it stays
    /// removed, and nothing is returned, while a read handle on it is alive.
    pub fn try_take(&mut self, id: ResourceId) -> (r: Option<V>)
        requires
            old(self).wf(),
        ensures
            final(self).wf(),
            final(self)@ == old(self)@.remove(id.0),
            !old(self)@.contains_key(id.0) ==> r is None,
            r matches Some(v) ==> old(self)@.contains_key(id.0) && v == old(self)@[id.0],
    {
        let removed = self.entries.remove(&id.0);
        proof {
            assert(self@ =~= old(self)@.remove(id.0));
        }
        match removed {
            Some(h) => h.try_take(),
            None => None,
        }
    }

    /// Stores the default value under `id`.
    pub fn init(&mut self, id: ResourceId) where V: Default
        requires
            old(self).wf(),
        ensures
            final(self).wf(),
            final(self)@.dom() == old(self)@.dom().insert(id.0),
            forall|k: u64| k != id.0 && old(self)@.contains_key(k) ==> final(self)@[k] == old(self)@[k],
    {
        self.insert(id, V::default());
    }
}

impl<V> Default for Resources<V> {
    fn default() -> (r: Resources<V>)
        ensures
            r.wf(),
            r@ == Map::<u64, V>::empty(),
    {
        Resources::new()
    }
}

/// The values of a map of local handles.
pub open spec fn local_values<V>(m: Map<u64, LocalAnyHandle<V>>) -> Map<u64, V> {
    m.map_values(|h: LocalAnyHandle<V>| h.spec_value())
}

/// Storing a local handle stores its value.
pub proof fn lemma_local_values_insert<V>(m: Map<u64, LocalAnyHandle<V>>, k: u64)
    ensures
        forall|h: LocalAnyHandle<V>|
            #[trigger] local_values(m.insert(k, h)) == local_values(m).insert(k, h.spec_value()),
{
    assert forall|h: LocalAnyHandle<V>|
        #[trigger] local_values(m.insert(k, h)) == local_values(m).insert(k, h.spec_value()) by {
        assert(local_values(m.insert(k, h)) =~= local_values(m).insert(k, h.spec_value()));
    }
}

/// Resources kept by the world's center, never shared with systems.
pub struct LocalResources<V> {
    entries: HashMap<u64, LocalAnyHandle<V>>,
}

impl<V> View for LocalResources<V> {
    type V = Map<u64, V>;

    closed spec fn view(&self) -> Map<u64, V> {
        local_values(self.entries@)
    }
}

impl<V> LocalResources<V> {
    /// The identifiers stored form a finite set.
    pub closed spec fn wf(&self) -> bool {
        self.entries@.dom().finite()
    }

    pub fn new() -> (r: LocalResources<V>)
        ensures
            r.wf(),
            r@ == Map::<u64, V>::empty(),
    {
        let r = LocalResources { entries: HashMap::new() };
        proof {
            assert(r@ =~= Map::<u64, V>::empty());
        }
        r
    }

    /// Stores `value` under `id`, replacing what was there.
    pub fn insert(&mut self, id: ResourceId, value: V)
        requires
            old(self).wf(),
        ensures
            final(self).wf(),
            final(self)@ == old(self)@.insert(id.0, value),
    {
        let h = LocalAnyHandle::new_any(value);
        self.entries.insert(id.0, h);
        proof {
            assert(self@ =~= old(self)@.insert(id.0, value));
        }
    }

    /// Removes the resource stored under `id` and returns it.
    pub fn try_take(&mut self, id: ResourceId) -> (r: Option<V>)
        requires
            old(self).wf(),
        ensures
            final(self).wf(),
            final(self)@ == old(self)@.remove(id.0),
            r == (if old(self)@.contains_key(id.0) {
                Some(old(self)@[id.0])
            } else {
                None
            }),
    {
        let removed = self.entries.remove(&id.0);
        proof {
            assert(self@ =~= old(self)@.remove(id.0));
        }
        match removed {
            Some(h) => h.try_take(),
            None => None,
        }
    }

    /// Stores the default value under `id`.
    pub fn init(&mut self, id: ResourceId) where V: Default
        requires
            old(self).wf(),
        ensures
            final(self).wf(),
            final(self)@.dom() == old(self)@.dom().insert(id.0),
            forall|k: u64| k != id.0 && old(self)@.contains_key(k) ==> final(self)@[k] == old(self)@[k],
    {
        self.insert(id, V::default());
    }

    pub fn get(&self, id: ResourceId) -> (r: Option<&V>)
        requires
            self.wf(),
        ensures
            match r {
                Some(v) => self@.contains_key(id.0) && *v == self@[id.0],
                None => !self@.contains_key(id.0),
            },
    {
        match self.entries.get(&id.0) {
            Some(h) => h.get(),
            None => None,
        }
    }

    pub fn get_mut(&mut self, id: ResourceId) -> (r: Option<&mut V>)
        requires
            old(self).wf(),
        ensures
            match r {
                Some(v) => old(self)@.contains_key(id.0) && *v == old(self)@[id.0] && final(self).wf() && final(self)@ == old(self)@.insert(id.0, *final(v)),
                None => !old(self)@.contains_key(id.0) && final(self)@ == old(self)@ && final(self).wf(),
            },
    {
        broadcast use vstd::std_specs::hash::axiom_has_resolved_entry;
        match self.entries.entry(id.0) {
            Entry::Occupied(e) => {
                proof {
                    lemma_local_values_insert(old(self).entries@, id.0);
                }
                e.into_mut().get_mut()
            },
            Entry::Vacant(e) => {
                proof {
                    assert(old(self).entries@.remove(id.0) =~= old(self).entries@);
                }
                None
            },
        }
    }
}

impl<V> Default for LocalResources<V> {
    fn default() -> (r: LocalResources<V>)
        ensures
            r.wf(),
            r@ == Map::<u64, V>::empty(),
    {
        LocalResources::new()
    }
}

/// A resource reads back as the value last stored under its id, and storing it
/// leaves every other resource as it was.
pub proof fn law_read_after_insert<V>(before: Map<u64, V>, id: ResourceId, value: V)
    ensures
        before.insert(id.0, value).contains_key(id.0),
        before.insert(id.0, value)[id.0] == value,
        forall|k: u64|
            k != id.0 ==> (#[trigger] before.insert(id.0, value).contains_key(k) == before.contains_key(
                k,
            )) && (before.contains_key(k) ==> before.insert(id.0, value)[k] == before[k]),
{
}

/// Taking a resource right after storing it gives the stored value back and
/// leaves the resources as they were without that id.
pub proof fn law_take_after_insert<V>(before: Map<u64, V>, id: ResourceId, value: V)
    ensures
        before.insert(id.0, value)[id.0] == value,
        before.insert(id.0, value).remove(id.0) == before.remove(id.0),
{
    assert(before.insert(id.0, value).remove(id.0) =~= before.remove(id.0));
}

} // verus!
