use std::collections::HashMap;

use vstd::prelude::*;

use crate::gateway::SystemEntry;
use crate::meta::SystemId;
use crate::world::World;

verus! {

broadcast use vstd::std_specs::hash::group_hash_axioms;

/// Marks a type that names a schedule.
pub trait ScheduleLabel {
}

/// A schedule that knows how to add `T` to a world.
pub trait ScheduleConfigure<T, V>: Sized {
    /// `after` is a world that adding `thing` to this schedule may leave
    /// behind when it starts from `before`.
    spec fn spec_adds(self, before: World<V>, thing: T, after: World<V>) -> bool;

    fn add(self, world: &mut World<V>, thing: T)
        ensures
            self.spec_adds(*old(world), thing, *final(world)),
    ;
}

/// A label that knows how to add objects `O` to a world.
pub trait ConfigureObjects<O, V> {
    fn add_objs(self, world: &mut World<V>, objs: O);
}

/// Systems of one kind, by id.
pub struct SystemsMap<S> {
    systems: HashMap<usize, S>,
}

impl<S> View for SystemsMap<S> {
    type V = Map<usize, S>;

    closed spec fn view(&self) -> Map<usize, S> {
        self.systems@
    }
}

impl<S> SystemsMap<S> {
    pub fn new() -> (m: SystemsMap<S>)
        ensures
            m@ == Map::<usize, S>::empty(),
    {
        SystemsMap { systems: HashMap::new() }
    }

    pub fn add_system(&mut self, systemid: SystemId, system: S)
        ensures
            final(self)@ == old(self)@.insert(systemid.0, system),
    {
        self.systems.insert(systemid.0, system);
    }

    pub fn remove_system(&mut self, systemid: SystemId)
        ensures
            final(self)@ == old(self)@.remove(systemid.0),
    {
        self.systems.remove(&systemid.0);
    }

    pub fn is_empty(&self) -> (b: bool)
        ensures
            b == (self@ == Map::<usize, S>::empty()),
    {
        let b = self.systems.is_empty();
        proof {
            if b {
                assert(self@ =~= Map::<usize, S>::empty());
            } else if self@ == Map::<usize, S>::empty() {
                assert(self@.is_empty());
            }
        }
        b
    }

    pub fn get(&self, systemid: SystemId) -> (r: Option<&S>)
        ensures
            match r {
                Some(s) => self@.contains_key(systemid.0) && *s == self@[systemid.0],
                None => !self@.contains_key(systemid.0),
            },
    {
        self.systems.get(&systemid.0)
    }
}

impl<S> Default for SystemsMap<S> {
    fn default() -> (m: SystemsMap<S>)
        ensures
            m@ == Map::<usize, S>::empty(),
    {
        SystemsMap::new()
    }
}

/// Registered systems in the order they were added, each with its metadata.
pub struct Systems<S, Meta>(pub Vec<(SystemEntry<S>, Meta)>);

impl<S, Meta> Systems<S, Meta> {
    pub fn new() -> (s: Systems<S, Meta>)
        ensures
            s.0@ == Seq::<(SystemEntry<S>, Meta)>::empty(),
    {
        Systems(Vec::new())
    }

    pub fn add(&mut self, entry: SystemEntry<S>, meta: Meta)
        ensures
            final(self).0@ == old(self).0@.push((entry, meta)),
    {
        self.0.push((entry, meta));
    }

    pub fn iter(&self) -> (r: &[(SystemEntry<S>, Meta)])
        ensures
            r@ == self.0@,
    {
        self.0.as_slice()
    }

    pub fn iter_mut(&mut self) -> (r: &mut [(SystemEntry<S>, Meta)])
        ensures
            r@ == old(self).0@,
            final(self).0@ == final(r)@,
    {
        self.0.as_mut_slice()
    }
}

impl<S, Meta> Default for Systems<S, Meta> {
    fn default() -> (s: Systems<S, Meta>)
        ensures
            s.0@ == Seq::<(SystemEntry<S>, Meta)>::empty(),
    {
        Systems::new()
    }
}

} // verus!
