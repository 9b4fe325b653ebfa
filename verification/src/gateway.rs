use vstd::prelude::*;

use crate::access::{can_lock_spec, SystemLock};
use crate::meta::SystemId;
use crate::param::Param;
use crate::system::System;
use crate::world::{seq_lock_view, SystemLocks, WorldState, WorldSystemLockError};

verus! {

/// A borrowed system together with its id.
pub struct SystemEntryRef<'s, S> {
    pub system: &'s S,
    pub id: SystemId,
}

impl<'s, S> SystemEntryRef<'s, S> {
    pub fn new(id: SystemId, system: &'s S) -> (e: SystemEntryRef<'s, S>)
        ensures
            e.id == id,
            *e.system == *system,
    {
        SystemEntryRef { system, id }
    }
}

/// A registered system kept to be run as a task.
pub type TaskSystemEntry<S> = SystemEntry<S>;

/// A system together with the id its accesses were registered under.
pub struct SystemEntry<S> {
    pub system: S,
    pub id: SystemId,
}

impl<S> SystemEntry<S> {
    pub fn new(id: SystemId, system: S) -> (e: SystemEntry<S>)
        ensures
            e.id == id,
            e.system == system,
    {
        SystemEntry { system, id }
    }

    pub fn entry_ref(&self) -> (r: SystemEntryRef<'_, S>)
        ensures
            r.id == self.id,
            *r.system == self.system,
    {
        SystemEntryRef { system: &self.system, id: self.id }
    }
}

/// A system with its accesses computed but not yet registered.
pub struct SystemDraft<S> {
    pub system: S,
    pub locks: SystemLock,
}

impl<S: System> SystemDraft<S> {
    pub fn new(system: S) -> (d: SystemDraft<S>)
        requires
            system.spec_init_ok(Seq::empty()),
        ensures
            d.system == system,
            d.locks.wf(),
            d.locks.entry_seq() == system.spec_registered(Seq::empty()),
    {
        let mut locks = SystemLock::new();
        system.init(&mut locks);
        SystemDraft { system, locks }
    }
}

/// The accesses a parameter needs, computed once.
pub struct ParamGetter {
    pub lock: SystemLock,
}

impl ParamGetter {
    pub fn new<P: Param>() -> (g: ParamGetter)
        requires
            P::init_ok(Seq::empty()),
        ensures
            g.lock.wf(),
            g.lock.entry_seq() == P::registered(Seq::empty()),
    {
        let mut lock = SystemLock::new();
        P::init(&mut lock);
        ParamGetter { lock }
    }
}

/// Shared world state with the world's locks, lent to a running driver.
pub struct WorldBorrowMut<'w, V> {
    pub state: &'w WorldState<V>,
    pub locks: &'w mut SystemLocks,
}

impl<'w, V> WorldBorrowMut<'w, V> {
    pub fn new(state: &'w WorldState<V>, locks: &'w mut SystemLocks) -> (b: WorldBorrowMut<'w, V>)
        ensures
            *b.state == *state,
            *b.locks == *old(locks),
    {
        WorldBorrowMut { state, locks }
    }

    pub fn reborrow(&mut self) -> (b: WorldBorrowMut<'_, V>)
        ensures
            *b.state == *old(self).state,
            *b.locks == *old(self).locks,
    {
        WorldBorrowMut { state: self.state, locks: &mut *self.locks }
    }

    /// The shared state, when the accesses that `P` declares may be taken.
    pub fn get<P: Param>(&self) -> (r: Option<&WorldState<V>>)
        requires
            P::init_ok(Seq::empty()),
        ensures
            r is Some <==> can_lock_spec(
                old(self.locks).held(),
                seq_lock_view(P::registered(Seq::empty())),
            ),
            r matches Some(s) ==> *s == *self.state,
    {
        let getter = ParamGetter::new::<P>();
        self.get_dyn(&getter)
    }

    /// The shared state, when the accesses of `getter` may be taken.
    pub fn get_dyn(&self, getter: &ParamGetter) -> (r: Option<&WorldState<V>>)
        requires
            getter.lock.wf(),
        ensures
            r is Some <==> can_lock_spec(old(self.locks).held(), getter.lock@),
            r matches Some(s) ==> *s == *self.state,
    {
        if !self.locks.can_lock_rw(&getter.lock) {
            return None;
        }
        Some(self.state)
    }

    /// Gives back the accesses of system `system_id`.
    pub fn release(&mut self, system_id: SystemId)
        requires
            old(self).locks.wf(),
            old(self).locks.releasable(system_id),
        ensures
            final(self).locks.wf(),
            final(self).locks.rws() == old(self).locks.rws(),
            *final(self).state == *old(self).state,
            old(self).locks.rws().registered(system_id) ==> final(self).locks.held() == crate::access::release(
                old(self).locks.held(),
                old(self).locks.rws().lock_of(system_id)@,
            ),
            !old(self).locks.rws().registered(system_id) ==> final(self).locks.held() == old(self).locks.held(),
    {
        self.locks.release(system_id);
    }
}

/// Exclusive world state with the world's locks.
pub struct WorldMut<'w, V> {
    pub state: &'w mut WorldState<V>,
    pub locks: &'w mut SystemLocks,
}

impl<'w, V> WorldMut<'w, V> {
    pub fn new(state: &'w mut WorldState<V>, locks: &'w mut SystemLocks) -> (w: WorldMut<'w, V>)
        ensures
            *w.state == *old(state),
            *w.locks == *old(locks),
    {
        WorldMut { state, locks }
    }

    pub fn reborrow(&mut self) -> (w: WorldMut<'_, V>)
        ensures
            *w.state == *old(self).state,
            *w.locks == *old(self).locks,
    {
        WorldMut { state: &mut *self.state, locks: &mut *self.locks }
    }

    /// Another handle on the same world state and locks, for as long as this
    /// one is borrowed.
    pub fn duplicate(&mut self) -> (w: WorldMut<'_, V>)
        ensures
            *w.state == *old(self).state,
            *w.locks == *old(self).locks,
            *final(self).state == *final(w.state),
            *final(self).locks == *final(w.locks),
    {
        WorldMut { state: &mut *self.state, locks: &mut *self.locks }
    }

    /// Locks the accesses of `system`, when the world allows them, and hands
    /// out the permit to run it.
    pub fn reserve<'a, S>(&'a mut self, system: SystemEntryRef<'a, S>) -> (res: Result<
        SystemPermit<'a, S, V>,
        WorldSystemLockError,
    >)
        requires
            old(self).locks.wf(),
            old(self).locks.fits(system.id),
        ensures
            res is Ok <==> old(self).locks.rws().registered(system.id) && can_lock_spec(
                old(self).locks.held(),
                old(self).locks.rws().lock_of(system.id)@,
            ),
            res matches Err(e) ==> (e == WorldSystemLockError::NotRegistered <==> !old(self).locks.rws().registered(system.id)),
            res matches Err(_) ==> final(self).locks.held() == old(self).locks.held()
                && final(self).locks.rws() == old(self).locks.rws(),
            res matches Ok(p) ==> p.system.id == system.id && *p.system.system == *system.system
                && p.world.locks.held() == crate::access::acquire(
                old(self).locks.held(),
                old(self).locks.rws().lock_of(system.id)@,
            ) && p.world.locks.rws() == old(self).locks.rws() && p.world.locks.wf()
                && *p.world.state == *old(self).state,
    {
        match self.locks.try_lock(system.id) {
            Ok(()) => {},
            Err(e) => {
                return Err(e);
            },
        }
        Ok(SystemPermit { world: self.reborrow(), system })
    }

    /// The world state, when the accesses that `P` declares may be taken now.
    pub fn get<P: Param>(&self) -> (r: Option<&WorldState<V>>)
        requires
            P::init_ok(Seq::empty()),
        ensures
            r is Some <==> can_lock_spec(old(self.locks).held(), seq_lock_view(P::registered(Seq::empty()))),
            r matches Some(s) ==> *s == *old(self.state),
    {
        let getter = ParamGetter::new::<P>();
        if !self.locks.can_lock_rw(&getter.lock) {
            return None;
        }
        Some(&*self.state)
    }

    /// Gives back the accesses of system `system_id`.
    pub fn release(&mut self, system_id: SystemId)
        requires
            old(self).locks.wf(),
            old(self).locks.releasable(system_id),
        ensures
            final(self).locks.wf(),
            final(self).locks.rws() == old(self).locks.rws(),
            *final(self).state == *old(self).state,
            old(self).locks.rws().registered(system_id) ==> final(self).locks.held() == crate::access::release(
                old(self).locks.held(),
                old(self).locks.rws().lock_of(system_id)@,
            ),
            !old(self).locks.rws().registered(system_id) ==> final(self).locks.held() == old(self).locks.held(),
    {
        self.locks.release(system_id);
    }

    pub fn as_borrow(&mut self) -> (b: WorldBorrowMut<'_, V>)
        ensures
            *b.state == *old(self).state,
            *b.locks == *old(self).locks,
    {
        WorldBorrowMut { state: &*self.state, locks: &mut *self.locks }
    }
}

/// Permission to run a system whose accesses are locked.
pub struct SystemPermit<'w, S, V> {
    pub world: WorldMut<'w, V>,
    pub system: SystemEntryRef<'w, S>,
}

impl<'w, S, V> SystemPermit<'w, S, V> {
    pub fn local_tasks(self) -> (t: OwnedLocalTasks<'w, S, V>)
        ensures
            t.0.system.id == self.system.id,
    {
        OwnedLocalTasks(self)
    }

    pub fn local_blocking(self) -> (b: OwnedLocalBlocking<'w, S, V>)
        ensures
            b.0.system.id == self.system.id,
    {
        OwnedLocalBlocking(self)
    }
}

/// A permit used to run the system as a task.
pub struct OwnedLocalTasks<'w, S, V>(pub SystemPermit<'w, S, V>);

/// A permit used to run the system on the current thread.
pub struct OwnedLocalBlocking<'w, S, V>(pub SystemPermit<'w, S, V>);

} // verus!
