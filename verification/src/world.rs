use vstd::prelude::*;

use crate::access::{
    acquire, can_lock_spec, compatible, counts_fit, holdings_wf, law_acquire_keeps_counts,
    law_release_undoes_access, release, AccessMode, SystemLock,
    WorldAccess, WorldLocks,
};
use crate::commands::{commands, commands_effect, Command, CommandSender, CommandsReceiver};
use crate::meta::{SystemId, SystemsRw};
use crate::param::Param;
use crate::any_handle::{Handle, HandleMut};
use crate::resources::{ResourceId, Resources};
use crate::system::System;
use crate::gateway::{SystemDraft, SystemEntry};
use crate::schedule::{ScheduleConfigure, ScheduleLabel};

verus! {

#[derive(Clone, Copy, Debug, PartialEq, Eq, Structural)]
pub enum WorldSystemLockError {
    NotRegistered,
    InvalidAccess,
}

/// The locks of the registered systems and the resources they hold now.
pub struct SystemLocks {
    rw: WorldLocks,
    pub systems_rw: SystemsRw,
}

impl SystemLocks {
    /// What running systems hold now.
    pub closed spec fn held(&self) -> Map<u64, WorldAccess> {
        self.rw@
    }

    /// The registered systems' locks.
    pub closed spec fn rws(&self) -> SystemsRw {
        self.systems_rw
    }

    pub open spec fn wf(&self) -> bool {
        holdings_wf(self.held()) && self.rws().wf()
    }

    /// Locking system `id` cannot push a reader count past its maximum.
    pub open spec fn fits(&self, id: SystemId) -> bool {
        self.rws().registered(id) ==> counts_fit(self.held(), self.rws().lock_of(id)@)
    }

    /// Releasing system `id` gives back accesses the world holds the same way.
    pub open spec fn releasable(&self, id: SystemId) -> bool {
        self.rws().registered(id) ==> compatible(self.held(), self.rws().lock_of(id)@)
    }

    pub fn new() -> (locks: SystemLocks)
        ensures
            locks.wf(),
            locks.held() == Map::<u64, WorldAccess>::empty(),
            locks.rws().lock_seq() == Seq::<SystemLock>::empty(),
    {
        SystemLocks { rw: WorldLocks::new(), systems_rw: SystemsRw::new() }
    }

    /// Takes the accesses of system `id` when the world allows all of them.
    pub fn try_lock(&mut self, systemid: SystemId) -> (res: Result<(), WorldSystemLockError>)
        requires
            old(self).wf(),
            old(self).fits(systemid),
        ensures
            final(self).wf(),
            final(self).rws() == old(self).rws(),
            !old(self).rws().registered(systemid) ==> res == Err::<(), WorldSystemLockError>(
                WorldSystemLockError::NotRegistered,
            ) && final(self).held() == old(self).held(),
            old(self).rws().registered(systemid) ==> {
                let lock = old(self).rws().lock_of(systemid);
                if can_lock_spec(old(self).held(), lock@) {
                    res is Ok && final(self).held() == acquire(old(self).held(), lock@)
                } else {
                    res == Err::<(), WorldSystemLockError>(WorldSystemLockError::InvalidAccess)
                        && final(self).held() == old(self).held()
                }
            },
    {
        let rw = match self.systems_rw.get(systemid) {
            Some(rw) => rw,
            None => {
                return Err(WorldSystemLockError::NotRegistered);
            },
        };
        match self.rw.try_access(rw) {
            Ok(()) => Ok(()),
            Err(()) => Err(WorldSystemLockError::InvalidAccess),
        }
    }

    /// Gives back the accesses of system `id`; nothing happens for an
    /// unknown id.
    pub fn release(&mut self, systemid: SystemId)
        requires
            old(self).wf(),
            old(self).releasable(systemid),
        ensures
            final(self).wf(),
            final(self).rws() == old(self).rws(),
            old(self).rws().registered(systemid) ==> final(self).held() == release(
                old(self).held(),
                old(self).rws().lock_of(systemid)@,
            ),
            !old(self).rws().registered(systemid) ==> final(self).held() == old(self).held(),
    {
        let rw = match self.systems_rw.get(systemid) {
            Some(rw) => rw,
            None => {
                return ;
            },
        };
        self.rw.release_access(rw);
    }

    /// Takes the accesses of `rw` without checking them; the caller has
    /// checked that the world allows them.
    pub fn lock_rw(&mut self, rw: &SystemLock)
        requires
            old(self).wf(),
            rw.wf(),
            can_lock_spec(old(self).held(), rw@),
            counts_fit(old(self).held(), rw@),
        ensures
            final(self).wf(),
            final(self).rws() == old(self).rws(),
            final(self).held() == acquire(old(self).held(), rw@),
    {
        self.rw.do_access(rw);
    }

    pub fn can_lock_rw(&self, rw: &SystemLock) -> (b: bool)
        requires
            rw.wf(),
        ensures
            b == can_lock_spec(self.held(), rw@),
    {
        self.rw.can_lock(rw)
    }

    pub fn try_lock_rw(&mut self, rw: &SystemLock) -> (res: Result<(), WorldSystemLockError>)
        requires
            old(self).wf(),
            rw.wf(),
            counts_fit(old(self).held(), rw@),
        ensures
            final(self).wf(),
            final(self).rws() == old(self).rws(),
            can_lock_spec(old(self).held(), rw@) ==> res is Ok && final(self).held() == acquire(
                old(self).held(),
                rw@,
            ),
            !can_lock_spec(old(self).held(), rw@) ==> res == Err::<(), WorldSystemLockError>(
                WorldSystemLockError::InvalidAccess,
            ) && final(self).held() == old(self).held(),
    {
        match self.rw.try_access(rw) {
            Ok(()) => Ok(()),
            Err(()) => Err(WorldSystemLockError::InvalidAccess),
        }
    }

    pub fn release_rw(&mut self, rw: &SystemLock)
        requires
            old(self).wf(),
            rw.wf(),
            compatible(old(self).held(), rw@),
        ensures
            final(self).wf(),
            final(self).rws() == old(self).rws(),
            final(self).held() == release(old(self).held(), rw@),
    {
        self.rw.release_access(rw);
    }

    /// Whether `rw` can be given back: each of its resources that the world
    /// holds is held with the mode `rw` names.
    pub fn can_release_rw(&self, rw: &SystemLock) -> (b: bool)
        requires
            rw.wf(),
        ensures
            b == compatible(self.held(), rw@),
    {
        self.rw.can_release(rw)
    }

    /// No resource is held by any system.
    pub fn is_all_free(&self) -> (b: bool)
        ensures
            b == (self.held() == Map::<u64, WorldAccess>::empty()),
    {
        self.rw.is_clean()
    }
}

/// Releasing a system right after it was locked gives the world back the
/// holdings it had before the lock, reader counts included; the release is
/// allowed then.
pub proof fn law_release_undoes_try_lock(before: SystemLocks, locked: SystemLocks, id: SystemId)
    requires
        before.wf(),
        before.fits(id),
        before.rws().registered(id),
        can_lock_spec(before.held(), before.rws().lock_of(id)@),
        locked.rws() == before.rws(),
        locked.held() == acquire(before.held(), before.rws().lock_of(id)@),
    ensures
        locked.wf(),
        locked.releasable(id),
        release(locked.held(), locked.rws().lock_of(id)@) == before.held(),
{
    let a = before.rws().lock_of(id)@;
    assert(before.rws().lock_of(id).wf());
    law_release_undoes_access(before.held(), a);
    law_acquire_keeps_counts(before.held(), a);
}

/// Giving back an access set right after it was taken gives the world back
/// the holdings it had before, reader counts included; giving it back is
/// allowed then.
pub proof fn law_release_rw_undoes_try_lock_rw(before: SystemLocks, locked: SystemLocks, rw: SystemLock)
    requires
        before.wf(),
        rw.wf(),
        counts_fit(before.held(), rw@),
        can_lock_spec(before.held(), rw@),
        locked.rws() == before.rws(),
        locked.held() == acquire(before.held(), rw@),
    ensures
        locked.wf(),
        compatible(locked.held(), rw@),
        release(locked.held(), rw@) == before.held(),
{
    law_release_undoes_access(before.held(), rw@);
    law_acquire_keeps_counts(before.held(), rw@);
}

/// Taking a set of accesses that names at least one resource leaves the
/// world not all free; from an all-free world, giving them back makes it all
/// free again.
pub proof fn law_lock_makes_busy_until_release(before: SystemLocks, rw: SystemLock, k: u64)
    requires
        before.wf(),
        rw.wf(),
        rw@.contains_key(k),
        counts_fit(before.held(), rw@),
        can_lock_spec(before.held(), rw@),
    ensures
        acquire(before.held(), rw@) != Map::<u64, WorldAccess>::empty(),
        before.held() == Map::<u64, WorldAccess>::empty() ==> release(acquire(before.held(), rw@), rw@)
            == Map::<u64, WorldAccess>::empty(),
{
    assert(acquire(before.held(), rw@).contains_key(k));
    law_release_undoes_access(before.held(), rw@);
}

impl Default for SystemLocks {
    fn default() -> (locks: SystemLocks)
        ensures
            locks.wf(),
            locks.held() == Map::<u64, WorldAccess>::empty(),
            locks.rws().lock_seq() == Seq::<SystemLock>::empty(),
    {
        SystemLocks::new()
    }
}

/// The part of the world that systems share: its resources and the sending
/// end of its command queue.
pub struct WorldState<V> {
    pub resources: Resources<V>,
    pub commands_sx: CommandSender<V>,
}

impl<V> WorldState<V> {
    pub open spec fn wf(&self) -> bool {
        self.resources.wf()
    }

    /// Removes the resource stored under `id` and returns it.
    pub fn take_resource(&mut self, id: ResourceId) -> (r: Option<V>)
        requires
            old(self).wf(),
        ensures
            final(self).wf(),
            final(self).resources@ == old(self).resources@.remove(id.0),
            final(self).commands_sx == old(self).commands_sx,
            !old(self).resources@.contains_key(id.0) ==> r is None,
            r matches Some(v) ==> old(self).resources@.contains_key(id.0) && v == old(self).resources@[id.0],
    {
        self.resources.try_take(id)
    }
}

/// A world state handed to code that may take resources out of it.
pub struct UnsafeWorldState<V>(WorldState<V>);

impl<V> UnsafeWorldState<V> {
    pub closed spec fn state(&self) -> WorldState<V> {
        self.0
    }

    pub fn new(world_state: WorldState<V>) -> (s: UnsafeWorldState<V>)
        ensures
            s.state() == world_state,
    {
        UnsafeWorldState(world_state)
    }

    pub fn as_world_state(&mut self) -> (r: &mut WorldState<V>)
        ensures
            *r == old(self).state(),
            final(self).state() == *final(r),
    {
        &mut self.0
    }

    pub fn get_state(&self) -> (r: &WorldState<V>)
        ensures
            *r == self.state(),
    {
        &self.0
    }

    /// A shared read handle on the resource stored under `id`.
    pub fn resource_handle(&self, id: ResourceId) -> (r: Option<Handle<V>>)
        requires
            self.state().wf(),
        ensures
            match r {
                Some(h) => self.state().resources@.contains_key(id.0) && h.spec_value()
                    == self.state().resources@[id.0],
                None => !self.state().resources@.contains_key(id.0),
            },
    {
        self.0.resources.handle(id)
    }

    /// The resource stored under `id`.
    pub fn get_resource(&self, id: ResourceId) -> (r: Option<&V>)
        requires
            self.state().wf(),
        ensures
            match r {
                Some(v) => self.state().resources@.contains_key(id.0) && *v
                    == self.state().resources@[id.0],
                None => !self.state().resources@.contains_key(id.0),
            },
    {
        match self.0.resources.handle_ref(id) {
            Some(h) => Some(h.get()),
            None => None,
        }
    }

    /// The exclusive write handle on the resource stored under `id`, while no
    /// read handle on it is alive.
    pub fn resource_handle_mut(&mut self, id: ResourceId) -> (r: Option<HandleMut<'_, V>>)
        requires
            old(self).state().wf(),
        ensures
            !old(self).state().resources@.contains_key(id.0) ==> r is None,
            match r {
                Some(h) => old(self).state().resources@.contains_key(id.0) && *h.0
                    == old(self).state().resources@[id.0] && final(self).state().wf()
                    && final(self).state().resources@ == old(self).state().resources@.insert(
                    id.0,
                    *final(h.0),
                ),
                None => final(self).state().resources@ == old(self).state().resources@
                    && final(self).state().wf(),
            },
            final(self).state().commands_sx == old(self).state().commands_sx,
    {
        self.0.resources.handle_mut(id)
    }
}

/// A world state through which resources may be taken out.
pub struct UnsafeMutState<V>(UnsafeWorldState<V>);

impl<V> UnsafeMutState<V> {
    pub closed spec fn state(&self) -> WorldState<V> {
        self.0.state()
    }

    pub fn new(state: UnsafeWorldState<V>) -> (s: UnsafeMutState<V>)
        ensures
            s.state() == state.state(),
    {
        UnsafeMutState(state)
    }

    pub fn try_take_resource(&mut self, id: ResourceId) -> (r: Option<V>)
        requires
            old(self).state().wf(),
        ensures
            final(self).state().wf(),
            final(self).state().resources@ == old(self).state().resources@.remove(id.0),
            !old(self).state().resources@.contains_key(id.0) ==> r is None,
            r matches Some(v) ==> old(self).state().resources@.contains_key(id.0) && v == old(self).state().resources@[id.0],
    {
        self.0.as_world_state().take_resource(id)
    }

    /// Stores `value` as resource `id`, replacing any earlier one.
    pub fn insert_resource(&mut self, id: ResourceId, value: V)
        requires
            old(self).state().wf(),
        ensures
            final(self).state().wf(),
            final(self).state().resources@ == old(self).state().resources@.insert(id.0, value),
            final(self).state().commands_sx == old(self).state().commands_sx,
    {
        self.0.as_world_state().resources.insert(id, value);
    }

    pub fn as_read(&self) -> (r: &UnsafeWorldState<V>)
        ensures
            r.state() == self.state(),
    {
        &self.0
    }
}

/// The part of the world that only its driver touches: the receiving end of
/// the command queue and the locks of the registered systems.
pub struct WorldCenter {
    pub commands_rx: CommandsReceiver,
    pub system_locks: SystemLocks,
}

impl WorldCenter {
    pub open spec fn wf(&self) -> bool {
        self.system_locks.wf()
    }

    /// Applies every pending command to the world's resources, oldest first.
    pub fn tick_commands<V>(&mut self, state: &mut WorldState<V>)
        requires
            old(state).wf(),
        ensures
            final(state).wf(),
            final(state).resources@ == commands_effect(
                old(state).resources@,
                old(state).commands_sx.pending(),
            ),
            final(state).commands_sx.pending() == Seq::<Command<V>>::empty(),
            final(self).system_locks == old(self).system_locks,
    {
        let mut received = self.commands_rx.recv(&mut state.commands_sx);
        let ghost cmds = received@;
        let ghost r0 = state.resources@;
        let mut n: usize = 0;
        assert(received.len() == cmds.len());
        proof {
            assert(cmds.subrange(0, cmds.len() as int) =~= cmds);
            assert(cmds.take(0) =~= Seq::<Command<V>>::empty());
        }
        while received.len() > 0
            invariant
                state.wf(),
                n <= cmds.len(),
                cmds.len() <= usize::MAX,
                received@ == cmds.subrange(n as int, cmds.len() as int),
                state.resources@ == commands_effect(r0, cmds.take(n as int)),
                state.commands_sx.pending() == Seq::<Command<V>>::empty(),
            decreases received.len(),
        {
            let c = received.remove(0);
            proof {
                assert(cmds[n as int] == c);
                assert(cmds.take(n + 1).drop_last() =~= cmds.take(n as int));
                assert(received@ =~= cmds.subrange(n + 1, cmds.len() as int));
            }
            c.apply(&mut state.resources);
            n = n + 1;
        }
        proof {
            assert(cmds.take(n as int) =~= cmds);
        }
    }

    /// Registers the accesses of `system` and returns its id.
    pub fn register_system_rw<S: System>(&mut self, system: &S) -> (id: SystemId)
        requires
            old(self).wf(),
            system.spec_init_ok(Seq::empty()),
        ensures
            final(self).wf(),
            id.0 == old(self).system_locks.rws().lock_seq().len(),
            final(self).system_locks.held() == old(self).system_locks.held(),
            final(self).system_locks.rws().lock_seq().len() == old(self).system_locks.rws().lock_seq().len() + 1,
            final(self).system_locks.rws().lock_of(id).entry_seq() == system.spec_registered(
                Seq::empty(),
            ),
            forall|i: int|
                0 <= i < old(self).system_locks.rws().lock_seq().len() ==> final(self).system_locks.rws().lock_seq()[i] == old(self).system_locks.rws().lock_seq()[i],
    {
        let mut rw = SystemLock::new();
        system.init(&mut rw);
        self.system_locks.systems_rw.add(rw)
    }
}

impl WorldCenter {
    /// Registers the accesses of `system` and pairs it with its new id.
    pub fn register_system<S: System>(&mut self, system: S) -> (e: SystemEntry<S>)
        requires
            old(self).wf(),
            system.spec_init_ok(Seq::empty()),
        ensures
            final(self).wf(),
            e.system == system,
            e.id.0 == old(self).system_locks.rws().lock_seq().len(),
            final(self).system_locks.held() == old(self).system_locks.held(),
            final(self).system_locks.rws().lock_of(e.id).entry_seq() == system.spec_registered(
                Seq::empty(),
            ),
            final(self).system_locks.rws().lock_seq().len() == old(self).system_locks.rws().lock_seq().len() + 1,
            forall|i: int|
                0 <= i < old(self).system_locks.rws().lock_seq().len() ==> final(self).system_locks.rws().lock_seq()[i] == old(self).system_locks.rws().lock_seq()[i],
    {
        let id = self.register_system_rw(&system);
        SystemEntry::new(id, system)
    }

    /// Registers the accesses a draft already computed.
    pub fn register_draft<S: System>(&mut self, draft: SystemDraft<S>) -> (e: SystemEntry<S>)
        requires
            old(self).wf(),
            draft.locks.wf(),
        ensures
            final(self).wf(),
            e.system == draft.system,
            e.id.0 == old(self).system_locks.rws().lock_seq().len(),
            final(self).system_locks.held() == old(self).system_locks.held(),
            final(self).system_locks.rws().lock_seq() == old(self).system_locks.rws().lock_seq().push(draft.locks),
    {
        let id = self.system_locks.systems_rw.add(draft.locks);
        SystemEntry::new(id, draft.system)
    }
}

/// Registering two systems one after the other gives them different ids, and
/// the second registration keeps the lock of the first.
pub proof fn law_registrations_get_distinct_ids(
    r0: Seq<SystemLock>,
    r1: Seq<SystemLock>,
    r2: Seq<SystemLock>,
    first: SystemId,
    second: SystemId,
)
    requires
        first.0 == r0.len(),
        r1.len() == r0.len() + 1,
        second.0 == r1.len(),
        r2.len() == r1.len() + 1,
        forall|i: int| 0 <= i < r1.len() ==> r2[i] == r1[i],
    ensures
        first != second,
        first.0 < r1.len(),
        second.0 < r2.len(),
        r2[first.0 as int] == r1[first.0 as int],
{
}

/// A world: shared state plus the driver's center.
pub struct World<V> {
    pub state: WorldState<V>,
    pub center: WorldCenter,
}

impl<V> World<V> {
    pub open spec fn wf(&self) -> bool {
        self.state.wf() && self.center.wf()
    }

    pub fn new() -> (w: World<V>)
        ensures
            w.wf(),
            w.state.resources@ == Map::<u64, V>::empty(),
            w.state.commands_sx.pending() == Seq::<Command<V>>::empty(),
            w.center.system_locks.held() == Map::<u64, WorldAccess>::empty(),
            w.center.system_locks.rws().lock_seq() == Seq::<SystemLock>::empty(),
    {
        let (sender, receiver) = commands();
        World {
            center: WorldCenter { system_locks: SystemLocks::new(), commands_rx: receiver },
            state: WorldState { resources: Resources::new(), commands_sx: sender },
        }
    }

    /// Registers the accesses of `system` and returns its id.
    pub fn register_system_ref<S: System>(&mut self, system: &S) -> (id: SystemId)
        requires
            old(self).wf(),
            system.spec_init_ok(Seq::empty()),
        ensures
            final(self).wf(),
            final(self).state == old(self).state,
            id.0 == old(self).center.system_locks.rws().lock_seq().len(),
            final(self).center.system_locks.held() == old(self).center.system_locks.held(),
            final(self).center.system_locks.rws().lock_of(id).entry_seq()
                == system.spec_registered(Seq::empty()),
            final(self).center.system_locks.rws().lock_seq().len() == old(self).center.system_locks.rws().lock_seq().len() + 1,
            forall|i: int|
                0 <= i < old(self).center.system_locks.rws().lock_seq().len() ==> final(self).center.system_locks.rws().lock_seq()[i] == old(self).center.system_locks.rws().lock_seq()[i],
    {
        self.center.register_system_rw(system)
    }

    /// Registers the accesses of `system` and pairs it with its new id.
    pub fn register_system<S: System>(&mut self, system: S) -> (e: SystemEntry<S>)
        requires
            old(self).wf(),
            system.spec_init_ok(Seq::empty()),
        ensures
            final(self).wf(),
            final(self).state == old(self).state,
            e.system == system,
            e.id.0 == old(self).center.system_locks.rws().lock_seq().len(),
            final(self).center.system_locks.held() == old(self).center.system_locks.held(),
            final(self).center.system_locks.rws().lock_of(e.id).entry_seq()
                == system.spec_registered(Seq::empty()),
            final(self).center.system_locks.rws().lock_seq().len() == old(self).center.system_locks.rws().lock_seq().len() + 1,
            forall|i: int|
                0 <= i < old(self).center.system_locks.rws().lock_seq().len() ==> final(self).center.system_locks.rws().lock_seq()[i] == old(self).center.system_locks.rws().lock_seq()[i],
    {
        let id = self.center.register_system_rw(&system);
        SystemEntry::new(id, system)
    }

    /// The world's state, for parameters whose accesses may be taken now.
    pub fn get<P: Param>(&mut self) -> (r: &mut WorldState<V>)
        requires
            P::init_ok(Seq::empty()),
            can_lock_spec(old(self).center.system_locks.held(), seq_lock_view(
                P::registered(Seq::empty()),
            )),
        ensures
            *r == old(self).state,
    {
        self.get_and_center::<P>().0
    }

    pub fn into_parts(self) -> (r: (WorldState<V>, WorldCenter))
        ensures
            r.0 == self.state,
            r.1 == self.center,
    {
        (self.state, self.center)
    }

    /// The world's state and center when the accesses that `P` declares may
    /// be taken now.
    pub fn try_get_and_center<P: Param>(&mut self) -> (r: Option<(&mut WorldState<V>, &mut WorldCenter)>)
        requires
            P::init_ok(Seq::empty()),
        ensures
            r is Some <==> can_lock_spec(old(self).center.system_locks.held(), seq_lock_view(
                P::registered(Seq::empty()),
            )),
    {
        let mut system_locks = SystemLock::new();
        P::init(&mut system_locks);
        if !self.center.system_locks.can_lock_rw(&system_locks) {
            return None;
        }
        Some((&mut self.state, &mut self.center))
    }

    /// Like [`World::try_get_and_center`], for parameters the caller knows
    /// may be taken.
    pub fn get_and_center<P: Param>(&mut self) -> (r: (&mut WorldState<V>, &mut WorldCenter))
        requires
            P::init_ok(Seq::empty()),
            can_lock_spec(old(self).center.system_locks.held(), seq_lock_view(
                P::registered(Seq::empty()),
            )),
        ensures
            *r.0 == old(self).state,
            *r.1 == old(self).center,
    {
        let mut system_locks = SystemLock::new();
        P::init(&mut system_locks);
        let allowed = self.center.system_locks.can_lock_rw(&system_locks);
        assert(allowed);
        (&mut self.state, &mut self.center)
    }
}

/// Something that holds a world and can be configured through it.
pub trait ConfigureWorld<V>: Sized {
    /// The world held.
    spec fn spec_world(&self) -> World<V>;

    fn world_mut(&mut self) -> (r: &mut World<V>)
        ensures
            *r == old(self).spec_world(),
            final(self).spec_world() == *final(r),
    ;

    fn world(&self) -> (r: &World<V>)
        ensures
            *r == self.spec_world(),
    ;

    /// Stores `value` as resource `id`, replacing any earlier one.
    fn insert_resource(self, id: ResourceId, value: V) -> (r: Self)
        requires
            self.spec_world().wf(),
        ensures
            r.spec_world().wf(),
            r.spec_world().state.resources@ == self.spec_world().state.resources@.insert(id.0, value),
            r.spec_world().center == self.spec_world().center,
    {
        let mut this = self;
        let world = this.world_mut();
        world.state.resources.insert(id, value);
        this
    }

    /// Stores the default value as resource `id`, replacing any earlier one.
    fn init_resource(self, id: ResourceId) -> (r: Self) where V: Default
        requires
            self.spec_world().wf(),
        ensures
            r.spec_world().wf(),
            r.spec_world().state.resources@.dom() == self.spec_world().state.resources@.dom().insert(
                id.0,
            ),
            forall|k: u64|
                k != id.0 && self.spec_world().state.resources@.contains_key(k) ==> r.spec_world().state.resources@[k]
                    == self.spec_world().state.resources@[k],
            r.spec_world().center == self.spec_world().center,
    {
        let mut this = self;
        let world = this.world_mut();
        world.state.resources.init(id);
        this
    }

    /// Adds `thing` to `schedule`, which decides what that means for the
    /// world.
    fn add_systems<Sch: ScheduleLabel + ScheduleConfigure<T, V>, T>(self, schedule: Sch, thing: T) -> (r: Self)
        ensures
            schedule.spec_adds(self.spec_world(), thing, r.spec_world()),
    {
        let mut this = self;
        let world = this.world_mut();
        schedule.add(world, thing);
        this
    }
}

impl<V> ConfigureWorld<V> for World<V> {
    open spec fn spec_world(&self) -> World<V> {
        *self
    }

    fn world_mut(&mut self) -> (r: &mut World<V>) {
        self
    }

    fn world(&self) -> (r: &World<V>) {
        self
    }
}

/// The resource map that an access list describes.
pub open spec fn seq_lock_view(s: Seq<(ResourceId, AccessMode)>) -> Map<u64, AccessMode> {
    crate::access::seq_map(s)
}

impl<V> Default for World<V> {
    fn default() -> (w: World<V>)
        ensures
            w.wf(),
            w.state.resources@ == Map::<u64, V>::empty(),
            w.center.system_locks.held() == Map::<u64, WorldAccess>::empty(),
    {
        World::new()
    }
}

} // verus!
