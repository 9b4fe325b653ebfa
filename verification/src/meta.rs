use vstd::prelude::*;

use crate::access::SystemLock;

verus! {

/// Identifies a system registered in a world: the position of its lock in
/// [`SystemsRw`].
#[derive(Clone, Copy, Debug, PartialEq, Eq, Structural, Hash)]
pub struct SystemId(pub usize);

/// The locks of every registered system, indexed by [`SystemId`].
pub struct SystemsRw {
    locks: Vec<SystemLock>,
}

impl SystemsRw {
    pub closed spec fn lock_seq(&self) -> Seq<SystemLock> {
        self.locks@
    }

    pub open spec fn wf(&self) -> bool {
        forall|i: int| 0 <= i < self.lock_seq().len() ==> (#[trigger] self.lock_seq()[i]).wf()
    }

    /// `id` was handed out by this registry.
    pub open spec fn registered(&self, id: SystemId) -> bool {
        id.0 < self.lock_seq().len()
    }

    pub open spec fn lock_of(&self, id: SystemId) -> SystemLock {
        self.lock_seq()[id.0 as int]
    }

    pub fn new() -> (rw: SystemsRw)
        ensures
            rw.wf(),
            rw.lock_seq() == Seq::<SystemLock>::empty(),
    {
        SystemsRw { locks: Vec::new() }
    }

    /// Registers a lock and returns the id of the new system.
    pub fn add(&mut self, lock: SystemLock) -> (id: SystemId)
        requires
            old(self).wf(),
            lock.wf(),
        ensures
            final(self).wf(),
            id.0 == old(self).lock_seq().len(),
            final(self).lock_seq() == old(self).lock_seq().push(lock),
    {
        let id = SystemId(self.locks.len());
        self.locks.push(lock);
        proof {
            assert forall|i: int| 0 <= i < self.lock_seq().len() implies (
            #[trigger] self.lock_seq()[i]).wf() by {
                if i < old(self).lock_seq().len() {
                    assert(self.lock_seq()[i] == old(self).lock_seq()[i]);
                }
            }
        }
        id
    }

    pub fn get(&self, id: SystemId) -> (res: Option<&SystemLock>)
        ensures
            match res {
                Some(lock) => self.registered(id) && *lock == self.lock_of(id),
                None => !self.registered(id),
            },
    {
        if id.0 < self.locks.len() {
            Some(&self.locks[id.0])
        } else {
            None
        }
    }

    pub fn len(&self) -> (n: usize)
        ensures
            n == self.lock_seq().len(),
    {
        self.locks.len()
    }
}

impl Default for SystemsRw {
    fn default() -> (rw: SystemsRw)
        ensures
            rw.wf(),
            rw.lock_seq() == Seq::<SystemLock>::empty(),
    {
        SystemsRw::new()
    }
}

} // verus!
