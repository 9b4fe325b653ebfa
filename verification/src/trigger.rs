use vstd::prelude::*;

use crate::access::acquire;
use crate::meta::SystemId;
use crate::world::SystemLocks;

verus! {

/// A value that triggers a handler system when it is sent.
pub trait Event {}

/// The schedule of event handlers.
pub struct Events;

/// A spawned task ended without giving its output.
#[derive(Clone, Copy, Debug, PartialEq, Eq, Structural)]
pub struct FutSpawnError;

/// Runs the handler of events of type `T`, one event at a time: an event
/// waits while the handler's accesses are taken by others.
pub struct LumpTriggerRuntime<T> {
    pending: Option<T>,
    handler: SystemId,
}

impl<T> LumpTriggerRuntime<T> {
    /// The event that waits for its handler to run.
    pub closed spec fn spec_pending(&self) -> Option<T> {
        self.pending
    }

    /// The handler system's id.
    pub closed spec fn spec_handler(&self) -> SystemId {
        self.handler
    }

    pub fn new(handler: SystemId) -> (r: LumpTriggerRuntime<T>)
        ensures
            r.spec_pending() is None,
            r.spec_handler() == handler,
    {
        LumpTriggerRuntime { pending: None, handler }
    }

    /// Whether the next round has to wait for an event: only when none is
    /// pending.
    pub fn waits_for_event(&self) -> (b: bool)
        ensures
            b == self.spec_pending() is None,
    {
        self.pending.is_none()
    }

    /// An event arrived.
    pub fn receive(&mut self, event: T)
        requires
            old(self).spec_pending() is None,
        ensures
            final(self).spec_pending() == Some(event),
            final(self).spec_handler() == old(self).spec_handler(),
    {
        self.pending = Some(event);
    }

    /// Hands out the pending event to run, with the handler's accesses taken;
    /// when they cannot be taken the event stays pending.
    pub fn act(&mut self, locks: &mut SystemLocks) -> (r: Option<T>)
        requires
            old(locks).wf(),
            old(locks).fits(old(self).spec_handler()),
        ensures
            final(locks).wf(),
            final(locks).rws() == old(locks).rws(),
            final(self).spec_handler() == old(self).spec_handler(),
            match old(self).spec_pending() {
                None => r is None && final(self).spec_pending() is None && final(locks).held()
                    == old(locks).held(),
                Some(e) => {
                    let id = old(self).spec_handler();
                    if old(locks).rws().registered(id) && crate::access::can_lock_spec(
                        old(locks).held(),
                        old(locks).rws().lock_of(id)@,
                    ) {
                        r == Some(e) && final(self).spec_pending() is None && final(locks).held()
                            == acquire(old(locks).held(), old(locks).rws().lock_of(id)@)
                    } else {
                        r is None && final(self).spec_pending() == Some(e) && final(locks).held()
                            == old(locks).held()
                    }
                },
            },
    {
        let event = match self.pending.take() {
            Some(event) => event,
            None => {
                return None;
            },
        };
        match locks.try_lock(self.handler) {
            Ok(()) => Some(event),
            Err(_) => {
                self.pending = Some(event);
                None
            },
        }
    }
}

} // verus!
