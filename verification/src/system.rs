use std::marker::PhantomData;

use vstd::prelude::*;

use crate::access::{AccessMode, SystemLock};
use crate::param::Param;
use crate::resources::ResourceId;

verus! {

/// The input a system is run with.
pub trait SystemInput {
}

impl SystemInput for () {
}

/// An owned input.
pub struct In<T>(pub T);

impl<T> SystemInput for In<T> {
}

impl<T> In<T> {
    pub fn get(&self) -> (r: &T)
        ensures
            *r == self.0,
    {
        &self.0
    }
}

/// A borrowed input.
pub struct InRef<'i, I>(pub &'i I);

impl<'i, I> SystemInput for InRef<'i, I> {
}

impl<'i, I> InRef<'i, I> {
    pub fn get(&self) -> (r: &I)
        ensures
            *r == *self.0,
    {
        self.0
    }
}

/// A unit of work that declares the resources it uses.
pub trait System {
    /// Registering this system's accesses on a lock with accesses `s` does
    /// not clash.
    spec fn spec_init_ok(&self, s: Seq<(ResourceId, AccessMode)>) -> bool;

    /// The accesses after registering this system's on accesses `s`.
    spec fn spec_registered(&self, s: Seq<(ResourceId, AccessMode)>) -> Seq<(ResourceId, AccessMode)>;

    fn init(&self, rw: &mut SystemLock)
        requires
            old(rw).wf(),
            self.spec_init_ok(old(rw).entry_seq()),
        ensures
            final(rw).wf(),
            final(rw).entry_seq() == self.spec_registered(old(rw).entry_seq()),
    ;
}

/// A system made of a function and the parameters it takes.
pub struct FunctionSystem<P, F> {
    pub func: F,
    pub marker: PhantomData<P>,
}

impl<P: Param, F> FunctionSystem<P, F> {
    pub fn new(func: F) -> (s: FunctionSystem<P, F>)
        ensures
            s.func == func,
    {
        FunctionSystem { func, marker: PhantomData }
    }
}

impl<P: Param, F> System for FunctionSystem<P, F> {
    open spec fn spec_init_ok(&self, s: Seq<(ResourceId, AccessMode)>) -> bool {
        P::init_ok(s)
    }

    open spec fn spec_registered(&self, s: Seq<(ResourceId, AccessMode)>) -> Seq<(ResourceId, AccessMode)> {
        P::registered(s)
    }

    fn init(&self, rw: &mut SystemLock) {
        P::init(rw);
    }
}

/// A system whose output goes through `func`; it takes the accesses of the
/// system it wraps.
pub struct MapSystem<F, S> {
    pub func: F,
    pub system: S,
}

impl<F, S: System> System for MapSystem<F, S> {
    open spec fn spec_init_ok(&self, s: Seq<(ResourceId, AccessMode)>) -> bool {
        self.system.spec_init_ok(s)
    }

    open spec fn spec_registered(&self, s: Seq<(ResourceId, AccessMode)>) -> Seq<(ResourceId, AccessMode)> {
        self.system.spec_registered(s)
    }

    fn init(&self, rw: &mut SystemLock) {
        self.system.init(rw);
    }
}

/// The pieces of a [`MapSystem`] before it is built.
pub struct IntoMapSystem<F, S> {
    pub func: F,
    pub system: S,
}

impl<F, S> IntoMapSystem<F, S> {
    pub fn into_system(self) -> (r: MapSystem<F, S>)
        ensures
            r.func == self.func,
            r.system == self.system,
    {
        MapSystem { func: self.func, system: self.system }
    }
}

/// A system whose input first goes through `func`, which may refuse it; it
/// takes the accesses of the system it wraps.
pub struct InputAdapterSystem<F, S> {
    pub func: F,
    pub system: S,
}

impl<F, S: System> System for InputAdapterSystem<F, S> {
    open spec fn spec_init_ok(&self, s: Seq<(ResourceId, AccessMode)>) -> bool {
        self.system.spec_init_ok(s)
    }

    open spec fn spec_registered(&self, s: Seq<(ResourceId, AccessMode)>) -> Seq<(ResourceId, AccessMode)> {
        self.system.spec_registered(s)
    }

    fn init(&self, rw: &mut SystemLock) {
        self.system.init(rw);
    }
}

} // verus!
