use vstd::prelude::*;

use crate::access::{seq_map, AccessMode, SystemLock};
use crate::resources::{Resource, ResourceId};
use crate::world::WorldState;

verus! {

/// Registering `id` with mode `m` is allowed: the lock does not already take
/// it with the other mode.
pub open spec fn may_register(s: Seq<(ResourceId, AccessMode)>, id: ResourceId, m: AccessMode) -> bool {
    !(seq_map(s).contains_key(id.0) && seq_map(s)[id.0] != m)
}

/// The accesses after registering `id` with mode `m`.
pub open spec fn register_seq(s: Seq<(ResourceId, AccessMode)>, id: ResourceId, m: AccessMode) -> Seq<
    (ResourceId, AccessMode),
> {
    if seq_map(s).contains_key(id.0) {
        s
    } else {
        s.push((id, m))
    }
}

/// Something a system asks the world for; it declares the resources it
/// reads and writes.
pub trait Param {
    /// Registering this parameter on a lock with accesses `s` does not clash.
    spec fn init_ok(s: Seq<(ResourceId, AccessMode)>) -> bool;

    /// The accesses after registering this parameter on accesses `s`.
    spec fn registered(s: Seq<(ResourceId, AccessMode)>) -> Seq<(ResourceId, AccessMode)>;

    fn init(rw: &mut SystemLock)
        requires
            old(rw).wf(),
            Self::init_ok(old(rw).entry_seq()),
        ensures
            final(rw).wf(),
            final(rw).entry_seq() == Self::registered(old(rw).entry_seq()),
    ;
}

fn register_read(rw: &mut SystemLock, id: ResourceId)
    requires
        old(rw).wf(),
        may_register(old(rw).entry_seq(), id, AccessMode::Read),
    ensures
        final(rw).wf(),
        final(rw).entry_seq() == register_seq(old(rw).entry_seq(), id, AccessMode::Read),
{
    let _ = rw.register_resource_read(id);
}

fn register_write(rw: &mut SystemLock, id: ResourceId)
    requires
        old(rw).wf(),
        may_register(old(rw).entry_seq(), id, AccessMode::Write),
    ensures
        final(rw).wf(),
        final(rw).entry_seq() == register_seq(old(rw).entry_seq(), id, AccessMode::Write),
{
    let _ = rw.register_resource_write(id);
}

impl Param for () {
    open spec fn init_ok(s: Seq<(ResourceId, AccessMode)>) -> bool {
        true
    }

    open spec fn registered(s: Seq<(ResourceId, AccessMode)>) -> Seq<(ResourceId, AccessMode)> {
        s
    }

    fn init(rw: &mut SystemLock) {
    }
}

/// Shared access to resource `R`.
pub struct Res<'r, R: Resource>(pub &'r R);

impl<'r, R: Resource> Res<'r, R> {
    pub fn get(&self) -> (r: &R)
        ensures
            *r == *self.0,
    {
        self.0
    }

    /// Borrows resource `R` from a world that stores values of its type.
    pub fn get_ref(world: &'r WorldState<R>) -> (r: Res<'r, R>)
        requires
            world.wf(),
            world.resources@.contains_key(R::ID.0),
        ensures
            *r.0 == world.resources@[R::ID.0],
    {
        let handle = world.resources.handle_ref(R::id()).unwrap();
        Res(handle.get())
    }
}

impl<'r, R: Resource> Param for Res<'r, R> {
    open spec fn init_ok(s: Seq<(ResourceId, AccessMode)>) -> bool {
        may_register(s, R::ID, AccessMode::Read)
    }

    open spec fn registered(s: Seq<(ResourceId, AccessMode)>) -> Seq<(ResourceId, AccessMode)> {
        register_seq(s, R::ID, AccessMode::Read)
    }

    fn init(rw: &mut SystemLock) {
        register_read(rw, R::id());
    }
}

/// Exclusive access to resource `R`.
pub struct ResMut<'r, R: Resource>(pub &'r mut R);

impl<'r, R: Resource> ResMut<'r, R> {
    /// Borrows resource `R` exclusively from a world that stores values of its
    /// type, while no read handle on it is alive; what is written through it
    /// is what the world then holds.
    pub fn get_ref(world: &'r mut WorldState<R>) -> (r: Option<ResMut<'r, R>>)
        requires
            old(world).wf(),
            old(world).resources@.contains_key(R::ID.0),
        ensures
            final(world).wf(),
            final(world).commands_sx == old(world).commands_sx,
            r matches Some(m) ==> *m.0 == old(world).resources@[R::ID.0]
                && final(world).resources@ == old(world).resources@.insert(R::ID.0, *final(m.0)),
            r is None ==> final(world).resources@ == old(world).resources@,
    {
        match world.resources.handle_mut(R::id()) {
            Some(handle) => Some(ResMut(handle.0)),
            None => None,
        }
    }
}

impl<'r, R: Resource> Param for ResMut<'r, R> {
    open spec fn init_ok(s: Seq<(ResourceId, AccessMode)>) -> bool {
        may_register(s, R::ID, AccessMode::Write)
    }

    open spec fn registered(s: Seq<(ResourceId, AccessMode)>) -> Seq<(ResourceId, AccessMode)> {
        register_seq(s, R::ID, AccessMode::Write)
    }

    fn init(rw: &mut SystemLock) {
        register_write(rw, R::id());
    }
}

impl<'r, R: Resource> Param for Option<Res<'r, R>> {
    open spec fn init_ok(s: Seq<(ResourceId, AccessMode)>) -> bool {
        may_register(s, R::ID, AccessMode::Read)
    }

    open spec fn registered(s: Seq<(ResourceId, AccessMode)>) -> Seq<(ResourceId, AccessMode)> {
        register_seq(s, R::ID, AccessMode::Read)
    }

    fn init(rw: &mut SystemLock) {
        register_read(rw, R::id());
    }
}

impl<'r, R: Resource> Param for Option<ResMut<'r, R>> {
    open spec fn init_ok(s: Seq<(ResourceId, AccessMode)>) -> bool {
        may_register(s, R::ID, AccessMode::Write)
    }

    open spec fn registered(s: Seq<(ResourceId, AccessMode)>) -> Seq<(ResourceId, AccessMode)> {
        register_seq(s, R::ID, AccessMode::Write)
    }

    fn init(rw: &mut SystemLock) {
        register_write(rw, R::id());
    }
}

impl<A: Param, B: Param> Param for (A, B) {
    open spec fn init_ok(s: Seq<(ResourceId, AccessMode)>) -> bool {
        A::init_ok(s) && B::init_ok(A::registered(s))
    }

    open spec fn registered(s: Seq<(ResourceId, AccessMode)>) -> Seq<(ResourceId, AccessMode)> {
        B::registered(A::registered(s))
    }

    fn init(rw: &mut SystemLock) {
        A::init(rw);
        B::init(rw);
    }
}

impl<A: Param, B: Param, C: Param> Param for (A, B, C) {
    open spec fn init_ok(s: Seq<(ResourceId, AccessMode)>) -> bool {
        A::init_ok(s) && B::init_ok(A::registered(s)) && C::init_ok(
            B::registered(A::registered(s)),
        )
    }

    open spec fn registered(s: Seq<(ResourceId, AccessMode)>) -> Seq<(ResourceId, AccessMode)> {
        C::registered(B::registered(A::registered(s)))
    }

    fn init(rw: &mut SystemLock) {
        A::init(rw);
        B::init(rw);
        C::init(rw);
    }
}

impl<A: Param, B: Param, C: Param, D: Param> Param for (A, B, C, D) {
    open spec fn init_ok(s: Seq<(ResourceId, AccessMode)>) -> bool {
        A::init_ok(s) && B::init_ok(A::registered(s)) && C::init_ok(B::registered(A::registered(s))) && D::init_ok(C::registered(B::registered(A::registered(s))))
    }

    open spec fn registered(s: Seq<(ResourceId, AccessMode)>) -> Seq<(ResourceId, AccessMode)> {
        D::registered(C::registered(B::registered(A::registered(s))))
    }

    fn init(rw: &mut SystemLock) {
        A::init(rw);
        B::init(rw);
        C::init(rw);
        D::init(rw);
    }
}

impl<A: Param, B: Param, C: Param, D: Param, E: Param> Param for (A, B, C, D, E) {
    open spec fn init_ok(s: Seq<(ResourceId, AccessMode)>) -> bool {
        A::init_ok(s) && B::init_ok(A::registered(s)) && C::init_ok(B::registered(A::registered(s))) && D::init_ok(C::registered(B::registered(A::registered(s)))) && E::init_ok(D::registered(C::registered(B::registered(A::registered(s)))))
    }

    open spec fn registered(s: Seq<(ResourceId, AccessMode)>) -> Seq<(ResourceId, AccessMode)> {
        E::registered(D::registered(C::registered(B::registered(A::registered(s)))))
    }

    fn init(rw: &mut SystemLock) {
        A::init(rw);
        B::init(rw);
        C::init(rw);
        D::init(rw);
        E::init(rw);
    }
}

impl<A: Param, B: Param, C: Param, D: Param, E: Param, F: Param> Param for (A, B, C, D, E, F) {
    open spec fn init_ok(s: Seq<(ResourceId, AccessMode)>) -> bool {
        A::init_ok(s) && B::init_ok(A::registered(s)) && C::init_ok(B::registered(A::registered(s))) && D::init_ok(C::registered(B::registered(A::registered(s)))) && E::init_ok(D::registered(C::registered(B::registered(A::registered(s))))) && F::init_ok(E::registered(D::registered(C::registered(B::registered(A::registered(s))))))
    }

    open spec fn registered(s: Seq<(ResourceId, AccessMode)>) -> Seq<(ResourceId, AccessMode)> {
        F::registered(E::registered(D::registered(C::registered(B::registered(A::registered(s))))))
    }

    fn init(rw: &mut SystemLock) {
        A::init(rw);
        B::init(rw);
        C::init(rw);
        D::init(rw);
        E::init(rw);
        F::init(rw);
    }
}

impl<A: Param, B: Param, C: Param, D: Param, E: Param, F: Param, G: Param> Param for (A, B, C, D, E, F, G) {
    open spec fn init_ok(s: Seq<(ResourceId, AccessMode)>) -> bool {
        A::init_ok(s) && B::init_ok(A::registered(s)) && C::init_ok(B::registered(A::registered(s))) && D::init_ok(C::registered(B::registered(A::registered(s)))) && E::init_ok(D::registered(C::registered(B::registered(A::registered(s))))) && F::init_ok(E::registered(D::registered(C::registered(B::registered(A::registered(s)))))) && G::init_ok(F::registered(E::registered(D::registered(C::registered(B::registered(A::registered(s)))))))
    }

    open spec fn registered(s: Seq<(ResourceId, AccessMode)>) -> Seq<(ResourceId, AccessMode)> {
        G::registered(F::registered(E::registered(D::registered(C::registered(B::registered(A::registered(s)))))))
    }

    fn init(rw: &mut SystemLock) {
        A::init(rw);
        B::init(rw);
        C::init(rw);
        D::init(rw);
        E::init(rw);
        F::init(rw);
        G::init(rw);
    }
}

impl<A: Param, B: Param, C: Param, D: Param, E: Param, F: Param, G: Param, H: Param> Param for (A, B, C, D, E, F, G, H) {
    open spec fn init_ok(s: Seq<(ResourceId, AccessMode)>) -> bool {
        A::init_ok(s) && B::init_ok(A::registered(s)) && C::init_ok(B::registered(A::registered(s))) && D::init_ok(C::registered(B::registered(A::registered(s)))) && E::init_ok(D::registered(C::registered(B::registered(A::registered(s))))) && F::init_ok(E::registered(D::registered(C::registered(B::registered(A::registered(s)))))) && G::init_ok(F::registered(E::registered(D::registered(C::registered(B::registered(A::registered(s))))))) && H::init_ok(G::registered(F::registered(E::registered(D::registered(C::registered(B::registered(A::registered(s))))))))
    }

    open spec fn registered(s: Seq<(ResourceId, AccessMode)>) -> Seq<(ResourceId, AccessMode)> {
        H::registered(G::registered(F::registered(E::registered(D::registered(C::registered(B::registered(A::registered(s))))))))
    }

    fn init(rw: &mut SystemLock) {
        A::init(rw);
        B::init(rw);
        C::init(rw);
        D::init(rw);
        E::init(rw);
        F::init(rw);
        G::init(rw);
        H::init(rw);
    }
}

impl<A: Param, B: Param, C: Param, D: Param, E: Param, F: Param, G: Param, H: Param, I: Param> Param for (A, B, C, D, E, F, G, H, I) {
    open spec fn init_ok(s: Seq<(ResourceId, AccessMode)>) -> bool {
        A::init_ok(s) && B::init_ok(A::registered(s)) && C::init_ok(B::registered(A::registered(s))) && D::init_ok(C::registered(B::registered(A::registered(s)))) && E::init_ok(D::registered(C::registered(B::registered(A::registered(s))))) && F::init_ok(E::registered(D::registered(C::registered(B::registered(A::registered(s)))))) && G::init_ok(F::registered(E::registered(D::registered(C::registered(B::registered(A::registered(s))))))) && H::init_ok(G::registered(F::registered(E::registered(D::registered(C::registered(B::registered(A::registered(s)))))))) && I::init_ok(H::registered(G::registered(F::registered(E::registered(D::registered(C::registered(B::registered(A::registered(s)))))))))
    }

    open spec fn registered(s: Seq<(ResourceId, AccessMode)>) -> Seq<(ResourceId, AccessMode)> {
        I::registered(H::registered(G::registered(F::registered(E::registered(D::registered(C::registered(B::registered(A::registered(s)))))))))
    }

    fn init(rw: &mut SystemLock) {
        A::init(rw);
        B::init(rw);
        C::init(rw);
        D::init(rw);
        E::init(rw);
        F::init(rw);
        G::init(rw);
        H::init(rw);
        I::init(rw);
    }
}

impl<A: Param, B: Param, C: Param, D: Param, E: Param, F: Param, G: Param, H: Param, I: Param, J: Param> Param for (A, B, C, D, E, F, G, H, I, J) {
    open spec fn init_ok(s: Seq<(ResourceId, AccessMode)>) -> bool {
        A::init_ok(s) && B::init_ok(A::registered(s)) && C::init_ok(B::registered(A::registered(s))) && D::init_ok(C::registered(B::registered(A::registered(s)))) && E::init_ok(D::registered(C::registered(B::registered(A::registered(s))))) && F::init_ok(E::registered(D::registered(C::registered(B::registered(A::registered(s)))))) && G::init_ok(F::registered(E::registered(D::registered(C::registered(B::registered(A::registered(s))))))) && H::init_ok(G::registered(F::registered(E::registered(D::registered(C::registered(B::registered(A::registered(s)))))))) && I::init_ok(H::registered(G::registered(F::registered(E::registered(D::registered(C::registered(B::registered(A::registered(s))))))))) && J::init_ok(I::registered(H::registered(G::registered(F::registered(E::registered(D::registered(C::registered(B::registered(A::registered(s))))))))))
    }

    open spec fn registered(s: Seq<(ResourceId, AccessMode)>) -> Seq<(ResourceId, AccessMode)> {
        J::registered(I::registered(H::registered(G::registered(F::registered(E::registered(D::registered(C::registered(B::registered(A::registered(s))))))))))
    }

    fn init(rw: &mut SystemLock) {
        A::init(rw);
        B::init(rw);
        C::init(rw);
        D::init(rw);
        E::init(rw);
        F::init(rw);
        G::init(rw);
        H::init(rw);
        I::init(rw);
        J::init(rw);
    }
}

/// Registering an access that does not clash takes the resource with that
/// mode and keeps every access registered before, in its place.
pub proof fn law_register_adds_the_access(s: Seq<(ResourceId, AccessMode)>, id: ResourceId, m: AccessMode)
    requires
        may_register(s, id, m),
    ensures
        seq_map(register_seq(s, id, m)) == seq_map(s).insert(id.0, m),
        s.len() <= register_seq(s, id, m).len() <= s.len() + 1,
        forall|i: int| 0 <= i < s.len() ==> #[trigger] register_seq(s, id, m)[i] == s[i],
{
    if seq_map(s).contains_key(id.0) {
        assert(seq_map(s).insert(id.0, m) =~= seq_map(s));
    } else {
        assert(s.push((id, m)).drop_last() =~= s);
    }
}

/// A shared parameter on `R` locks `R` for reading and keeps the other
/// accesses as they were.
pub proof fn law_res_locks_for_reading<'r, R: Resource + 'r>(s: Seq<(ResourceId, AccessMode)>)
    requires
        <Res<'r, R> as Param>::init_ok(s),
    ensures
        seq_map(<Res<'r, R> as Param>::registered(s)) == seq_map(s).insert(R::ID.0, AccessMode::Read),
{
    law_register_adds_the_access(s, R::ID, AccessMode::Read);
}

/// An exclusive parameter on `R` locks `R` for writing and keeps the other
/// accesses as they were.
pub proof fn law_res_mut_locks_for_writing<'r, R: Resource + 'r>(s: Seq<(ResourceId, AccessMode)>)
    requires
        <ResMut<'r, R> as Param>::init_ok(s),
    ensures
        seq_map(<ResMut<'r, R> as Param>::registered(s)) == seq_map(s).insert(R::ID.0, AccessMode::Write),
{
    law_register_adds_the_access(s, R::ID, AccessMode::Write);
}

/// An optional parameter takes the same accesses as the parameter it wraps:
/// an optional exclusive parameter on `R` still locks `R` for writing, and an
/// optional shared one locks it for reading.
pub proof fn law_optional_locks_like_required<'r, R: Resource + 'r>(s: Seq<(ResourceId, AccessMode)>)
    ensures
        <Option<ResMut<'r, R>> as Param>::init_ok(s) == <ResMut<'r, R> as Param>::init_ok(s),
        <Option<ResMut<'r, R>> as Param>::registered(s) == <ResMut<'r, R> as Param>::registered(s),
        <Option<Res<'r, R>> as Param>::init_ok(s) == <Res<'r, R> as Param>::init_ok(s),
        <Option<Res<'r, R>> as Param>::registered(s) == <Res<'r, R> as Param>::registered(s),
        <Option<ResMut<'r, R>> as Param>::init_ok(s) ==> seq_map(
            <Option<ResMut<'r, R>> as Param>::registered(s),
        ) == seq_map(s).insert(R::ID.0, AccessMode::Write),
        <Option<Res<'r, R>> as Param>::init_ok(s) ==> seq_map(
            <Option<Res<'r, R>> as Param>::registered(s),
        ) == seq_map(s).insert(R::ID.0, AccessMode::Read),
{
    if <Option<ResMut<'r, R>> as Param>::init_ok(s) {
        law_register_adds_the_access(s, R::ID, AccessMode::Write);
    }
    if <Option<Res<'r, R>> as Param>::init_ok(s) {
        law_register_adds_the_access(s, R::ID, AccessMode::Read);
    }
}

/// A tuple of 2 parameters registers each of them in turn, each on what
/// the ones before it registered, and may be registered exactly when each of
/// them may be, in that order.
pub proof fn law_tuple2_registers_every_component<A: Param, B: Param>(s: Seq<(ResourceId, AccessMode)>)
    ensures
        <(A, B) as Param>::registered(s) == B::registered(A::registered(s)),
        <(A, B) as Param>::init_ok(s) == (A::init_ok(s) && B::init_ok(A::registered(s))),
{
}

/// A tuple of 3 parameters registers each of them in turn, each on what
/// the ones before it registered, and may be registered exactly when each of
/// them may be, in that order.
pub proof fn law_tuple3_registers_every_component<A: Param, B: Param, C: Param>(s: Seq<(ResourceId, AccessMode)>)
    ensures
        <(A, B, C) as Param>::registered(s) == C::registered(B::registered(A::registered(s))),
        <(A, B, C) as Param>::init_ok(s) == (A::init_ok(s) && B::init_ok(A::registered(s)) && C::init_ok(B::registered(A::registered(s)))),
{
}

/// A tuple of 4 parameters registers each of them in turn, each on what
/// the ones before it registered, and may be registered exactly when each of
/// them may be, in that order.
pub proof fn law_tuple4_registers_every_component<A: Param, B: Param, C: Param, D: Param>(s: Seq<(ResourceId, AccessMode)>)
    ensures
        <(A, B, C, D) as Param>::registered(s) == D::registered(C::registered(B::registered(A::registered(s)))),
        <(A, B, C, D) as Param>::init_ok(s) == (A::init_ok(s) && B::init_ok(A::registered(s)) && C::init_ok(B::registered(A::registered(s))) && D::init_ok(C::registered(B::registered(A::registered(s))))),
{
}

/// A tuple of 5 parameters registers each of them in turn, each on what
/// the ones before it registered, and may be registered exactly when each of
/// them may be, in that order.
pub proof fn law_tuple5_registers_every_component<A: Param, B: Param, C: Param, D: Param, E: Param>(s: Seq<(ResourceId, AccessMode)>)
    ensures
        <(A, B, C, D, E) as Param>::registered(s) == E::registered(D::registered(C::registered(B::registered(A::registered(s))))),
        <(A, B, C, D, E) as Param>::init_ok(s) == (A::init_ok(s) && B::init_ok(A::registered(s)) && C::init_ok(B::registered(A::registered(s))) && D::init_ok(C::registered(B::registered(A::registered(s)))) && E::init_ok(D::registered(C::registered(B::registered(A::registered(s)))))),
{
}

/// A tuple of 6 parameters registers each of them in turn, each on what
/// the ones before it registered, and may be registered exactly when each of
/// them may be, in that order.
pub proof fn law_tuple6_registers_every_component<A: Param, B: Param, C: Param, D: Param, E: Param, F: Param>(s: Seq<(ResourceId, AccessMode)>)
    ensures
        <(A, B, C, D, E, F) as Param>::registered(s) == F::registered(E::registered(D::registered(C::registered(B::registered(A::registered(s)))))),
        <(A, B, C, D, E, F) as Param>::init_ok(s) == (A::init_ok(s) && B::init_ok(A::registered(s)) && C::init_ok(B::registered(A::registered(s))) && D::init_ok(C::registered(B::registered(A::registered(s)))) && E::init_ok(D::registered(C::registered(B::registered(A::registered(s))))) && F::init_ok(E::registered(D::registered(C::registered(B::registered(A::registered(s))))))),
{
}

/// A tuple of 7 parameters registers each of them in turn, each on what
/// the ones before it registered, and may be registered exactly when each of
/// them may be, in that order.
pub proof fn law_tuple7_registers_every_component<A: Param, B: Param, C: Param, D: Param, E: Param, F: Param, G: Param>(s: Seq<(ResourceId, AccessMode)>)
    ensures
        <(A, B, C, D, E, F, G) as Param>::registered(s) == G::registered(F::registered(E::registered(D::registered(C::registered(B::registered(A::registered(s))))))),
        <(A, B, C, D, E, F, G) as Param>::init_ok(s) == (A::init_ok(s) && B::init_ok(A::registered(s)) && C::init_ok(B::registered(A::registered(s))) && D::init_ok(C::registered(B::registered(A::registered(s)))) && E::init_ok(D::registered(C::registered(B::registered(A::registered(s))))) && F::init_ok(E::registered(D::registered(C::registered(B::registered(A::registered(s)))))) && G::init_ok(F::registered(E::registered(D::registered(C::registered(B::registered(A::registered(s)))))))),
{
}

/// A tuple of 8 parameters registers each of them in turn, each on what
/// the ones before it registered, and may be registered exactly when each of
/// them may be, in that order.
pub proof fn law_tuple8_registers_every_component<A: Param, B: Param, C: Param, D: Param, E: Param, F: Param, G: Param, H: Param>(s: Seq<(ResourceId, AccessMode)>)
    ensures
        <(A, B, C, D, E, F, G, H) as Param>::registered(s) == H::registered(G::registered(F::registered(E::registered(D::registered(C::registered(B::registered(A::registered(s)))))))),
        <(A, B, C, D, E, F, G, H) as Param>::init_ok(s) == (A::init_ok(s) && B::init_ok(A::registered(s)) && C::init_ok(B::registered(A::registered(s))) && D::init_ok(C::registered(B::registered(A::registered(s)))) && E::init_ok(D::registered(C::registered(B::registered(A::registered(s))))) && F::init_ok(E::registered(D::registered(C::registered(B::registered(A::registered(s)))))) && G::init_ok(F::registered(E::registered(D::registered(C::registered(B::registered(A::registered(s))))))) && H::init_ok(G::registered(F::registered(E::registered(D::registered(C::registered(B::registered(A::registered(s))))))))),
{
}

/// A tuple of 9 parameters registers each of them in turn, each on what
/// the ones before it registered, and may be registered exactly when each of
/// them may be, in that order.
pub proof fn law_tuple9_registers_every_component<A: Param, B: Param, C: Param, D: Param, E: Param, F: Param, G: Param, H: Param, I: Param>(s: Seq<(ResourceId, AccessMode)>)
    ensures
        <(A, B, C, D, E, F, G, H, I) as Param>::registered(s) == I::registered(H::registered(G::registered(F::registered(E::registered(D::registered(C::registered(B::registered(A::registered(s))))))))),
        <(A, B, C, D, E, F, G, H, I) as Param>::init_ok(s) == (A::init_ok(s) && B::init_ok(A::registered(s)) && C::init_ok(B::registered(A::registered(s))) && D::init_ok(C::registered(B::registered(A::registered(s)))) && E::init_ok(D::registered(C::registered(B::registered(A::registered(s))))) && F::init_ok(E::registered(D::registered(C::registered(B::registered(A::registered(s)))))) && G::init_ok(F::registered(E::registered(D::registered(C::registered(B::registered(A::registered(s))))))) && H::init_ok(G::registered(F::registered(E::registered(D::registered(C::registered(B::registered(A::registered(s)))))))) && I::init_ok(H::registered(G::registered(F::registered(E::registered(D::registered(C::registered(B::registered(A::registered(s)))))))))),
{
}

/// A tuple of 10 parameters registers each of them in turn, each on what
/// the ones before it registered, and may be registered exactly when each of
/// them may be, in that order.
pub proof fn law_tuple10_registers_every_component<A: Param, B: Param, C: Param, D: Param, E: Param, F: Param, G: Param, H: Param, I: Param, J: Param>(s: Seq<(ResourceId, AccessMode)>)
    ensures
        <(A, B, C, D, E, F, G, H, I, J) as Param>::registered(s) == J::registered(I::registered(H::registered(G::registered(F::registered(E::registered(D::registered(C::registered(B::registered(A::registered(s)))))))))),
        <(A, B, C, D, E, F, G, H, I, J) as Param>::init_ok(s) == (A::init_ok(s) && B::init_ok(A::registered(s)) && C::init_ok(B::registered(A::registered(s))) && D::init_ok(C::registered(B::registered(A::registered(s)))) && E::init_ok(D::registered(C::registered(B::registered(A::registered(s))))) && F::init_ok(E::registered(D::registered(C::registered(B::registered(A::registered(s)))))) && G::init_ok(F::registered(E::registered(D::registered(C::registered(B::registered(A::registered(s))))))) && H::init_ok(G::registered(F::registered(E::registered(D::registered(C::registered(B::registered(A::registered(s)))))))) && I::init_ok(H::registered(G::registered(F::registered(E::registered(D::registered(C::registered(B::registered(A::registered(s))))))))) && J::init_ok(I::registered(H::registered(G::registered(F::registered(E::registered(D::registered(C::registered(B::registered(A::registered(s))))))))))),
{
}

/// A system that reads `A` and `B` and writes `C` locks all three: `A` and
/// `B` for reading and `C` for writing, on top of what was locked before.
pub proof fn law_reads_and_write_all_locked<'r, A: Resource + 'r, B: Resource + 'r, C: Resource + 'r>(s: Seq<(ResourceId, AccessMode)>)
    requires
        <(Res<'r, A>, Res<'r, B>, ResMut<'r, C>) as Param>::init_ok(s),
    ensures
        seq_map(<(Res<'r, A>, Res<'r, B>, ResMut<'r, C>) as Param>::registered(s)) == seq_map(s).insert(
            A::ID.0,
            AccessMode::Read,
        ).insert(B::ID.0, AccessMode::Read).insert(C::ID.0, AccessMode::Write),
        seq_map(<(Res<'r, A>, Res<'r, B>, ResMut<'r, C>) as Param>::registered(s)).contains_key(C::ID.0),
{
    let s1 = <Res<'r, A> as Param>::registered(s);
    let s2 = <Res<'r, B> as Param>::registered(s1);
    law_res_locks_for_reading::<A>(s);
    law_res_locks_for_reading::<B>(s1);
    law_res_mut_locks_for_writing::<C>(s2);
}

/// Whatever two parameters come first, a system whose third parameter writes
/// `C` holds `C` for writing once registered.
pub proof fn law_third_writer_is_locked<'r, X: Param, Y: Param, C: Resource + 'r>(s: Seq<(ResourceId, AccessMode)>)
    requires
        <(X, Y, ResMut<'r, C>) as Param>::init_ok(s),
    ensures
        seq_map(<(X, Y, ResMut<'r, C>) as Param>::registered(s)).contains_key(C::ID.0),
        seq_map(<(X, Y, ResMut<'r, C>) as Param>::registered(s))[C::ID.0] == AccessMode::Write,
{
    law_res_mut_locks_for_writing::<C>(Y::registered(X::registered(s)));
}

} // verus!
