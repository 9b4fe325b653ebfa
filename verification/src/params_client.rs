use vstd::prelude::*;

use crate::access::{can_lock_spec, compatible, release, SystemLock, WorldAccess};
use crate::gateway::ParamGetter;
use crate::param::Param;
use crate::world::SystemLocks;

verus! {

/// Slots of values; a removed value leaves a free slot that the next added
/// value takes.
pub struct UnorderedQueue<T> {
    values: Vec<Option<T>>,
}

/// The first free slot, if any.
pub open spec fn first_free<T>(s: Seq<Option<T>>) -> Option<int> {
    if exists|i: int| 0 <= i < s.len() && s[i] is None {
        Some(choose|i: int| 0 <= i < s.len() && s[i] is None && forall|j: int| 0 <= j < i ==> s[j] is Some)
    } else {
        None
    }
}

/// The slot an added value goes to.
pub open spec fn add_slot<T>(s: Seq<Option<T>>) -> int {
    match first_free(s) {
        Some(i) => i,
        None => s.len() as int,
    }
}

/// The slots after adding `v`.
pub open spec fn added<T>(s: Seq<Option<T>>, v: T) -> Seq<Option<T>> {
    if add_slot(s) < s.len() {
        s.update(add_slot(s), Some(v))
    } else {
        s.push(Some(v))
    }
}

impl<T> UnorderedQueue<T> {
    pub closed spec fn slots(&self) -> Seq<Option<T>> {
        self.values@
    }

    pub fn new() -> (q: UnorderedQueue<T>)
        ensures
            q.slots() == Seq::<Option<T>>::empty(),
    {
        UnorderedQueue { values: Vec::new() }
    }

    /// Stores `value` in the first free slot (or a new one at the end) and
    /// returns the slot's index.
    pub fn add(&mut self, value: T) -> (i: usize)
        requires
            old(self).slots().len() < usize::MAX,
        ensures
            i == add_slot(old(self).slots()),
            final(self).slots() == added(old(self).slots(), value),
    {
        let mut i: usize = 0;
        while i < self.values.len()
            invariant
                i <= self.values@.len(),
                self.values@ == old(self).slots(),
                forall|j: int| 0 <= j < i ==> self.values@[j] is Some,
            decreases self.values@.len() - i,
        {
            if self.values[i].is_none() {
                proof {
                    let s = old(self).slots();
                    lemma_add_slot(s);
                    assert(s[i as int] is None);
                    if add_slot(s) > i {
                        assert(s[i as int] is Some);
                    }
                }
                self.values.set(i, Some(value));
                return i;
            }
            i += 1;
        }
        proof {
            lemma_add_slot(old(self).slots());
        }
        self.values.push(Some(value));
        self.values.len() - 1
    }

    /// Takes the value out of slot `index`, leaving it free.
    pub fn remove_at(&mut self, index: usize) -> (r: Option<T>)
        ensures
            index < old(self).slots().len() ==> r == old(self).slots()[index as int] && final(self).slots() == old(self).slots().update(index as int, None),
            index >= old(self).slots().len() ==> r is None && final(self).slots() == old(self).slots(),
    {
        if index < self.values.len() {
            let mut taken: Option<T> = None;
            std::mem::swap(&mut taken, &mut self.values[index]);
            taken
        } else {
            None
        }
    }
}

impl<T> Default for UnorderedQueue<T> {
    fn default() -> (q: UnorderedQueue<T>)
        ensures
            q.slots() == Seq::<Option<T>>::empty(),
    {
        UnorderedQueue::new()
    }
}

/// The slot an added value takes is free or new.
pub proof fn lemma_add_slot<T>(s: Seq<Option<T>>)
    ensures
        0 <= add_slot(s) <= s.len(),
        add_slot(s) < s.len() ==> s[add_slot(s)] is None,
        forall|j: int| 0 <= j < add_slot(s) ==> s[j] is Some,
{
    if exists|i: int| 0 <= i < s.len() && s[i] is None {
        let k = choose|i: int| 0 <= i < s.len() && s[i] is None;
        lemma_first_free_exists(s, k);
    }
}

/// A value added to a queue is what removing its slot gives back, and the
/// other slots keep their values; once removed, the slot is free, so a
/// second removal gives nothing, and a reused slot leaves the queue as it was.
pub proof fn law_remove_returns_added<T>(s: Seq<Option<T>>, v: T)
    ensures
        0 <= add_slot(s) < added(s, v).len(),
        added(s, v)[add_slot(s)] == Some(v),
        forall|j: int| 0 <= j < s.len() && j != add_slot(s) ==> added(s, v)[j] == s[j],
        added(s, v).update(add_slot(s), None)[add_slot(s)] is None,
        add_slot(s) < s.len() ==> added(s, v).update(add_slot(s), None) == s,
        add_slot(s) == s.len() ==> added(s, v).update(add_slot(s), None) == s.push(None),
{
    lemma_add_slot(s);
    let i = add_slot(s);
    if i < s.len() {
        assert(added(s, v).update(i, None) =~= s);
    } else {
        assert(added(s, v).update(i, None) =~= s.push(None));
    }
}

proof fn lemma_first_free_exists<T>(s: Seq<Option<T>>, k: int)
    requires
        0 <= k < s.len(),
        s[k] is None,
    ensures
        exists|i: int| 0 <= i < s.len() && s[i] is None && forall|j: int| 0 <= j < i ==> s[j] is Some,
    decreases k,
{
    if exists|j: int| 0 <= j < k && s[j] is None {
        let j = choose|j: int| 0 <= j < k && s[j] is None;
        lemma_first_free_exists(s, j);
    } else {
        assert(forall|j: int| 0 <= j < k ==> s[j] is Some);
    }
}

/// The key under which a lent parameter's lock is kept.
#[derive(Clone, Copy, Debug, PartialEq, Eq, Structural, Hash)]
pub struct ForeignParamsKey(pub usize);

/// A request for parameters from outside the world: the accesses they need
/// and where the answer goes.
pub struct LendRequest<R> {
    pub lock: SystemLock,
    pub reply: R,
}

/// The requests of `reqs` whose accesses the world allows while it holds
/// `held`, in their order.
pub open spec fn lendable_now<R>(held: Map<u64, WorldAccess>, reqs: Seq<LendRequest<R>>) -> Seq<LendRequest<R>>
    decreases reqs.len(),
{
    if reqs.len() == 0 {
        Seq::empty()
    } else {
        let before = lendable_now(held, reqs.drop_last());
        if can_lock_spec(held, reqs.last().lock@) {
            before.push(reqs.last())
        } else {
            before
        }
    }
}

/// The requests of `reqs` that the world does not allow yet, in their order.
pub open spec fn kept_waiting<R>(held: Map<u64, WorldAccess>, reqs: Seq<LendRequest<R>>) -> Seq<LendRequest<R>>
    decreases reqs.len(),
{
    if reqs.len() == 0 {
        Seq::empty()
    } else {
        let before = kept_waiting(held, reqs.drop_last());
        if can_lock_spec(held, reqs.last().lock@) {
            before
        } else {
            before.push(reqs.last())
        }
    }
}

/// The slots of lent locks after the locks of `reqs` are added, in order.
pub open spec fn lend_all<R>(slots: Seq<Option<SystemLock>>, reqs: Seq<LendRequest<R>>) -> Seq<Option<SystemLock>>
    decreases reqs.len(),
{
    if reqs.len() == 0 {
        slots
    } else {
        added(lend_all(slots, reqs.drop_last()), reqs.last().lock)
    }
}

/// Giving back the slot of `key` is allowed while the world holds `held`:
/// the lock in it, if any, names each held resource with the mode it is held.
pub open spec fn release_ok(slots: Seq<Option<SystemLock>>, key: ForeignParamsKey, held: Map<u64, WorldAccess>) -> bool {
    key.0 < slots.len() ==> (slots[key.0 as int] matches Some(l) ==> compatible(held, l@))
}

/// Each waiting request is either lent now or kept waiting: the lent ones are
/// those the world allows, the kept ones those it does not, and when the
/// world allows all of them every request is lent, in order.
pub proof fn law_lending_splits_requests<R>(held: Map<u64, WorldAccess>, reqs: Seq<LendRequest<R>>)
    ensures
        lendable_now(held, reqs).len() + kept_waiting(held, reqs).len() == reqs.len(),
        forall|i: int|
            0 <= i < lendable_now(held, reqs).len() ==> can_lock_spec(held, (#[trigger] lendable_now(held, reqs)[i]).lock@),
        forall|i: int|
            0 <= i < kept_waiting(held, reqs).len() ==> !can_lock_spec(held, (#[trigger] kept_waiting(held, reqs)[i]).lock@),
        (forall|i: int| 0 <= i < reqs.len() ==> can_lock_spec(held, (#[trigger] reqs[i]).lock@)) ==> lendable_now(held, reqs) == reqs
            && kept_waiting(held, reqs) == Seq::<LendRequest<R>>::empty(),
    decreases reqs.len(),
{
    if reqs.len() > 0 {
        let init = reqs.drop_last();
        law_lending_splits_requests(held, init);
        if forall|i: int| 0 <= i < reqs.len() ==> can_lock_spec(held, (#[trigger] reqs[i]).lock@) {
            assert forall|i: int| 0 <= i < init.len() implies can_lock_spec(held, (#[trigger] init[i]).lock@) by {
                assert(init[i] == reqs[i]);
            }
            assert(can_lock_spec(held, reqs[reqs.len() - 1].lock@));
            assert(init.push(reqs.last()) =~= reqs);
        }
    }
}

/// Lends parameters to code outside the world. A request is lent once the
/// world allows its accesses; its lock is kept under a key until the
/// parameters are given back.
pub struct WokParamsClientRuntime<R> {
    buf: Vec<LendRequest<R>>,
    pending_close: Option<ForeignParamsKey>,
    foreign_locks: UnorderedQueue<SystemLock>,
}

impl<R> WokParamsClientRuntime<R> {
    pub closed spec fn waiting(&self) -> Seq<LendRequest<R>> {
        self.buf@
    }

    pub closed spec fn lent(&self) -> Seq<Option<SystemLock>> {
        self.foreign_locks.slots()
    }

    pub closed spec fn closing(&self) -> Option<ForeignParamsKey> {
        self.pending_close
    }

    /// Every lock it holds, waiting or lent, is well formed.
    pub open spec fn wf(&self) -> bool {
        &&& forall|i: int| 0 <= i < self.waiting().len() ==> (#[trigger] self.waiting()[i]).lock.wf()
        &&& forall|i: int|
            0 <= i < self.lent().len() ==> ((#[trigger] self.lent()[i]) matches Some(l) ==> l.wf())
    }

    pub fn new() -> (rt: WokParamsClientRuntime<R>)
        ensures
            rt.wf(),
            rt.waiting() == Seq::<LendRequest<R>>::empty(),
            rt.lent() == Seq::<Option<SystemLock>>::empty(),
            rt.closing() is None,
    {
        WokParamsClientRuntime { buf: Vec::new(), pending_close: None, foreign_locks: UnorderedQueue::new() }
    }

    /// A request arrived.
    pub fn push_request(&mut self, request: LendRequest<R>)
        requires
            old(self).wf(),
            request.lock.wf(),
        ensures
            final(self).wf(),
            final(self).waiting() == old(self).waiting().push(request),
            final(self).lent() == old(self).lent(),
            final(self).closing() == old(self).closing(),
    {
        self.buf.push(request);
        proof {
            assert forall|i: int| 0 <= i < self.waiting().len() implies (#[trigger] self.waiting()[i]).lock.wf() by {
                if i < old(self).waiting().len() {
                    assert(self.waiting()[i] == old(self).waiting()[i]);
                }
            }
        }
    }

    /// A lent parameter was given back.
    pub fn push_close(&mut self, key: ForeignParamsKey)
        ensures
            final(self).waiting() == old(self).waiting(),
            final(self).lent() == old(self).lent(),
            final(self).closing() == Some(key),
    {
        self.pending_close = Some(key);
    }

    /// Whether the slot of `key` can be given back now.
    pub fn release_allowed(&self, key: ForeignParamsKey, locks: &SystemLocks) -> (b: bool)
        requires
            self.wf(),
        ensures
            b == release_ok(self.lent(), key, locks.held()),
    {
        if key.0 < self.foreign_locks.values.len() {
            match &self.foreign_locks.values[key.0] {
                Some(lock) => locks.can_release_rw(lock),
                None => true,
            }
        } else {
            true
        }
    }

    /// Gives back the lock lent under `key`, if there is one.
    pub fn release(&mut self, key: ForeignParamsKey, locks: &mut SystemLocks)
        requires
            old(self).wf(),
            old(locks).wf(),
            release_ok(old(self).lent(), key, old(locks).held()),
        ensures
            final(self).wf(),
            final(locks).wf(),
            final(locks).rws() == old(locks).rws(),
            final(self).waiting() == old(self).waiting(),
            final(self).closing() == old(self).closing(),
            key.0 < old(self).lent().len() ==> final(self).lent() == old(self).lent().update(
                key.0 as int,
                None,
            ),
            key.0 < old(self).lent().len() ==> match old(self).lent()[key.0 as int] {
                Some(l) => final(locks).held() == release(old(locks).held(), l@),
                None => final(locks).held() == old(locks).held(),
            },
            key.0 >= old(self).lent().len() ==> final(self).lent() == old(self).lent() && final(locks).held() == old(locks).held(),
    {
        let ghost before = self.foreign_locks.slots();
        match self.foreign_locks.remove_at(key.0) {
            Some(lock) => {
                assert(before[key.0 as int] == Some(lock));
                locks.release_rw(&lock);
            },
            None => {},
        }
        proof {
            assert forall|i: int| 0 <= i < self.lent().len() implies ((#[trigger] self.lent()[i]) matches Some(l) ==> l.wf()) by {
                if i != key.0 {
                    assert(self.lent()[i] == before[i]);
                }
            }
            assert forall|i: int| 0 <= i < self.waiting().len() implies (#[trigger] self.waiting()[i]).lock.wf() by {
                assert(self.waiting()[i] == old(self).waiting()[i]);
            }
        }
    }

    /// Lends the waiting requests that the world allows now, oldest first:
    /// each lock is kept under a new key, and the keys come back with the
    /// replies. The other requests keep waiting, in their order.
    pub fn try_lend(&mut self, locks: &SystemLocks) -> (lent: Vec<(ForeignParamsKey, R)>)
        requires
            old(self).wf(),
            old(self).lent().len() + old(self).waiting().len() < usize::MAX,
        ensures
            final(self).wf(),
            final(self).waiting() == kept_waiting(locks.held(), old(self).waiting()),
            final(self).lent() == lend_all(old(self).lent(), lendable_now(locks.held(), old(self).waiting())),
            final(self).closing() == old(self).closing(),
            lent@.len() == lendable_now(locks.held(), old(self).waiting()).len(),
            forall|i: int|
                0 <= i < lent@.len() ==> (#[trigger] lent@[i]).1 == lendable_now(locks.held(), old(self).waiting())[i].reply
                    && final(self).lent()[lent@[i].0.0 as int] == Some(lendable_now(locks.held(), old(self).waiting())[i].lock),
            forall|i: int|
                0 <= i < lent@.len() ==> ((#[trigger] lent@[i]).0.0 >= old(self).lent().len() || old(self).lent()[lent@[i].0.0 as int] is None),
            forall|i: int, j: int| 0 <= i < j < lent@.len() ==> (#[trigger] lent@[i]).0 != (#[trigger] lent@[j]).0,
    {
        let ghost reqs = self.buf@;
        let ghost held = locks.held();
        let ghost slots0 = self.foreign_locks.slots();
        let mut pending: Vec<LendRequest<R>> = Vec::new();
        std::mem::swap(&mut pending, &mut self.buf);
        let mut lent: Vec<(ForeignParamsKey, R)> = Vec::new();
        let mut n: usize = 0;
        proof {
            assert(reqs.take(0) =~= Seq::<LendRequest<R>>::empty());
            assert(reqs.subrange(0, reqs.len() as int) =~= reqs);
        }
        while pending.len() > 0
            invariant
                n <= reqs.len(),
                slots0.len() + reqs.len() < usize::MAX,
                slots0 == old(self).lent(),
                reqs == old(self).waiting(),
                held == locks.held(),
                forall|i: int| 0 <= i < reqs.len() ==> (#[trigger] reqs[i]).lock.wf(),
                pending@ == reqs.subrange(n as int, reqs.len() as int),
                self.buf@ == kept_waiting(held, reqs.take(n as int)),
                self.foreign_locks.slots() == lend_all(slots0, lendable_now(held, reqs.take(n as int))),
                self.pending_close == old(self).closing(),
                forall|i: int|
                    0 <= i < self.foreign_locks.slots().len() ==> ((#[trigger] self.foreign_locks.slots()[i]) matches Some(l) ==> l.wf()),
                forall|i: int| 0 <= i < self.buf@.len() ==> (#[trigger] self.buf@[i]).lock.wf(),
                slots0.len() <= self.foreign_locks.slots().len() <= slots0.len() + n,
                forall|i: int|
                    0 <= i < slots0.len() && (#[trigger] slots0[i]) is Some ==> self.foreign_locks.slots()[i] == slots0[i],
                lent@.len() == lendable_now(held, reqs.take(n as int)).len(),
                forall|i: int|
                    0 <= i < lent@.len() ==> (#[trigger] lent@[i]).1 == lendable_now(held, reqs.take(n as int))[i].reply
                        && self.foreign_locks.slots()[lent@[i].0.0 as int] == Some(lendable_now(held, reqs.take(n as int))[i].lock),
                forall|i: int| 0 <= i < lent@.len() ==> (#[trigger] lent@[i]).0.0 < self.foreign_locks.slots().len(),
                forall|i: int|
                    0 <= i < lent@.len() ==> ((#[trigger] lent@[i]).0.0 >= slots0.len() || slots0[lent@[i].0.0 as int] is None),
                forall|i: int, j: int| 0 <= i < j < lent@.len() ==> (#[trigger] lent@[i]).0 != (#[trigger] lent@[j]).0,
            decreases pending.len(),
        {
            let request = pending.remove(0);
            let ghost before_l = lendable_now(held, reqs.take(n as int));
            let ghost before_k = kept_waiting(held, reqs.take(n as int));
            proof {
                assert(reqs[n as int] == request);
                assert(pending@ =~= reqs.subrange(n + 1, reqs.len() as int));
                assert(reqs.take(n + 1).drop_last() =~= reqs.take(n as int));
                assert(reqs.take(n + 1).last() == request);
                assert(request.lock.wf());
            }
            if locks.can_lock_rw(&request.lock) {
                let ghost slots_before = self.foreign_locks.slots();
                let key = self.foreign_locks.add(request.lock);
                proof {
                    lemma_add_slot(slots_before);
                    let after_l = lendable_now(held, reqs.take(n + 1));
                    assert(after_l == before_l.push(request));
                    assert(after_l.drop_last() =~= before_l);
                    assert forall|i: int| 0 <= i < lent@.len() implies lent@[i].0.0 != key by {
                        assert(slots_before[lent@[i].0.0 as int] is Some);
                    }
                }
                lent.push((ForeignParamsKey(key), request.reply));
                proof {
                    let after_l = lendable_now(held, reqs.take(n + 1));
                    let s = self.foreign_locks.slots();
                    assert forall|i: int| 0 <= i < s.len() implies ((#[trigger] s[i]) matches Some(l) ==> l.wf()) by {
                        if i != key {
                            assert(s[i] == slots_before[i]);
                        }
                    }
                    assert forall|i: int| 0 <= i < lent@.len() implies (#[trigger] lent@[i]).1 == after_l[i].reply
                        && s[lent@[i].0.0 as int] == Some(after_l[i].lock) by {
                        if i < lent@.len() - 1 {
                            assert(lent@[i].0.0 != key);
                            assert(s[lent@[i].0.0 as int] == slots_before[lent@[i].0.0 as int]);
                        }
                    }
                    assert forall|i: int| 0 <= i < slots0.len() && (#[trigger] slots0[i]) is Some implies s[i] == slots0[i] by {
                        assert(slots_before[i] is Some);
                    }
                    assert(self.buf@ == kept_waiting(held, reqs.take(n + 1)));
                }
            } else {
                self.buf.push(request);
                proof {
                    assert(lendable_now(held, reqs.take(n + 1)) == before_l);
                    assert(kept_waiting(held, reqs.take(n + 1)) == before_k.push(request));
                }
            }
            n = n + 1;
        }
        proof {
            assert(reqs.take(n as int) =~= reqs);
        }
        lent
    }
}

impl<R> WokParamsClientRuntime<R> {
    /// One round after the inputs were taken in: lends the waiting requests
    /// that the world allows, then gives back the parameter whose closing
    /// arrived, if any.
    pub fn act(&mut self, locks: &mut SystemLocks) -> (lent: Vec<(ForeignParamsKey, R)>)
        requires
            old(self).wf(),
            old(locks).wf(),
            old(self).lent().len() + old(self).waiting().len() < usize::MAX,
            old(self).closing() matches Some(k) ==> release_ok(
                lend_all(old(self).lent(), lendable_now(old(locks).held(), old(self).waiting())),
                k,
                old(locks).held(),
            ),
        ensures
            final(self).wf(),
            final(locks).wf(),
            final(locks).rws() == old(locks).rws(),
            final(self).waiting() == kept_waiting(old(locks).held(), old(self).waiting()),
            final(self).closing() is None,
            lent@.len() == lendable_now(old(locks).held(), old(self).waiting()).len(),
            forall|i: int|
                0 <= i < lent@.len() ==> (#[trigger] lent@[i]).1 == lendable_now(old(locks).held(), old(self).waiting())[i].reply,
            closed_after(
                lend_all(old(self).lent(), lendable_now(old(locks).held(), old(self).waiting())),
                old(locks).held(),
                old(self).closing(),
                final(self).lent(),
                final(locks).held(),
            ),
    {
        let lent = self.try_lend(locks);
        match self.pending_close {
            Some(key) => {
                self.pending_close = None;
                self.release(key, locks);
            },
            None => {},
        }
        lent
    }

    /// The same round as `act`, for any closing: where giving the closed
    /// parameters back is not allowed, nothing is given back and the key
    /// comes back as the error.
    pub fn checked_act(&mut self, locks: &mut SystemLocks) -> (r: Result<Vec<(ForeignParamsKey, R)>, ForeignParamsKey>)
        requires
            old(self).wf(),
            old(locks).wf(),
            old(self).lent().len() + old(self).waiting().len() < usize::MAX,
        ensures
            final(self).wf(),
            final(locks).wf(),
            final(locks).rws() == old(locks).rws(),
            final(self).waiting() == kept_waiting(old(locks).held(), old(self).waiting()),
            final(self).closing() is None,
            (r is Err) <==> (old(self).closing() matches Some(k) && !release_ok(
                lend_all(old(self).lent(), lendable_now(old(locks).held(), old(self).waiting())),
                k,
                old(locks).held(),
            )),
            r matches Err(k) ==> old(self).closing() == Some(k) && final(locks).held() == old(locks).held()
                && final(self).lent() == lend_all(old(self).lent(), lendable_now(old(locks).held(), old(self).waiting())),
            r matches Ok(lent) ==> lent@.len() == lendable_now(old(locks).held(), old(self).waiting()).len()
                && (forall|i: int|
                0 <= i < lent@.len() ==> (#[trigger] lent@[i]).1 == lendable_now(old(locks).held(), old(self).waiting())[i].reply)
                && closed_after(
                lend_all(old(self).lent(), lendable_now(old(locks).held(), old(self).waiting())),
                old(locks).held(),
                old(self).closing(),
                final(self).lent(),
                final(locks).held(),
            ),
    {
        let lent = self.try_lend(locks);
        match self.pending_close {
            Some(key) => {
                self.pending_close = None;
                if self.release_allowed(key, locks) {
                    self.release(key, locks);
                    Ok(lent)
                } else {
                    Err(key)
                }
            },
            None => Ok(lent),
        }
    }
}

/// The slots and holdings after the closing `closing`, if any, gave back its
/// slot of `slots` while the world held `held`.
pub open spec fn closed_after(
    slots: Seq<Option<SystemLock>>,
    held: Map<u64, WorldAccess>,
    closing: Option<ForeignParamsKey>,
    slots_after: Seq<Option<SystemLock>>,
    held_after: Map<u64, WorldAccess>,
) -> bool {
    match closing {
        None => slots_after == slots && held_after == held,
        Some(k) => if k.0 < slots.len() {
            &&& slots_after == slots.update(k.0 as int, None)
            &&& match slots[k.0 as int] {
                Some(l) => held_after == release(held, l@),
                None => held_after == held,
            }
        } else {
            slots_after == slots && held_after == held
        },
    }
}

impl<R> LendRequest<R> {
    /// The request for the parameters `P`, answered through `reply`.
    pub fn for_params<P: Param>(reply: R) -> (r: LendRequest<R>)
        requires
            P::init_ok(Seq::empty()),
        ensures
            r.lock.wf(),
            r.lock.entry_seq() == P::registered(Seq::empty()),
            r.reply == reply,
    {
        let getter = ParamGetter::new::<P>();
        LendRequest { lock: getter.lock, reply }
    }
}

} // verus!
