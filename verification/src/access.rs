use std::collections::HashMap;

use vstd::prelude::*;

use crate::resources::ResourceId;

verus! {

broadcast use vstd::std_specs::hash::group_hash_axioms;

/// How a system uses a resource.
#[derive(Clone, Copy, Debug, PartialEq, Eq, Structural, Hash)]
pub enum AccessMode {
    Read,
    Write,
}

/// How a resource is currently held in the world: by a number of readers
/// (never zero) or by one writer.
#[derive(Clone, Copy, Debug, PartialEq, Eq, Structural)]
pub enum WorldAccess {
    Read(usize),
    Write,
}

/// Why a resource could not be registered in a [`SystemLock`]: it was
/// already registered with the other access mode.
#[derive(Clone, Copy, Debug, PartialEq, Eq, Structural)]
pub enum AlreadyRegistered {
    Read,
    Write,
}

/// No resource appears twice in a list of accesses.
pub open spec fn unique_ids(s: Seq<(ResourceId, AccessMode)>) -> bool {
    forall|i: int, j: int| 0 <= i < s.len() && 0 <= j < s.len() && i != j ==> s[i].0 != s[j].0
}

/// The map from resource to access mode that a list of accesses describes.
pub open spec fn seq_map(s: Seq<(ResourceId, AccessMode)>) -> Map<u64, AccessMode>
    decreases s.len(),
{
    if s.len() == 0 {
        Map::empty()
    } else {
        seq_map(s.drop_last()).insert(s.last().0.0, s.last().1)
    }
}

pub proof fn lemma_seq_map_contains(s: Seq<(ResourceId, AccessMode)>, k: u64)
    ensures
        seq_map(s).contains_key(k) <==> exists|i: int| 0 <= i < s.len() && s[i].0.0 == k,
    decreases s.len(),
{
    if s.len() > 0 {
        lemma_seq_map_contains(s.drop_last(), k);
        if seq_map(s).contains_key(k) && k != s.last().0.0 {
            let i = choose|i: int| 0 <= i < s.drop_last().len() && s.drop_last()[i].0.0 == k;
            assert(s[i].0.0 == k);
        }
        if exists|i: int| 0 <= i < s.len() && s[i].0.0 == k {
            let i = choose|i: int| 0 <= i < s.len() && s[i].0.0 == k;
            if i < s.len() - 1 {
                assert(s.drop_last()[i].0.0 == k);
            }
        }
    }
}

pub proof fn lemma_seq_map_index(s: Seq<(ResourceId, AccessMode)>, i: int)
    requires
        unique_ids(s),
        0 <= i < s.len(),
    ensures
        seq_map(s).contains_key(s[i].0.0),
        seq_map(s)[s[i].0.0] == s[i].1,
    decreases s.len(),
{
    if i < s.len() - 1 {
        let t = s.drop_last();
        assert(unique_ids(t)) by {
            assert forall|a: int, b: int| 0 <= a < t.len() && 0 <= b < t.len() && a != b implies t[a].0
                != t[b].0 by {
                assert(t[a] == s[a] && t[b] == s[b]);
            }
        }
        lemma_seq_map_index(t, i);
        assert(s[i].0 != s.last().0);
        assert(s[i].0.0 != s.last().0.0);
    }
}

/// The map of `s.take(i + 1)` adds the `i`-th access to that of `s.take(i)`.
pub proof fn lemma_seq_map_take_step(s: Seq<(ResourceId, AccessMode)>, i: int)
    requires
        0 <= i < s.len(),
    ensures
        seq_map(s.take(i + 1)) == seq_map(s.take(i)).insert(s[i].0.0, s[i].1),
{
    assert(s.take(i + 1).drop_last() =~= s.take(i));
}

/// A key of `s` that comes at position `i` is not in the map of the accesses
/// before it.
pub proof fn lemma_seq_map_take_fresh(s: Seq<(ResourceId, AccessMode)>, i: int)
    requires
        unique_ids(s),
        0 <= i < s.len(),
    ensures
        !seq_map(s.take(i)).contains_key(s[i].0.0),
{
    lemma_seq_map_contains(s.take(i), s[i].0.0);
    if seq_map(s.take(i)).contains_key(s[i].0.0) {
        let j = choose|j: int| 0 <= j < s.take(i).len() && s.take(i)[j].0.0 == s[i].0.0;
        assert(s[j].0 == s[i].0);
    }
}

pub proof fn lemma_seq_map_full(s: Seq<(ResourceId, AccessMode)>)
    ensures
        s.take(s.len() as int) == s,
{
    assert(s.take(s.len() as int) =~= s);
}

/// The set of resources a system needs, each with its access mode.
pub struct SystemLock {
    resources: Vec<(ResourceId, AccessMode)>,
}

impl View for SystemLock {
    type V = Map<u64, AccessMode>;

    open spec fn view(&self) -> Map<u64, AccessMode> {
        seq_map(self.entry_seq())
    }
}

impl SystemLock {
    /// The registered accesses in the order they were registered.
    pub closed spec fn entry_seq(&self) -> Seq<(ResourceId, AccessMode)> {
        self.resources@
    }

    pub open spec fn wf(&self) -> bool {
        unique_ids(self.entry_seq())
    }

    /// The lock holds resource `r` with mode `m`.
    pub open spec fn has(&self, r: ResourceId, m: AccessMode) -> bool {
        self@.contains_key(r.0) && self@[r.0] == m
    }

    pub fn new() -> (lock: SystemLock)
        ensures
            lock.wf(),
            lock.entry_seq() == Seq::<(ResourceId, AccessMode)>::empty(),
            lock@ == Map::<u64, AccessMode>::empty(),
    {
        SystemLock { resources: Vec::new() }
    }

    /// The registered accesses, in registration order.
    pub fn entries(&self) -> (r: &[(ResourceId, AccessMode)])
        ensures
            r@ == self.entry_seq(),
    {
        self.resources.as_slice()
    }

    fn has_entry(&self, resource: ResourceId, mode: AccessMode) -> (b: bool)
        requires
            self.wf(),
        ensures
            b == self.has(resource, mode),
    {
        let mut i: usize = 0;
        while i < self.resources.len()
            invariant
                i <= self.resources.len(),
                self.wf(),
                forall|j: int| 0 <= j < i ==> self.entry_seq()[j] != (resource, mode),
            decreases self.resources.len() - i,
        {
            let (r, m) = self.resources[i];
            if r == resource && m == mode {
                proof {
                    lemma_seq_map_index(self.entry_seq(), i as int);
                }
                return true;
            }
            i += 1;
        }
        proof {
            if self.has(resource, mode) {
                lemma_seq_map_contains(self.entry_seq(), resource.0);
                let j = choose|j: int|
                    0 <= j < self.entry_seq().len() && self.entry_seq()[j].0.0 == resource.0;
                lemma_seq_map_index(self.entry_seq(), j);
                assert(self.entry_seq()[j].0 == resource);
            }
        }
        false
    }

    fn has_resource(&self, resource: ResourceId) -> (b: bool)
        requires
            self.wf(),
        ensures
            b == self@.contains_key(resource.0),
    {
        let mut i: usize = 0;
        while i < self.resources.len()
            invariant
                i <= self.resources.len(),
                self.wf(),
                forall|j: int| 0 <= j < i ==> self.entry_seq()[j].0 != resource,
            decreases self.resources.len() - i,
        {
            if self.resources[i].0 == resource {
                proof {
                    lemma_seq_map_index(self.entry_seq(), i as int);
                }
                return true;
            }
            i += 1;
        }
        proof {
            lemma_seq_map_contains(self.entry_seq(), resource.0);
            if self@.contains_key(resource.0) {
                let j = choose|j: int|
                    0 <= j < self.entry_seq().len() && self.entry_seq()[j].0.0 == resource.0;
                assert(self.entry_seq()[j].0 == resource);
            }
        }
        false
    }

    pub fn has_resource_write(&self, resource: ResourceId) -> (b: bool)
        requires
            self.wf(),
        ensures
            b == self.has(resource, AccessMode::Write),
    {
        self.has_entry(resource, AccessMode::Write)
    }

    pub fn has_resource_read(&self, resource: ResourceId) -> (b: bool)
        requires
            self.wf(),
        ensures
            b == self.has(resource, AccessMode::Read),
    {
        self.has_entry(resource, AccessMode::Read)
    }

    fn insert_access(&mut self, resource: ResourceId, mode: AccessMode)
        requires
            old(self).wf(),
            !old(self).has(resource, if mode == AccessMode::Read {
                AccessMode::Write
            } else {
                AccessMode::Read
            }),
        ensures
            final(self).wf(),
            final(self)@ == old(self)@.insert(resource.0, mode),
            old(self)@.contains_key(resource.0) ==> final(self).entry_seq() == old(self).entry_seq(),
            !old(self)@.contains_key(resource.0) ==> final(self).entry_seq() == old(self).entry_seq().push((resource, mode)),
    {
        if self.has_resource(resource) {
            proof {
                let m = old(self)@[resource.0];
                assert(m == mode) by {
                    if m != mode {
                        assert(m == AccessMode::Read || m == AccessMode::Write);
                    }
                }
                assert(old(self)@.insert(resource.0, mode) =~= old(self)@);
            }
        } else {
            let ghost s = self.entry_seq();
            self.resources.push((resource, mode));
            proof {
                let t = self.entry_seq();
                assert(t.drop_last() =~= s);
                lemma_seq_map_contains(s, resource.0);
                assert forall|a: int, b: int| 0 <= a < t.len() && 0 <= b < t.len() && a != b implies t[a].0
                    != t[b].0 by {
                    if a == s.len() {
                        assert(s[b].0.0 != resource.0);
                    } else if b == s.len() {
                        assert(s[a].0.0 != resource.0);
                    } else {
                        assert(t[a] == s[a] && t[b] == s[b]);
                    }
                }
            }
        }
    }

    /// Registers a read of `resource`; refused when the lock already writes it.
    pub fn register_resource_read(&mut self, resource: ResourceId) -> (res: Result<(), AlreadyRegistered>)
        requires
            old(self).wf(),
        ensures
            final(self).wf(),
            old(self).has(resource, AccessMode::Write) ==> res == Err::<(), AlreadyRegistered>(
                AlreadyRegistered::Write,
            ) && final(self).entry_seq() == old(self).entry_seq(),
            !old(self).has(resource, AccessMode::Write) ==> res is Ok && final(self)@ == old(self)@.insert(resource.0, AccessMode::Read),
            !old(self).has(resource, AccessMode::Write) && old(self)@.contains_key(resource.0)
                ==> final(self).entry_seq() == old(self).entry_seq(),
            !old(self)@.contains_key(resource.0) ==> final(self).entry_seq() == old(self).entry_seq().push((resource, AccessMode::Read)),
    {
        if self.has_resource_write(resource) {
            return Err(AlreadyRegistered::Write);
        }
        self.insert_access(resource, AccessMode::Read);
        Ok(())
    }

    /// Registers a write of `resource`; refused when the lock already reads it.
    pub fn register_resource_write(&mut self, resource: ResourceId) -> (res: Result<(), AlreadyRegistered>)
        requires
            old(self).wf(),
        ensures
            final(self).wf(),
            old(self).has(resource, AccessMode::Read) ==> res == Err::<(), AlreadyRegistered>(
                AlreadyRegistered::Read,
            ) && final(self).entry_seq() == old(self).entry_seq(),
            !old(self).has(resource, AccessMode::Read) ==> res is Ok && final(self)@ == old(self)@.insert(resource.0, AccessMode::Write),
            !old(self).has(resource, AccessMode::Read) && old(self)@.contains_key(resource.0)
                ==> final(self).entry_seq() == old(self).entry_seq(),
            !old(self)@.contains_key(resource.0) ==> final(self).entry_seq() == old(self).entry_seq().push((resource, AccessMode::Write)),
    {
        if self.has_resource_read(resource) {
            return Err(AlreadyRegistered::Read);
        }
        self.insert_access(resource, AccessMode::Write);
        Ok(())
    }
}

impl Default for SystemLock {
    fn default() -> (lock: SystemLock)
        ensures
            lock.wf(),
            lock.entry_seq() == Seq::<(ResourceId, AccessMode)>::empty(),
            lock@ == Map::<u64, AccessMode>::empty(),
    {
        SystemLock::new()
    }
}

/// Resource `k`, given back with mode `m`, is not held or held with that mode.
pub open spec fn release_allows(w: Map<u64, WorldAccess>, k: u64, m: AccessMode) -> bool {
    !w.contains_key(k) || ((w[k] is Read) <==> m == AccessMode::Read)
}

/// Resource `k` may be taken with mode `m` while the world holds `w`.
pub open spec fn lock_allows(w: Map<u64, WorldAccess>, k: u64, m: AccessMode) -> bool {
    !w.contains_key(k) || (w[k] is Read && m == AccessMode::Read)
}

/// Every access of `a` may be taken while the world holds `w`.
pub open spec fn can_lock_spec(w: Map<u64, WorldAccess>, a: Map<u64, AccessMode>) -> bool {
    forall|k: u64| a.contains_key(k) ==> lock_allows(w, k, a[k])
}

/// No reader count of a resource that `a` touches is at its maximum.
pub open spec fn counts_fit(w: Map<u64, WorldAccess>, a: Map<u64, AccessMode>) -> bool {
    forall|k: u64|
        a.contains_key(k) && w.contains_key(k) && w[k] is Read ==> w[k]->Read_0 < usize::MAX
}

/// Each resource of `a` that the world holds is held with the same mode.
pub open spec fn compatible(w: Map<u64, WorldAccess>, a: Map<u64, AccessMode>) -> bool {
    forall|k: u64|
        a.contains_key(k) && w.contains_key(k) ==> ((w[k] is Read) <==> a[k] == AccessMode::Read)
}

pub open spec fn acquired_value(w: Map<u64, WorldAccess>, k: u64, m: AccessMode) -> WorldAccess {
    if w.contains_key(k) {
        match w[k] {
            WorldAccess::Read(c) => WorldAccess::Read((c + 1) as usize),
            WorldAccess::Write => WorldAccess::Write,
        }
    } else {
        match m {
            AccessMode::Read => WorldAccess::Read(1),
            AccessMode::Write => WorldAccess::Write,
        }
    }
}

/// The world's holdings after taking every access of `a`.
pub open spec fn acquire(w: Map<u64, WorldAccess>, a: Map<u64, AccessMode>) -> Map<u64, WorldAccess> {
    Map::new(
        |k: u64| w.contains_key(k) || a.contains_key(k),
        |k: u64|
            if a.contains_key(k) {
                acquired_value(w, k, a[k])
            } else {
                w[k]
            },
    )
}

/// Giving an access back empties the resource's entry.
pub open spec fn released_away(v: WorldAccess) -> bool {
    match v {
        WorldAccess::Read(c) => c <= 1,
        WorldAccess::Write => true,
    }
}

pub open spec fn decremented(v: WorldAccess) -> WorldAccess {
    match v {
        WorldAccess::Read(c) => WorldAccess::Read((c - 1) as usize),
        WorldAccess::Write => WorldAccess::Write,
    }
}

/// The world's holdings after giving back every access of `a`.
pub open spec fn release(w: Map<u64, WorldAccess>, a: Map<u64, AccessMode>) -> Map<u64, WorldAccess> {
    Map::new(
        |k: u64| w.contains_key(k) && !(a.contains_key(k) && released_away(w[k])),
        |k: u64|
            if a.contains_key(k) {
                decremented(w[k])
            } else {
                w[k]
            },
    )
}

/// Reader counts are never zero.
pub open spec fn holdings_wf(w: Map<u64, WorldAccess>) -> bool {
    forall|k: u64| w.contains_key(k) && w[k] is Read ==> w[k]->Read_0 >= 1
}

/// The resources currently held by running systems.
pub struct WorldLocks {
    resources: HashMap<u64, WorldAccess>,
}

impl View for WorldLocks {
    type V = Map<u64, WorldAccess>;

    closed spec fn view(&self) -> Map<u64, WorldAccess> {
        self.resources@
    }
}

impl WorldLocks {
    pub open spec fn wf(&self) -> bool {
        holdings_wf(self@)
    }

    pub fn new() -> (locks: WorldLocks)
        ensures
            locks.wf(),
            locks@ == Map::<u64, WorldAccess>::empty(),
    {
        WorldLocks { resources: HashMap::new() }
    }

    /// Takes every access of `access` without checking that it is allowed.
    pub fn do_access(&mut self, access: &SystemLock)
        requires
            old(self).wf(),
            access.wf(),
            counts_fit(old(self)@, access@),
        ensures
            final(self)@ == acquire(old(self)@, access@),
            can_lock_spec(old(self)@, access@) ==> final(self).wf(),
    {
        let ghost w0 = self@;
        let ghost s = access.entry_seq();
        let entries = access.entries();
        let mut i: usize = 0;
        proof {
            assert(s.take(0) =~= Seq::<(ResourceId, AccessMode)>::empty());
            assert(acquire(w0, seq_map(s.take(0))) =~= w0);
        }
        while i < entries.len()
            invariant
                entries@ == s,
                s == access.entry_seq(),
                access.wf(),
                i <= s.len(),
                counts_fit(w0, access@),
                access@ == seq_map(s),
                self@ == acquire(w0, seq_map(s.take(i as int))),
            decreases s.len() - i,
        {
            let (resource, mode) = entries[i];
            let k = resource.0;
            proof {
                lemma_seq_map_take_fresh(s, i as int);
                lemma_seq_map_take_step(s, i as int);
                lemma_seq_map_index(s, i as int);
            }
            let ghost before = self@;
            let ghost a_i = seq_map(s.take(i as int));
            let current = self.resources.get(&k);
            match current {
                Some(WorldAccess::Read(count)) => {
                    let count = *count;
                    assert(w0.contains_key(k) && w0[k] == WorldAccess::Read(count));
                    self.resources.insert(k, WorldAccess::Read(count + 1));
                },
                Some(WorldAccess::Write) => {},
                None => {
                    match mode {
                        AccessMode::Read => {
                            self.resources.insert(k, WorldAccess::Read(1));
                        },
                        AccessMode::Write => {
                            self.resources.insert(k, WorldAccess::Write);
                        },
                    }
                },
            }
            proof {
                let a_next = seq_map(s.take(i + 1));
                assert(a_next == a_i.insert(k, mode));
                assert(self@ =~= acquire(w0, a_next));
            }
            i += 1;
        }
        proof {
            lemma_seq_map_full(s);
            if can_lock_spec(w0, access@) {
                assert forall|k: u64| self@.contains_key(k) && self@[k] is Read implies self@[k]->Read_0
                    >= 1 by {}
            }
        }
    }

    /// Takes every access of `access` when the world allows all of them.
    pub fn try_access(&mut self, access: &SystemLock) -> (res: Result<(), ()>)
        requires
            old(self).wf(),
            access.wf(),
            counts_fit(old(self)@, access@),
        ensures
            final(self).wf(),
            res is Ok <==> can_lock_spec(old(self)@, access@),
            res is Ok ==> final(self)@ == acquire(old(self)@, access@),
            res is Err ==> final(self)@ == old(self)@,
    {
        if !self.can_lock(access) {
            return Err(());
        }
        self.do_access(access);
        Ok(())
    }

    /// Gives back every access of `access`.
    pub fn release_access(&mut self, access: &SystemLock)
        requires
            old(self).wf(),
            access.wf(),
            compatible(old(self)@, access@),
        ensures
            final(self).wf(),
            final(self)@ == release(old(self)@, access@),
    {
        let ghost w0 = self@;
        let ghost s = access.entry_seq();
        let entries = access.entries();
        let mut i: usize = 0;
        proof {
            assert(s.take(0) =~= Seq::<(ResourceId, AccessMode)>::empty());
            assert(release(w0, seq_map(s.take(0))) =~= w0);
        }
        while i < entries.len()
            invariant
                entries@ == s,
                s == access.entry_seq(),
                access.wf(),
                i <= s.len(),
                holdings_wf(w0),
                compatible(w0, access@),
                access@ == seq_map(s),
                self@ == release(w0, seq_map(s.take(i as int))),
            decreases s.len() - i,
        {
            let (resource, _mode) = entries[i];
            let k = resource.0;
            proof {
                lemma_seq_map_take_fresh(s, i as int);
                lemma_seq_map_take_step(s, i as int);
                lemma_seq_map_index(s, i as int);
            }
            let ghost a_i = seq_map(s.take(i as int));
            let current = self.resources.get(&k);
            match current {
                Some(WorldAccess::Read(count)) => {
                    let count = *count;
                    assert(w0.contains_key(k) && w0[k] == WorldAccess::Read(count));
                    if count - 1 == 0 {
                        self.resources.remove(&k);
                    } else {
                        self.resources.insert(k, WorldAccess::Read(count - 1));
                    }
                },
                Some(WorldAccess::Write) => {
                    self.resources.remove(&k);
                },
                None => {},
            }
            proof {
                let a_next = seq_map(s.take(i + 1));
                assert(a_next == a_i.insert(k, s[i as int].1));
                assert(self@ =~= release(w0, a_next));
            }
            i += 1;
        }
        proof {
            lemma_seq_map_full(s);
        }
    }

    /// Whether every access of `access` may be taken now.
    pub fn can_lock(&self, access: &SystemLock) -> (b: bool)
        requires
            access.wf(),
        ensures
            b == can_lock_spec(self@, access@),
    {
        let ghost s = access.entry_seq();
        let entries = access.entries();
        let mut i: usize = 0;
        while i < entries.len()
            invariant
                entries@ == s,
                s == access.entry_seq(),
                access.wf(),
                i <= s.len(),
                forall|j: int| 0 <= j < i ==> lock_allows(self@, #[trigger] s[j].0.0, s[j].1),
            decreases s.len() - i,
        {
            let (resource, mode) = entries[i];
            let allow = match self.resources.get(&resource.0) {
                None => true,
                Some(WorldAccess::Read(_)) => match mode {
                    AccessMode::Read => true,
                    AccessMode::Write => false,
                },
                Some(WorldAccess::Write) => false,
            };
            if !allow {
                proof {
                    lemma_seq_map_index(s, i as int);
                }
                return false;
            }
            i += 1;
        }
        proof {
            assert forall|k: u64| access@.contains_key(k) implies lock_allows(self@, k, access@[k]) by {
                lemma_seq_map_contains(s, k);
                let j = choose|j: int| 0 <= j < s.len() && s[j].0.0 == k;
                lemma_seq_map_index(s, j);
            }
        }
        true
    }

    /// Whether every access of `access` that the world holds is held with the
    /// same mode, so that giving it back is allowed.
    pub fn can_release(&self, access: &SystemLock) -> (b: bool)
        requires
            access.wf(),
        ensures
            b == compatible(self@, access@),
    {
        let ghost s = access.entry_seq();
        let entries = access.entries();
        let mut i: usize = 0;
        while i < entries.len()
            invariant
                entries@ == s,
                s == access.entry_seq(),
                access.wf(),
                i <= s.len(),
                forall|j: int|
                    0 <= j < i ==> release_allows(self@, #[trigger] s[j].0.0, s[j].1),
            decreases s.len() - i,
        {
            let (resource, mode) = entries[i];
            let allow = match self.resources.get(&resource.0) {
                None => true,
                Some(WorldAccess::Read(_)) => match mode {
                    AccessMode::Read => true,
                    AccessMode::Write => false,
                },
                Some(WorldAccess::Write) => match mode {
                    AccessMode::Read => false,
                    AccessMode::Write => true,
                },
            };
            if !allow {
                proof {
                    lemma_seq_map_index(s, i as int);
                }
                return false;
            }
            i += 1;
        }
        proof {
            assert forall|k: u64| access@.contains_key(k) && self@.contains_key(k) implies ((
            self@[k] is Read) <==> access@[k] == AccessMode::Read) by {
                lemma_seq_map_contains(s, k);
                let j = choose|j: int| 0 <= j < s.len() && s[j].0.0 == k;
                lemma_seq_map_index(s, j);
                assert(release_allows(self@, s[j].0.0, s[j].1));
            }
        }
        true
    }

    /// No resource is held.
    pub fn is_clean(&self) -> (b: bool)
        ensures
            b == (self@ == Map::<u64, WorldAccess>::empty()),
    {
        let b = self.resources.is_empty();
        proof {
            if b {
                assert(self@ =~= Map::<u64, WorldAccess>::empty());
            } else {
                if self@ == Map::<u64, WorldAccess>::empty() {
                    assert(self@.is_empty());
                }
            }
        }
        b
    }
}

impl Default for WorldLocks {
    fn default() -> (locks: WorldLocks)
        ensures
            locks.wf(),
            locks@ == Map::<u64, WorldAccess>::empty(),
    {
        WorldLocks::new()
    }
}

/// Giving back the accesses a system just took leaves the world as it was
/// before, and the world holds them the way the system asked for them.
pub proof fn law_release_undoes_access(w: Map<u64, WorldAccess>, a: Map<u64, AccessMode>)
    requires
        holdings_wf(w),
        can_lock_spec(w, a),
        counts_fit(w, a),
    ensures
        compatible(acquire(w, a), a),
        release(acquire(w, a), a) == w,
{
    let w2 = acquire(w, a);
    assert forall|k: u64| a.contains_key(k) && w2.contains_key(k) implies ((w2[k] is Read) <==> a[k]
        == AccessMode::Read) by {
        assert(lock_allows(w, k, a[k]));
    }
    assert forall|k: u64| #[trigger] release(w2, a).contains_key(k) <==> w.contains_key(k) by {
        if a.contains_key(k) {
            assert(lock_allows(w, k, a[k]));
        }
    }
    assert forall|k: u64| #[trigger] w.contains_key(k) implies release(w2, a)[k] == w[k] by {
        if a.contains_key(k) {
            assert(lock_allows(w, k, a[k]));
        }
    }
    assert(release(w2, a) =~= w);
}

/// Taking accesses the world allows keeps every reader count above zero.
pub proof fn law_acquire_keeps_counts(w: Map<u64, WorldAccess>, a: Map<u64, AccessMode>)
    requires
        holdings_wf(w),
        can_lock_spec(w, a),
        counts_fit(w, a),
    ensures
        holdings_wf(acquire(w, a)),
{
}

/// While a system writes a resource, no other system that touches that
/// resource can take its accesses.
pub proof fn law_writer_excludes(
    w: Map<u64, WorldAccess>,
    a: Map<u64, AccessMode>,
    b: Map<u64, AccessMode>,
    k: u64,
)
    requires
        can_lock_spec(w, a),
        a.contains_key(k),
        a[k] == AccessMode::Write,
        b.contains_key(k),
    ensures
        !can_lock_spec(acquire(w, a), b),
{
    assert(lock_allows(w, k, a[k]));
    assert(!lock_allows(acquire(w, a), k, b[k]));
}

/// Systems that only share resources they both read can hold their accesses
/// at the same time.
pub proof fn law_readers_share(
    w: Map<u64, WorldAccess>,
    a: Map<u64, AccessMode>,
    b: Map<u64, AccessMode>,
)
    requires
        can_lock_spec(w, a),
        can_lock_spec(w, b),
        forall|k: u64|
            a.contains_key(k) && b.contains_key(k) ==> a[k] == AccessMode::Read && b[k]
                == AccessMode::Read,
    ensures
        can_lock_spec(acquire(w, a), b),
{
    assert forall|k: u64| b.contains_key(k) implies lock_allows(acquire(w, a), k, b[k]) by {
        assert(lock_allows(w, k, b[k]));
        if a.contains_key(k) {
            assert(lock_allows(w, k, a[k]));
        }
    }
}

/// In a world where nothing is held, every system can take its accesses.
pub proof fn law_clean_world_allows_all(a: Map<u64, AccessMode>)
    ensures
        can_lock_spec(Map::<u64, WorldAccess>::empty(), a),
        counts_fit(Map::<u64, WorldAccess>::empty(), a),
{
}

} // verus!
