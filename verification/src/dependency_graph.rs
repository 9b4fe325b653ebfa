use std::collections::HashMap;

use vstd::prelude::*;

use crate::access::{seq_map, AccessMode};
use crate::meta::{SystemId, SystemsRw};
use crate::resources::ResourceId;

verus! {

broadcast use vstd::std_specs::hash::group_hash_axioms;

/// The systems that last wrote, before some system, each resource that
/// this system touches, in the order of its accesses.
pub open spec fn writers_of(
    writers: Map<u64, SystemId>,
    entries: Seq<(ResourceId, AccessMode)>,
) -> Seq<SystemId>
    decreases entries.len(),
{
    if entries.len() == 0 {
        Seq::empty()
    } else {
        let rest = writers_of(writers, entries.drop_last());
        let k = entries.last().0.0;
        if writers.contains_key(k) {
            rest.push(writers[k])
        } else {
            rest
        }
    }
}

/// `writers` after `system` wrote every resource it takes with
/// [`AccessMode::Write`].
pub open spec fn add_writes(
    writers: Map<u64, SystemId>,
    entries: Seq<(ResourceId, AccessMode)>,
    system: SystemId,
) -> Map<u64, SystemId> {
    Map::new(
        |k: u64|
            writers.contains_key(k) || (seq_map(entries).contains_key(k) && seq_map(entries)[k]
                == AccessMode::Write),
        |k: u64|
            if seq_map(entries).contains_key(k) && seq_map(entries)[k] == AccessMode::Write {
                system
            } else {
                writers[k]
            },
    )
}

/// The dependency graph and last writers after visiting `systems` in order.
pub open spec fn graph_after(systems: Seq<SystemId>, rw: SystemsRw) -> (
    Map<usize, Seq<SystemId>>,
    Map<u64, SystemId>,
)
    decreases systems.len(),
{
    if systems.len() == 0 {
        (Map::empty(), Map::empty())
    } else {
        let (graph, writers) = graph_after(systems.drop_last(), rw);
        let system = systems.last();
        let entries = rw.lock_of(system).entry_seq();
        let deps = writers_of(writers, entries);
        (
            if deps.len() > 0 {
                graph.insert(system.0, deps)
            } else {
                graph
            },
            add_writes(writers, entries, system),
        )
    }
}

/// Signals whenever system `A` (key) requires the mutations of systems `B`
/// (value) to be executed before it.
pub struct SystemsMutationDependencyGraph(HashMap<usize, Vec<SystemId>>);

impl View for SystemsMutationDependencyGraph {
    type V = Map<usize, Seq<SystemId>>;

    closed spec fn view(&self) -> Map<usize, Seq<SystemId>> {
        Map::new(|k: usize| self.0@.contains_key(k), |k: usize| self.0@[k]@)
    }
}

impl SystemsMutationDependencyGraph {
    pub fn get_dependencies(&self, system: SystemId) -> (res: Option<&[SystemId]>)
        ensures
            match res {
                Some(deps) => self@.contains_key(system.0) && deps@ == self@[system.0],
                None => !self@.contains_key(system.0),
            },
    {
        match self.0.get(&system.0) {
            Some(v) => Some(v.as_slice()),
            None => None,
        }
    }
}

#[derive(Clone, Copy, Debug, PartialEq, Eq, Structural)]
pub enum DependencyGraphError {
    SystemNotRegistered,
}

/// Orders `systems` as they are listed: each system depends on the last
/// earlier system that wrote any resource it reads or writes.
pub fn build_sequencial_graph(systems: &[SystemId], rw: &SystemsRw) -> (res: Result<
    SystemsMutationDependencyGraph,
    DependencyGraphError,
>)
    requires
        rw.wf(),
    ensures
        res is Ok <==> forall|i: int| 0 <= i < systems@.len() ==> rw.registered(#[trigger] systems@[i]),
        res matches Ok(graph) ==> graph@ == graph_after(systems@, *rw).0,
        res matches Err(e) ==> e == DependencyGraphError::SystemNotRegistered,
{
    let mut graph: HashMap<usize, Vec<SystemId>> = HashMap::new();
    let mut write_dependencies: HashMap<u64, SystemId> = HashMap::new();
    let ghost sys = systems@;
    let mut n: usize = 0;
    proof {
        assert(sys.take(0) =~= Seq::<SystemId>::empty());
        assert(Map::new(|k: usize| graph@.contains_key(k), |k: usize| graph@[k]@) =~= Map::<
            usize,
            Seq<SystemId>,
        >::empty());
    }
    while n < systems.len()
        invariant
            sys == systems@,
            n <= sys.len(),
            rw.wf(),
            forall|i: int| 0 <= i < n ==> rw.registered(#[trigger] sys[i]),
            Map::new(|k: usize| graph@.contains_key(k), |k: usize| graph@[k]@) == graph_after(
                sys.take(n as int),
                *rw,
            ).0,
            write_dependencies@ == graph_after(sys.take(n as int), *rw).1,
        decreases sys.len() - n,
    {
        let system = systems[n];
        let lock = match rw.get(system) {
            Some(lock) => lock,
            None => {
                return Err(DependencyGraphError::SystemNotRegistered);
            },
        };
        let ghost prev = graph_after(sys.take(n as int), *rw);
        proof {
            assert(sys.take(n + 1).drop_last() =~= sys.take(n as int));
        }
        let entries = lock.entries();
        let ghost e = lock.entry_seq();
        // Systems that last wrote the resources this one touches.
        let mut depend_on_systems: Vec<SystemId> = Vec::new();
        let mut j: usize = 0;
        proof {
            assert(e.take(0) =~= Seq::<(ResourceId, AccessMode)>::empty());
        }
        while j < entries.len()
            invariant
                entries@ == e,
                j <= e.len(),
                write_dependencies@ == prev.1,
                depend_on_systems@ == writers_of(prev.1, e.take(j as int)),
            decreases e.len() - j,
        {
            proof {
                assert(e.take(j + 1).drop_last() =~= e.take(j as int));
            }
            match write_dependencies.get(&entries[j].0.0) {
                Some(writer) => {
                    depend_on_systems.push(*writer);
                },
                None => {},
            }
            j += 1;
        }
        proof {
            assert(e.take(e.len() as int) =~= e);
        }
        let ghost graph_before = graph@;
        if depend_on_systems.len() > 0 {
            graph.insert(system.0, depend_on_systems);
        }
        proof {
            assert(Map::new(|k: usize| graph@.contains_key(k), |k: usize| graph@[k]@) =~= graph_after(
                sys.take(n + 1),
                *rw,
            ).0);
        }
        // Record the resources this system writes.
        let mut j: usize = 0;
        proof {
            assert(add_writes(prev.1, e.take(0), system) =~= prev.1);
        }
        while j < entries.len()
            invariant
                entries@ == e,
                lock.entry_seq() == e,
                lock.wf(),
                j <= e.len(),
                write_dependencies@ == add_writes(prev.1, e.take(j as int), system),
            decreases e.len() - j,
        {
            let (resource, mode) = entries[j];
            proof {
                crate::access::lemma_seq_map_take_step(e, j as int);
                crate::access::lemma_seq_map_take_fresh(e, j as int);
            }
            let ghost before = write_dependencies@;
            match mode {
                AccessMode::Write => {
                    write_dependencies.insert(resource.0, system);
                },
                AccessMode::Read => {},
            }
            proof {
                assert(write_dependencies@ =~= add_writes(prev.1, e.take(j + 1), system));
            }
            j += 1;
        }
        proof {
            assert(e.take(e.len() as int) =~= e);
        }
        n += 1;
    }
    proof {
        assert(sys.take(sys.len() as int) =~= sys);
    }
    Ok(SystemsMutationDependencyGraph(graph))
}

/// Every recorded writer is one of `systems`.
pub open spec fn writers_among(writers: Map<u64, SystemId>, systems: Seq<SystemId>) -> bool {
    forall|k: u64| #[trigger] writers.contains_key(k) ==> systems.contains(writers[k])
}

proof fn lemma_writers_among(systems: Seq<SystemId>, rw: SystemsRw)
    ensures
        writers_among(graph_after(systems, rw).1, systems),
        forall|k: usize| #[trigger] graph_after(systems, rw).0.contains_key(k) ==> exists|j: int|
            0 <= j < systems.len() && systems[j].0 == k,
    decreases systems.len(),
{
    if systems.len() > 0 {
        let prev = systems.drop_last();
        lemma_writers_among(prev, rw);
        let (graph, writers) = graph_after(prev, rw);
        let system = systems.last();
        let w2 = graph_after(systems, rw).1;
        assert forall|k: u64| #[trigger] w2.contains_key(k) implies systems.contains(w2[k]) by {
            if w2[k] == system {
                assert(systems[systems.len() - 1] == system);
            } else {
                assert(writers.contains_key(k));
                assert(prev.contains(writers[k]));
                let j = choose|j: int| 0 <= j < prev.len() && prev[j] == writers[k];
                assert(systems[j] == prev[j]);
            }
        }
        let g2 = graph_after(systems, rw).0;
        assert forall|k: usize| #[trigger] g2.contains_key(k) implies exists|j: int|
            0 <= j < systems.len() && systems[j].0 == k by {
            if k == system.0 {
                assert(systems[systems.len() - 1].0 == k);
            } else {
                assert(graph.contains_key(k));
                let j = choose|j: int| 0 <= j < prev.len() && prev[j].0 == k;
                assert(systems[j] == prev[j]);
            }
        }
    }
}

proof fn lemma_writers_of_among(writers: Map<u64, SystemId>, entries: Seq<(ResourceId, AccessMode)>, systems: Seq<SystemId>)
    requires
        writers_among(writers, systems),
    ensures
        forall|i: int| 0 <= i < writers_of(writers, entries).len() ==> systems.contains(
            #[trigger] writers_of(writers, entries)[i],
        ),
    decreases entries.len(),
{
    if entries.len() > 0 {
        lemma_writers_of_among(writers, entries.drop_last(), systems);
        let rest = writers_of(writers, entries.drop_last());
        let all = writers_of(writers, entries);
        let k = entries.last().0.0;
        assert forall|i: int| 0 <= i < all.len() implies systems.contains(#[trigger] all[i]) by {
            if i < rest.len() {
                assert(all[i] == rest[i]);
            } else {
                assert(writers.contains_key(k));
                assert(all[i] == writers[k]);
            }
        }
    }
}

/// No two of `systems` share an id.
pub open spec fn distinct_systems(systems: Seq<SystemId>) -> bool {
    forall|i: int, j: int| 0 <= i < j < systems.len() ==> systems[i].0 != systems[j].0
}

/// Systems only wait for systems listed before them: for systems with
/// distinct ids, every dependency recorded for the system at position `i` is
/// one at an earlier position, so the graph has no cycle.
pub proof fn law_dependencies_come_earlier(systems: Seq<SystemId>, rw: SystemsRw)
    requires
        distinct_systems(systems),
    ensures
        forall|i: int, d: int|
            #![trigger graph_after(systems, rw).0[systems[i].0][d]]
            0 <= i < systems.len() && graph_after(systems, rw).0.contains_key(systems[i].0) && 0 <= d
                < graph_after(systems, rw).0[systems[i].0].len() ==> exists|j: int|
                0 <= j < i && systems[j] == graph_after(systems, rw).0[systems[i].0][d],
    decreases systems.len(),
{
    if systems.len() > 0 {
        let n = systems.len() - 1;
        let prev = systems.drop_last();
        assert(distinct_systems(prev));
        law_dependencies_come_earlier(prev, rw);
        lemma_writers_among(prev, rw);
        let (graph, writers) = graph_after(prev, rw);
        let system = systems.last();
        let entries = rw.lock_of(system).entry_seq();
        let deps = writers_of(writers, entries);
        lemma_writers_of_among(writers, entries, prev);
        assert forall|i: int, d: int|
            #![trigger graph_after(systems, rw).0[systems[i].0][d]]
            0 <= i < systems.len() && graph_after(systems, rw).0.contains_key(systems[i].0) && 0 <= d
                < graph_after(systems, rw).0[systems[i].0].len() implies exists|j: int|
                0 <= j < i && systems[j] == graph_after(systems, rw).0[systems[i].0][d] by {
            let g2 = graph_after(systems, rw).0;
            if i == n {
                if deps.len() > 0 {
                    assert(g2[systems[i].0] == deps);
                    assert(prev.contains(deps[d]));
                    let j = choose|j: int| 0 <= j < prev.len() && prev[j] == deps[d];
                    assert(systems[j] == prev[j]);
                } else {
                    assert(graph.contains_key(system.0));
                    let j = choose|j: int| 0 <= j < prev.len() && prev[j].0 == system.0;
                    assert(systems[j] == prev[j]);
                    assert(false);
                }
            } else {
                assert(systems[i] == prev[i]);
                assert(systems[i].0 != system.0);
                assert(graph.contains_key(prev[i].0));
                assert(g2[systems[i].0] == graph[prev[i].0]);
                assert(graph[prev[i].0][d] == graph_after(prev, rw).0[prev[i].0][d]);
                let j = choose|j: int| 0 <= j < i && prev[j] == graph[prev[i].0][d];
                assert(systems[j] == prev[j]);
            }
        }
        assert(forall|i: int, d: int|
            #![trigger graph_after(systems, rw).0[systems[i].0][d]]
            0 <= i < systems.len() && graph_after(systems, rw).0.contains_key(systems[i].0) && 0 <= d
                < graph_after(systems, rw).0[systems[i].0].len() ==> exists|j: int|
                0 <= j < i && systems[j] == graph_after(systems, rw).0[systems[i].0][d]);
    } else {
        assert(graph_after(systems, rw).0 =~= Map::<usize, Seq<SystemId>>::empty());
    }
}

} // verus!
