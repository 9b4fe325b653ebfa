use wok_core::access::{AccessMode, AlreadyRegistered, SystemLock, WorldLocks};
use wok_core::clap_routes::{MainHandler, Router, select_route, sub_route};
use wok_core::commands::{Command, Commands, InsertResource};
use wok_core::dependency_graph::build_sequencial_graph;
use wok_core::meta::{SystemId, SystemsRw};
use wok_core::params_client::{ForeignParamsKey, LendRequest, UnorderedQueue, WokParamsClientRuntime};
use wok_core::resources::{LocalResources, ResourceId, Resources};
use wok_core::text::{decimal_string, str_eq};
use wok_core::trigger::LumpTriggerRuntime;
use wok_core::world::{ConfigureWorld, SystemLocks, World, WorldSystemLockError};

fn lock(entries: &[(u64, AccessMode)]) -> SystemLock {
    let mut l = SystemLock::new();
    for (id, mode) in entries {
        match mode {
            AccessMode::Read => l.register_resource_read(ResourceId(*id)).unwrap(),
            AccessMode::Write => l.register_resource_write(ResourceId(*id)).unwrap(),
        }
    }
    l
}

#[test]
fn registering_the_other_mode_is_refused() {
    let mut l = SystemLock::new();
    l.register_resource_read(ResourceId(1)).unwrap();
    assert!(l.register_resource_read(ResourceId(1)).is_ok());
    assert!(matches!(l.register_resource_write(ResourceId(1)), Err(AlreadyRegistered::Read)));
    assert!(l.has_resource_read(ResourceId(1)));
    assert!(!l.has_resource_write(ResourceId(1)));
    assert_eq!(l.entries().len(), 1);

    l.register_resource_write(ResourceId(2)).unwrap();
    assert!(matches!(l.register_resource_read(ResourceId(2)), Err(AlreadyRegistered::Write)));
    assert_eq!(l.entries().len(), 2);
}

#[test]
fn writer_excludes_and_readers_share() {
    let mut world = WorldLocks::new();
    let read = lock(&[(1, AccessMode::Read)]);
    let write = lock(&[(1, AccessMode::Write)]);

    assert!(world.try_access(&read).is_ok());
    assert!(world.can_lock(&read));
    assert!(world.try_access(&read).is_ok());
    assert!(!world.can_lock(&write));
    assert!(world.try_access(&write).is_err());

    world.release_access(&read);
    assert!(!world.can_lock(&write));
    world.release_access(&read);
    assert!(world.is_clean());
    assert!(world.try_access(&write).is_ok());
    assert!(!world.can_lock(&read));
    world.release_access(&write);
    assert!(world.is_clean());
}

#[test]
fn disjoint_writers_run_together() {
    let mut world = WorldLocks::new();
    assert!(world.try_access(&lock(&[(1, AccessMode::Write)])).is_ok());
    assert!(world.try_access(&lock(&[(2, AccessMode::Write)])).is_ok());
}

#[test]
fn system_locks_lock_by_id() {
    let mut locks = SystemLocks::new();
    let a = locks.systems_rw.add(lock(&[(1, AccessMode::Write)]));
    let b = locks.systems_rw.add(lock(&[(1, AccessMode::Read)]));
    assert_eq!(locks.try_lock(SystemId(9)), Err(WorldSystemLockError::NotRegistered));
    assert_eq!(locks.try_lock(a), Ok(()));
    assert_eq!(locks.try_lock(b), Err(WorldSystemLockError::InvalidAccess));
    locks.release(a);
    assert!(locks.is_all_free());
    assert_eq!(locks.try_lock(b), Ok(()));
}

#[test]
fn resources_read_back_and_take() {
    let mut res: Resources<&str> = Resources::new();
    res.insert(ResourceId(3), "a");
    res.insert(ResourceId(3), "b");
    res.insert(ResourceId(4), "c");
    assert_eq!(*res.handle_ref(ResourceId(3)).unwrap().get(), "b");
    assert_eq!(res.try_take(ResourceId(3)), Some("b"));
    assert!(res.handle_ref(ResourceId(3)).is_none());
    assert_eq!(*res.handle_ref(ResourceId(4)).unwrap().get(), "c");
    assert_eq!(res.try_take(ResourceId(3)), None);
}

#[test]
fn commands_apply_in_order_at_tick() {
    let mut world: World<u32> = World::new();
    {
        let mut commands = Commands::new(&mut world.state.commands_sx);
        commands.insert_resource(ResourceId(1), 10);
        commands.add(Command::InsertResource(InsertResource { id: ResourceId(1), value: 11 }));
        commands.insert_resource(ResourceId(2), 20);
    }
    assert!(world.state.resources.handle_ref(ResourceId(1)).is_none());
    world.center.tick_commands(&mut world.state);
    assert_eq!(*world.state.resources.handle_ref(ResourceId(1)).unwrap().get(), 11);
    assert_eq!(*world.state.resources.handle_ref(ResourceId(2)).unwrap().get(), 20);
}

#[test]
fn configure_world_inserts_resources() {
    let world: World<u32> = World::new();
    let world = world.insert_resource(ResourceId(5), 50).init_resource(ResourceId(6));
    assert_eq!(*world.world().state.resources.handle_ref(ResourceId(5)).unwrap().get(), 50);
    assert_eq!(*world.world().state.resources.handle_ref(ResourceId(6)).unwrap().get(), 0);
}

#[test]
fn later_systems_depend_on_earlier_writers_only() {
    let mut rws = SystemsRw::new();
    let a = rws.add(lock(&[(1, AccessMode::Write), (2, AccessMode::Write)]));
    let b = rws.add(lock(&[(2, AccessMode::Read)]));
    let c = rws.add(lock(&[(1, AccessMode::Read), (2, AccessMode::Write)]));
    let d = rws.add(lock(&[(3, AccessMode::Read)]));
    let graph = build_sequencial_graph(&[a, b, c, d], &rws).unwrap();
    assert_eq!(graph.get_dependencies(a), None);
    assert_eq!(graph.get_dependencies(b), Some(&[a][..]));
    assert_eq!(graph.get_dependencies(c), Some(&[a, a][..]));
    assert_eq!(graph.get_dependencies(d), None);
    assert!(build_sequencial_graph(&[a, SystemId(7)], &rws).is_err());
}

#[test]
fn queue_reuses_free_slots() {
    let mut q = UnorderedQueue::new();
    assert_eq!(q.add('a'), 0);
    assert_eq!(q.add('b'), 1);
    assert_eq!(q.remove_at(0), Some('a'));
    assert_eq!(q.remove_at(0), None);
    assert_eq!(q.add('c'), 0);
    assert_eq!(q.add('d'), 2);
    assert_eq!(q.remove_at(5), None);
    assert_eq!(q.remove_at(1), Some('b'));
}

#[test]
fn params_are_lent_and_given_back() {
    let mut locks = SystemLocks::new();
    let writer = locks.systems_rw.add(lock(&[(1, AccessMode::Write)]));
    locks.try_lock(writer).unwrap();
    let mut rt: WokParamsClientRuntime<&str> = WokParamsClientRuntime::new();
    rt.push_request(LendRequest { lock: lock(&[(1, AccessMode::Write)]), reply: "first" });
    rt.push_request(LendRequest { lock: lock(&[(2, AccessMode::Read)]), reply: "second" });

    // The request on the written resource waits; the other one is lent.
    let lent = rt.act(&mut locks);
    assert_eq!(lent, vec![(ForeignParamsKey(0), "second")]);
    // Lending checks the accesses without taking them.
    assert!(locks.can_lock_rw(&lock(&[(2, AccessMode::Write)])));

    locks.release(writer);
    let lent = rt.act(&mut locks);
    assert_eq!(lent, vec![(ForeignParamsKey(1), "first")]);
    assert!(rt.act(&mut locks).is_empty());

    // Giving back the first key frees its slot for the next request.
    rt.push_close(ForeignParamsKey(0));
    assert!(rt.act(&mut locks).is_empty());
    assert!(locks.is_all_free());
    rt.push_request(LendRequest { lock: lock(&[(3, AccessMode::Read)]), reply: "third" });
    assert_eq!(rt.act(&mut locks), vec![(ForeignParamsKey(0), "third")]);

    rt.release(ForeignParamsKey(1), &mut locks);
    assert!(locks.is_all_free());
}

#[test]
fn closing_against_a_different_hold_is_refused() {
    let mut locks = SystemLocks::new();
    let mut rt: WokParamsClientRuntime<u8> = WokParamsClientRuntime::new();
    rt.push_request(LendRequest { lock: lock(&[(5, AccessMode::Read)]), reply: 1 });
    assert_eq!(rt.checked_act(&mut locks), Ok(vec![(ForeignParamsKey(0), 1)]));

    let writer = locks.systems_rw.add(lock(&[(5, AccessMode::Write)]));
    locks.try_lock(writer).unwrap();
    assert!(!rt.release_allowed(ForeignParamsKey(0), &locks));
    assert!(rt.release_allowed(ForeignParamsKey(4), &locks));
    rt.push_close(ForeignParamsKey(0));
    assert_eq!(rt.checked_act(&mut locks), Err(ForeignParamsKey(0)));
    assert!(!locks.is_all_free());

    locks.release(writer);
    assert!(rt.release_allowed(ForeignParamsKey(0), &locks));
    rt.push_close(ForeignParamsKey(0));
    assert_eq!(rt.checked_act(&mut locks), Ok(vec![]));
    assert!(locks.is_all_free());
}

#[test]
fn trigger_event_waits_while_handler_is_blocked() {
    let mut locks = SystemLocks::new();
    let handler = locks.systems_rw.add(lock(&[(1, AccessMode::Write)]));
    let other = locks.systems_rw.add(lock(&[(1, AccessMode::Read)]));
    let mut rt: LumpTriggerRuntime<u8> = LumpTriggerRuntime::new(handler);
    assert!(rt.waits_for_event());
    assert_eq!(rt.act(&mut locks), None);

    rt.receive(7);
    assert!(!rt.waits_for_event());
    locks.try_lock(other).unwrap();
    assert_eq!(rt.act(&mut locks), None);
    assert!(!rt.waits_for_event());

    locks.release(other);
    assert_eq!(rt.act(&mut locks), Some(7));
    assert!(rt.waits_for_event());
    assert!(!locks.is_all_free());
}

fn route(names: &[&str]) -> Vec<String> {
    names.iter().map(|n| n.to_string()).collect()
}

#[test]
fn routes_select_the_deepest_subcommand_chain() {
    let mut router: Router<&str> = Router::new();
    router.add(route(&["user", "create"]), SystemId(1), "create user");
    router.add(route(&["user", "list"]), SystemId(2), "list users");
    router.add(route(&["user", "list"]), SystemId(3), "list users again");

    let (entry, depth) = select_route(None, &route(&["user", "create"]), &router).unwrap();
    assert_eq!(entry.id, SystemId(1));
    assert_eq!(*entry.system, "create user");
    assert_eq!(depth, 2);

    let (entry, _) = select_route(None, &route(&["user", "list"]), &router).unwrap();
    assert_eq!(entry.id, SystemId(3));

    assert!(select_route(None, &route(&["user"]), &router).is_none());
    assert!(select_route(None, &route(&[]), &router).is_none());

    let main = MainHandler(SystemId(0), "main");
    let (entry, depth) = select_route(Some(&main), &route(&["user", "list"]), &router).unwrap();
    assert_eq!(entry.id, SystemId(0));
    assert_eq!(depth, 0);
}

#[test]
fn sub_routes_extend_the_chain() {
    let r = sub_route(&route(&["a", "b"]), "c");
    assert_eq!(r, route(&["a", "b", "c"]));
    assert_eq!(router_len(&r), 3);
}

fn router_len(r: &[String]) -> usize {
    r.len()
}

#[test]
fn text_helpers() {
    assert_eq!(decimal_string(0), "0");
    assert_eq!(decimal_string(1207), "1207");
    assert!(str_eq("abc", "abc"));
    assert!(!str_eq("abc", "abd"));
}

#[derive(Debug, PartialEq)]
struct Counter(u32);

impl wok_core::resources::Resource for Counter {
    const ID: ResourceId = ResourceId(77);
}

#[test]
fn params_borrow_the_stored_resource() {
    let mut world: World<Counter> = World::new();
    world.state.resources.insert(ResourceId(77), Counter(1));
    {
        let counter = wok_core::param::ResMut::<Counter>::get_ref(&mut world.state).unwrap();
        counter.0 .0 += 1;
    }
    let read = wok_core::param::Res::<Counter>::get_ref(&world.state);
    assert_eq!(*read.get(), Counter(2));
    let reader = world.state.resources.handle(ResourceId(77)).unwrap();
    assert!(wok_core::param::ResMut::<Counter>::get_ref(&mut world.state).is_none());
    assert_eq!(*reader.get(), Counter(2));
}

#[test]
fn unsafe_world_state_reads_writes_and_takes() {
    let world: World<u8> = World::new();
    let (state, _center) = world.into_parts();
    let mut shared = wok_core::world::UnsafeMutState::new(wok_core::world::UnsafeWorldState::new(state));
    shared.insert_resource(ResourceId(1), 5);
    assert_eq!(shared.as_read().get_resource(ResourceId(1)), Some(&5));
    assert_eq!(*shared.as_read().resource_handle(ResourceId(1)).unwrap().get(), 5);
    assert_eq!(shared.try_take_resource(ResourceId(1)), Some(5));
    assert_eq!(shared.as_read().get_resource(ResourceId(1)), None);
}

fn assert_send<T: Send + Sync + 'static>() {}

#[test]
fn world_world_is_send() {
    assert_send::<World<u32>>();
    assert_send::<SystemLocks>();
}

#[test]
fn resources_refuse_writes_and_takes_while_a_reader_is_alive() {
    let mut res: Resources<&str> = Resources::new();
    res.insert(ResourceId(1), "a");
    let reader = res.handle(ResourceId(1)).unwrap();
    assert!(res.handle_mut(ResourceId(1)).is_none());
    assert_eq!(*res.handle_ref(ResourceId(1)).unwrap().get(), "a");
    assert_eq!(res.try_take(ResourceId(1)), None);
    assert!(res.handle_ref(ResourceId(1)).is_none());
    assert_eq!(*reader.get(), "a");
    res.insert(ResourceId(2), "b");
    *res.handle_mut(ResourceId(2)).unwrap().0 = "c";
    assert_eq!(res.try_take(ResourceId(2)), Some("c"));
}

#[test]
fn local_resources_give_back_what_was_stored() {
    let mut res: LocalResources<&str> = LocalResources::new();
    res.insert(ResourceId(1), "a");
    res.insert(ResourceId(2), "b");
    res.insert(ResourceId(1), "c");
    assert_eq!(res.try_take(ResourceId(1)), Some("c"));
    assert!(res.get_mut(ResourceId(1)).is_none());
    assert_eq!(res.try_take(ResourceId(1)), None);
    assert_eq!(res.get(ResourceId(2)), Some(&"b"));
    assert_eq!(res.try_take(ResourceId(9)), None);
}
