use wok_core::access::{AccessMode, SystemLock};
use wok_core::commands::{Command, Commands, InsertResource, commands};
use wok_core::dependency_graph::build_sequencial_graph;
use wok_core::meta::{SystemId, SystemsRw};
use wok_core::param::{Param, Res, ResMut};
use wok_core::resources::{Resource, ResourceId};
use wok_core::system::FunctionSystem;
use wok_core::gateway::WorldMut;
use wok_core::world::World;

struct MyResA;
impl Resource for MyResA {
    const ID: ResourceId = ResourceId(1);
}

struct MyResB;
impl Resource for MyResB {
    const ID: ResourceId = ResourceId(2);
}

#[test]
fn builds() {
    let mut rws = SystemsRw::default();

    let a = rws.add({
        let mut locks = SystemLock::default();
        <ResMut<'static, MyResA> as Param>::init(&mut locks);

        locks
    });

    let b = rws.add({
        let mut locks = SystemLock::default();
        <(Res<'static, MyResA>, ResMut<'static, MyResB>) as Param>::init(&mut locks);

        locks
    });

    let c = rws.add({
        let mut locks = SystemLock::default();
        <Res<'static, MyResB> as Param>::init(&mut locks);

        locks
    });

    let graph = build_sequencial_graph(&[a, b, c], &rws).unwrap();
    assert_eq!(graph.get_dependencies(a), None);
    assert_eq!(graph.get_dependencies(b), Some(&[a][..]));
    assert_eq!(graph.get_dependencies(c), Some(&[b][..]));
}

#[test]
fn registrations_get_distinct_ids_and_keep_earlier_locks() {
    let mut world: World<u32> = World::new();
    let first = world.register_system(FunctionSystem::<ResMut<'static, MyResA>, u8>::new(1));
    let second = world.register_system(FunctionSystem::<Res<'static, MyResB>, u8>::new(2));
    assert_eq!(first.id, SystemId(0));
    assert_eq!(second.id, SystemId(1));
    assert_ne!(first.id, second.id);
    assert_eq!(second.system.func, 2);
    let rws = &world.center.system_locks.systems_rw;
    assert_eq!(rws.len(), 2);
    assert_eq!(rws.get(first.id).unwrap().entries(), &[(ResourceId(1), AccessMode::Write)][..]);
    assert_eq!(rws.get(second.id).unwrap().entries(), &[(ResourceId(2), AccessMode::Read)][..]);
    assert!(world.center.system_locks.is_all_free());
}

#[test]
fn added_commands_are_received_in_order() {
    let (mut sender, mut receiver) = commands::<u32>();
    {
        let mut cmds = Commands::new(&mut sender);
        cmds.insert_resource(ResourceId(1), 10);
        cmds.insert_resource(ResourceId(2), 20);
        cmds.add(Command::InsertResource(InsertResource { id: ResourceId(1), value: 11 }));
    }
    let received = receiver.recv(&mut sender);
    let ids: Vec<(u64, u32)> = received
        .into_iter()
        .map(|c| match c {
            Command::InsertResource(i) => (i.id.0, i.value),
        })
        .collect();
    assert_eq!(ids, vec![(1, 10), (2, 20), (1, 11)]);
    assert!(receiver.recv(&mut sender).is_empty());
}

#[test]
fn world_mut_gets_the_state_only_while_the_accesses_are_free() {
    let mut world: World<u32> = World::new();
    let writer = world.center.system_locks.systems_rw.add({
        let mut locks = SystemLock::default();
        <ResMut<'static, MyResA> as Param>::init(&mut locks);
        locks
    });
    let mut wm = WorldMut::new(&mut world.state, &mut world.center.system_locks);
    assert!(wm.get::<Res<'static, MyResA>>().is_some());
    wm.locks.try_lock(writer).unwrap();
    assert!(wm.get::<Res<'static, MyResA>>().is_none());
    assert!(wm.get::<Res<'static, MyResB>>().is_some());
    wm.release(writer);
    assert!(wm.get::<ResMut<'static, MyResA>>().is_some());
    assert!(wm.locks.is_all_free());
    wm.release(SystemId(9));
    assert!(wm.locks.is_all_free());
}
