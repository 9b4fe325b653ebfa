use vstd::prelude::*;

use crate::access::{AccessMode, SystemLock};
use crate::param::Param;
use crate::resources::{ResourceId, Resources};

verus! {

/// Stores a resource in the world when applied.
pub struct InsertResource<V> {
    pub id: ResourceId,
    pub value: V,
}

/// A deferred change to the world's resources.
pub enum Command<V> {
    InsertResource(InsertResource<V>),
}

/// The resources after applying `command` to `resources`.
pub open spec fn command_effect<V>(resources: Map<u64, V>, command: Command<V>) -> Map<u64, V> {
    match command {
        Command::InsertResource(insert) => resources.insert(insert.id.0, insert.value),
    }
}

/// The resources after applying `commands` in order.
pub open spec fn commands_effect<V>(resources: Map<u64, V>, commands: Seq<Command<V>>) -> Map<
    u64,
    V,
>
    decreases commands.len(),
{
    if commands.len() == 0 {
        resources
    } else {
        command_effect(commands_effect(resources, commands.drop_last()), commands.last())
    }
}

impl<V> Command<V> {
    pub fn apply(self, resources: &mut Resources<V>)
        requires
            old(resources).wf(),
        ensures
            final(resources).wf(),
            final(resources)@ == command_effect(old(resources)@, self),
    {
        match self {
            Command::InsertResource(insert) => resources.insert(insert.id, insert.value),
        }
    }
}

/// The sending end of the world's command queue.
pub struct CommandSender<V> {
    queue: Vec<Command<V>>,
}

/// The receiving end of the world's command queue.
pub struct CommandsReceiver;

/// A fresh, empty command queue.
pub fn commands<V>() -> (r: (CommandSender<V>, CommandsReceiver))
    ensures
        r.0.pending() == Seq::<Command<V>>::empty(),
{
    (CommandSender { queue: Vec::new() }, CommandsReceiver)
}

impl<V> CommandSender<V> {
    /// The commands sent and not yet received, oldest first.
    pub closed spec fn pending(&self) -> Seq<Command<V>> {
        self.queue@
    }

    pub fn send(&mut self, command: Command<V>)
        ensures
            final(self).pending() == old(self).pending().push(command),
    {
        self.queue.push(command);
    }
}

impl CommandsReceiver {
    /// Takes every pending command, oldest first.
    pub fn recv<V>(&mut self, sender: &mut CommandSender<V>) -> (r: Vec<Command<V>>)
        ensures
            r@ == old(sender).pending(),
            final(sender).pending() == Seq::<Command<V>>::empty(),
    {
        let mut taken: Vec<Command<V>> = Vec::new();
        std::mem::swap(&mut taken, &mut sender.queue);
        taken
    }
}

/// A system's handle for sending commands to the world.
pub struct Commands<'s, V> {
    pub sender: &'s mut CommandSender<V>,
}

impl<'s, V> Commands<'s, V> {
    /// A handle sending through `sender`: once the handle is dropped, the
    /// sender holds what was pending through the handle at its end.
    pub fn new(sender: &'s mut CommandSender<V>) -> (c: Commands<'s, V>)
        ensures
            c.pending() == old(sender).pending(),
            *final(sender) == *final(c.sender),
    {
        Commands { sender }
    }

    pub closed spec fn pending(&self) -> Seq<Command<V>> {
        self.sender.pending()
    }

    pub fn add(&mut self, command: Command<V>)
        ensures
            final(self).pending() == old(self).pending().push(command),
    {
        self.sender.send(command);
    }

    pub fn insert_resource(&mut self, id: ResourceId, value: V)
        ensures
            final(self).pending() == old(self).pending().push(
                Command::InsertResource(InsertResource { id, value }),
            ),
    {
        self.add(Command::InsertResource(InsertResource { id, value }));
    }
}

/// Sending commands takes no access to any resource.
impl<'s, V> Param for Commands<'s, V> {
    open spec fn init_ok(s: Seq<(ResourceId, AccessMode)>) -> bool {
        true
    }

    open spec fn registered(s: Seq<(ResourceId, AccessMode)>) -> Seq<(ResourceId, AccessMode)> {
        s
    }

    fn init(rw: &mut SystemLock) {
    }
}

/// The pending commands after each command of `sent` was added, one after
/// the other, to a queue holding `pending`.
pub open spec fn after_adds<V>(pending: Seq<Command<V>>, sent: Seq<Command<V>>) -> Seq<Command<V>>
    decreases sent.len(),
{
    if sent.len() == 0 {
        pending
    } else {
        after_adds(pending, sent.drop_last()).push(sent.last())
    }
}

/// Commands added one after the other (through `Commands::add` or
/// `CommandSender::send`, each of which pushes onto the pending commands) are
/// all received together by `CommandsReceiver::recv`, in the order they were
/// added, after those that were already waiting; from a fresh queue,
/// receiving gives back exactly the commands added.
pub proof fn law_adds_received_in_order<V>(pending: Seq<Command<V>>, sent: Seq<Command<V>>)
    ensures
        after_adds(pending, sent) == pending + sent,
        after_adds(Seq::<Command<V>>::empty(), sent) == sent,
    decreases sent.len(),
{
    if sent.len() > 0 {
        law_adds_received_in_order(pending, sent.drop_last());
        assert((pending + sent.drop_last()).push(sent.last()) =~= pending + sent);
        assert((Seq::<Command<V>>::empty() + sent.drop_last()).push(sent.last()) =~= sent);
    } else {
        assert(pending + sent =~= pending);
    }
}

/// Commands take effect in the order they were sent: a later insert of the
/// same resource wins, and inserts of different resources do not interfere.
pub proof fn law_later_insert_wins<V>(resources: Map<u64, V>, id: ResourceId, first: V, second: V)
    ensures
        commands_effect(
            resources,
            seq![
                Command::InsertResource(InsertResource { id, value: first }),
                Command::InsertResource(InsertResource { id, value: second }),
            ],
        ) == resources.insert(id.0, second),
{
    let cmds = seq![
        Command::InsertResource(InsertResource { id, value: first }),
        Command::InsertResource(InsertResource { id, value: second }),
    ];
    assert(cmds.drop_last().drop_last() =~= Seq::<Command<V>>::empty());
    assert(cmds.drop_last() =~= seq![Command::InsertResource(InsertResource { id, value: first })]);
    reveal_with_fuel(commands_effect, 3);
    assert(commands_effect(resources, cmds.drop_last()) == resources.insert(id.0, first));
    assert(commands_effect(resources, cmds) =~= resources.insert(id.0, second));
}

} // verus!
