//! The table of periodic tasks. Once a second the program asks which
//! commands are due and puts them on the command queue.

use crate::walk;
use crate::walk::is_walk;
use crate::world_command::{CommandView, WorldCommand};
use std::collections::HashMap;
use vstd::prelude::*;

verus! {

broadcast use vstd::std_specs::hash::group_hash_axioms;

/// Seconds between two saves of the world.
pub const SAVE_INTERVAL: u32 = 30;

/// What a scheduled task does.
#[derive(Clone, Copy, Debug, PartialEq, Eq, Structural)]
pub enum Task {
    /// Announce the save to the players, then save the world.
    SaveWorld,
}

/// Tasks by their interval in seconds: one task for each interval.
pub struct Scheduler {
    pub tasks: HashMap<u32, Task>,
}

/// The values of a list of commands, in order.
pub open spec fn command_views(commands: Seq<WorldCommand>) -> Seq<CommandView> {
    commands.map_values(|c: WorldCommand| c@)
}

/// The commands that a task puts on the queue.
pub open spec fn commands_of(task: Task) -> Seq<CommandView> {
    match task {
        Task::SaveWorld => seq![
            CommandView::SystemMessage { message: "World Saved."@ },
            CommandView::Save,
        ],
    }
}

/// A task fires at every tick that its interval divides. An interval of
/// zero never fires.
pub open spec fn fires(interval: u32, time: u32) -> bool {
    interval != 0 && time % interval == 0
}

/// The commands that are due at the tick `time` where the table is walked
/// in the order `order`: those of each registered task that fires, task
/// after task.
pub open spec fn due(tasks: Map<u32, Task>, time: u32, order: Seq<u32>) -> Seq<CommandView>
    decreases order.len(),
{
    if order.len() == 0 {
        seq![]
    } else {
        due(tasks, time, order.drop_last()) + if tasks.contains_key(order.last()) && fires(
            order.last(),
            time,
        ) {
            commands_of(tasks[order.last()])
        } else {
            seq![]
        }
    }
}

impl Scheduler {
    /// An empty table.
    pub fn new() -> (scheduler: Scheduler)
        ensures
            scheduler.tasks@ == Map::<u32, Task>::empty(),
    {
        Scheduler { tasks: HashMap::new() }
    }

    /// Registers the default task: a save of the world every 30 seconds.
    pub fn schedule_all_default(&mut self)
        ensures
            final(self).tasks@ == old(self).tasks@.insert(SAVE_INTERVAL, Task::SaveWorld),
    {
        self.schedule(SAVE_INTERVAL, Task::SaveWorld);
    }

    /// Registers `task` for every `time` seconds, in place of what was
    /// registered for that interval.
    pub fn schedule(&mut self, time: u32, task: Task)
        ensures
            final(self).tasks@ == old(self).tasks@.insert(time, task),
    {
        let _ = self.tasks.insert(time, task);
    }

    /// The commands that `task` puts on the queue.
    pub fn run(task: Task) -> (commands: Vec<WorldCommand>)
        ensures
            command_views(commands@) == commands_of(task),
    {
        let mut commands: Vec<WorldCommand> = Vec::new();
        match task {
            Task::SaveWorld => {
                commands.push(WorldCommand::SystemMessage { message: "World Saved.".to_owned() });
                commands.push(WorldCommand::Save);
            },
        }
        assert(command_views(commands@) =~= commands_of(task));
        commands
    }

    /// The commands that are due at the tick `time` where the table is
    /// walked in the order `order`.
    pub fn tick_in_order(&self, time: u32, order: &Vec<u32>) -> (commands: Vec<WorldCommand>)
        ensures
            command_views(commands@) == due(self.tasks@, time, order@),
    {
        let mut commands: Vec<WorldCommand> = Vec::new();
        let mut i: usize = 0;
        assert(command_views(commands@) =~= due(self.tasks@, time, order@.take(0)));
        while i < order.len()
            invariant
                i <= order.len(),
                command_views(commands@) == due(self.tasks@, time, order@.take(i as int)),
            decreases order.len() - i,
        {
            let interval: u32 = order[i];
            let ghost before = commands@;
            assert(order@.take(i + 1).drop_last() =~= order@.take(i as int));
            if interval != 0 && time % interval == 0 {
                match self.tasks.get(&interval) {
                    Some(task) => {
                        let mut fired = Scheduler::run(*task);
                        let ghost added = fired@;
                        commands.append(&mut fired);
                        assert(command_views(commands@) =~= command_views(before) + command_views(
                            added,
                        ));
                    },
                    None => {
                        assert(command_views(commands@) =~= command_views(before) + Seq::<
                            CommandView,
                        >::empty());
                    },
                }
            } else {
                assert(command_views(commands@) =~= command_views(before) + Seq::<
                    CommandView,
                >::empty());
            }
            i = i + 1;
        }
        assert(order@.take(order.len() as int) =~= order@);
        commands
    }

    /// The commands that are due at the tick `time`. The table decides in
    /// which order its tasks are taken.
    pub fn tick(&self, time: u32) -> (commands: Vec<WorldCommand>)
        ensures
            exists|order: Seq<u32>|
                #![trigger is_walk(order, self.tasks@.dom())]
                is_walk(order, self.tasks@.dom()) && command_views(commands@) == due(
                    self.tasks@,
                    time,
                    order,
                ),
    {
        let order = walk::keys(&self.tasks);
        let commands = self.tick_in_order(time, &order);
        assert(is_walk(order@, self.tasks@.dom()));
        commands
    }
}

/// The default table saves the world every 30 seconds and does nothing
/// else: at a tick that 30 divides, the announcement and then the save are
/// due; at every other tick, nothing.
pub proof fn lemma_default_schedule(time: u32, order: Seq<u32>)
    requires
        is_walk(order, Map::<u32, Task>::empty().insert(SAVE_INTERVAL, Task::SaveWorld).dom()),
    ensures
        due(Map::<u32, Task>::empty().insert(SAVE_INTERVAL, Task::SaveWorld), time, order) == if time
            % SAVE_INTERVAL == 0 {
            seq![
                CommandView::SystemMessage { message: "World Saved."@ },
                CommandView::Save,
            ]
        } else {
            seq![]
        },
{
    let tasks = Map::<u32, Task>::empty().insert(SAVE_INTERVAL, Task::SaveWorld);
    assert(tasks.dom() =~= set![SAVE_INTERVAL]);
    walk::lemma_walk_of_one(order, SAVE_INTERVAL);
    assert(order.drop_last() =~= Seq::<u32>::empty());
    assert(due(tasks, time, order) =~= due(tasks, time, order.drop_last()) + if fires(
        SAVE_INTERVAL,
        time,
    ) {
        commands_of(Task::SaveWorld)
    } else {
        seq![]
    });
}

} // verus!
