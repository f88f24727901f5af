use voxel_server::scheduler::{Scheduler, Task, SAVE_INTERVAL};
use voxel_server::world_command::WorldCommand;

fn save_commands() -> Vec<WorldCommand> {
    vec![WorldCommand::SystemMessage { message: String::from("World Saved.") }, WorldCommand::Save]
}

#[test]
fn new_scheduler_is_empty() {
    let scheduler = Scheduler::new();
    assert!(scheduler.tasks.is_empty());
    assert!(scheduler.tick(0).is_empty());
}

#[test]
fn default_schedule_saves_every_thirty_seconds() {
    let mut scheduler = Scheduler::new();
    scheduler.schedule_all_default();
    assert_eq!(SAVE_INTERVAL, 30);
    assert_eq!(scheduler.tasks.len(), 1);
    assert_eq!(scheduler.tasks[&30], Task::SaveWorld);
    assert_eq!(scheduler.tick(0), save_commands());
    assert_eq!(scheduler.tick(30), save_commands());
    assert_eq!(scheduler.tick(60), save_commands());
    assert!(scheduler.tick(1).is_empty());
    assert!(scheduler.tick(29).is_empty());
    assert!(scheduler.tick(31).is_empty());
    assert_eq!(scheduler.tick(4_294_967_280), save_commands());
    assert!(scheduler.tick(u32::MAX).is_empty());
}

#[test]
fn schedule_replaces_the_task_of_an_interval() {
    let mut scheduler = Scheduler::new();
    scheduler.schedule(5, Task::SaveWorld);
    scheduler.schedule(5, Task::SaveWorld);
    assert_eq!(scheduler.tasks.len(), 1);
    assert_eq!(scheduler.tick(10), save_commands());
}

#[test]
fn every_task_that_is_due_fires() {
    let mut scheduler = Scheduler::new();
    scheduler.schedule(2, Task::SaveWorld);
    scheduler.schedule(3, Task::SaveWorld);
    let mut twice = save_commands();
    twice.extend(save_commands());
    assert_eq!(scheduler.tick(6), twice);
    assert_eq!(scheduler.tick(4), save_commands());
    assert_eq!(scheduler.tick(9), save_commands());
    assert!(scheduler.tick(7).is_empty());
}

#[test]
fn an_interval_of_zero_never_fires() {
    let mut scheduler = Scheduler::new();
    scheduler.schedule(0, Task::SaveWorld);
    assert!(scheduler.tick(0).is_empty());
    assert!(scheduler.tick(1).is_empty());
    assert!(scheduler.tick_in_order(0, &vec![0, 0]).is_empty());
}

#[test]
fn tick_in_order_follows_the_order() {
    let mut scheduler = Scheduler::new();
    scheduler.schedule(1, Task::SaveWorld);
    scheduler.schedule(4, Task::SaveWorld);
    assert_eq!(scheduler.tick_in_order(3, &vec![4, 1]), save_commands());
    assert_eq!(scheduler.tick_in_order(12, &vec![4, 3, 1]), [save_commands(), save_commands()].concat());
    assert!(scheduler.tick_in_order(12, &vec![2, 3, 6]).is_empty());
    assert_eq!(scheduler.tick_in_order(8, &vec![4]), save_commands());
    assert!(scheduler.tick_in_order(8, &vec![]).is_empty());
}

#[test]
fn run_gives_the_commands_of_a_task() {
    assert_eq!(Scheduler::run(Task::SaveWorld), save_commands());
}
