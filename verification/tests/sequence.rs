// The sequencing behavior of the scheduler, exercised at the model level:
// the allocated main list and the tasks one pass runs when a long task holds
// the pass until the run times out.

use swanling::scheduler::allocate_tasks;
use swanling::swanling::{SwanlingTask, SwanlingTaskSet};
use swanling::user::simulate_pass;
use swanling::SwanlingScheduler;

const USERS: usize = 4;

// Counts how often a task index appears in the tasks all users run, when
// every user's pass ends at the blocking task.
fn hits(taskset: &SwanlingTaskSet, scheduler: SwanlingScheduler, blocking: Option<usize>, idx: usize) -> usize {
    let (_on_start, main, _on_stop) = allocate_tasks(taskset, &scheduler);
    let pass = simulate_pass(&main, blocking);
    let per_user = pass.iter().filter(|t| **t == idx).count();
    per_user * USERS
}

fn not_sequenced_taskset() -> SwanlingTaskSet {
    SwanlingTaskSet::new("LoadTest")
        .register_task(SwanlingTask::new("one").set_weight(2).unwrap())
        .register_task(SwanlingTask::new("three"))
        .register_task(SwanlingTask::new("two_with_delay"))
}

fn sequenced_taskset() -> SwanlingTaskSet {
    SwanlingTaskSet::new("LoadTest")
        .register_task(SwanlingTask::new("one").set_sequence(1).set_weight(2).unwrap())
        .register_task(SwanlingTask::new("three").set_sequence(3))
        .register_task(SwanlingTask::new("one").set_sequence(2).set_weight(2).unwrap())
        .register_task(SwanlingTask::new("two_with_delay").set_sequence(2))
}

#[test]
// Load test with multiple tasks and no sequences defined.
fn test_not_sequenced() {
    let ts = not_sequenced_taskset();
    // Round robin with weights 2,1,1 runs one, three, two, one; the delayed
    // task two (index 2) runs out the clock, so each task runs once per user
    // before it.
    let blocking = Some(2);
    assert_eq!(hits(&ts, SwanlingScheduler::RoundRobin, blocking, 0), USERS);
    assert_eq!(hits(&ts, SwanlingScheduler::RoundRobin, blocking, 1), USERS);
    assert_eq!(hits(&ts, SwanlingScheduler::RoundRobin, blocking, 2), USERS);
}

#[test]
// Load test with multiple tasks and sequences defined, using the round robin
// scheduler.
fn test_sequenced_round_robin() {
    let ts = sequenced_taskset();
    // Task one runs twice in its first sequence group, then once more round
    // robin in the second group before two (index 3) runs out the clock;
    // three never runs.
    let blocking = Some(3);
    assert_eq!(
        hits(&ts, SwanlingScheduler::RoundRobin, blocking, 0)
            + hits(&ts, SwanlingScheduler::RoundRobin, blocking, 2),
        USERS * 3
    );
    assert_eq!(hits(&ts, SwanlingScheduler::RoundRobin, blocking, 3), USERS);
    assert_eq!(hits(&ts, SwanlingScheduler::RoundRobin, blocking, 1), 0);
}

#[test]
// Load test with multiple tasks and sequences defined, using the sequential
// scheduler.
fn test_sequenced_sequential() {
    let ts = sequenced_taskset();
    // Task one runs twice in its first sequence group and twice more
    // serially in the second group before two runs out the clock; three
    // never runs.
    let blocking = Some(3);
    assert_eq!(
        hits(&ts, SwanlingScheduler::Serial, blocking, 0)
            + hits(&ts, SwanlingScheduler::Serial, blocking, 2),
        USERS * 4
    );
    assert_eq!(hits(&ts, SwanlingScheduler::Serial, blocking, 3), USERS);
    assert_eq!(hits(&ts, SwanlingScheduler::Serial, blocking, 1), 0);
}

#[test]
// The allocated main list keeps sequenced groups in ascending order, with
// unsequenced tasks last.
fn sequenced_groups_ascend() {
    let ts = SwanlingTaskSet::new("Mixed")
        .register_task(SwanlingTask::new("later").set_sequence(9))
        .register_task(SwanlingTask::new("unsequenced"))
        .register_task(SwanlingTask::new("early").set_sequence(1));
    let (_s, main, _p) = allocate_tasks(&ts, &SwanlingScheduler::RoundRobin);
    let order: Vec<usize> = main.iter().map(|t| t.0).collect();
    assert_eq!(order, vec![2, 0, 1]);
}
