use run_queue::handshake::{drain_step, wake_step, OwnerPhase, WakerPhase};
use run_queue::{TaskInner, TaskRole};

/// Runs the waker's and the owner's steps in the order that `schedule` gives, and
/// the rest of both behind it; counts how often the task joins a queue.
fn run(schedule: &[bool]) -> usize {
    let mut task = TaskInner::new(TaskRole::Worker);
    task.on_cpu = true;
    let mut waker = WakerPhase::Checking;
    let mut owner = OwnerPhase::Publishing;
    let mut enqueued = 0;
    let rest = [true, true, true, true, true, false, false, false];
    for waker_turn in schedule.iter().chain(rest.iter()) {
        let enqueues = if *waker_turn {
            waker == WakerPhase::Enqueueing
        } else {
            owner == OwnerPhase::Enqueueing
        };
        if enqueues {
            assert!(!task.on_cpu, "the context is not saved yet");
            enqueued += 1;
        }
        if *waker_turn {
            waker = wake_step(waker, &mut task);
        } else {
            owner = drain_step(owner, &mut task);
        }
    }
    assert_eq!((waker, owner), (WakerPhase::Done, OwnerPhase::Done));
    assert!(!task.wake_stashed);
    enqueued
}

#[test]
fn every_interleaving_enqueues_once() {
    for bits in 0..256u32 {
        let schedule: Vec<bool> = (0..8).map(|i| bits >> i & 1 == 1).collect();
        assert_eq!(run(&schedule), 1, "schedule {:?}", schedule);
    }
}
