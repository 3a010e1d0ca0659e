//! The round-robin ready queue of the `ax-sched` crate.
//!
//! A task enters the queue as an `ax_sched::RRTask` that wraps the task's index
//! in the task table and carries the rest of its time slice. The queue owns the
//! wrapper while the task waits in it; at any other time the task table does.
use std::sync::Arc;

use ax_sched::BaseScheduler;
use vstd::prelude::*;

verus! {

/// The number of timer ticks in a full time slice.
pub const MAX_TIME_SLICE: usize = 5;

/// The type `ax_sched::RRTask`, whose contents [`sched_entry`] names.
#[verifier::external_type_specification]
#[verifier::external_body]
#[verifier::reject_recursive_types(T)]
pub struct ExRRTask<T, const S: usize>(ax_sched::RRTask<T, S>);

/// The type `ax_sched::RRScheduler`, whose contents [`ready_queue`] names.
#[verifier::external_type_specification]
#[verifier::external_body]
#[verifier::reject_recursive_types(T)]
pub struct ExRRScheduler<T, const S: usize>(ax_sched::RRScheduler<T, S>);

/// The wrapper of a task outside the ready queue.
pub type SchedTask = ax_sched::RRTask<usize, MAX_TIME_SLICE>;

/// The ready queue of one CPU.
pub type Scheduler = ax_sched::RRScheduler<usize, MAX_TIME_SLICE>;

/// The task index that a wrapper holds, and the ticks left of its time slice.
pub uninterp spec fn sched_entry(task: ax_sched::RRTask<usize, MAX_TIME_SLICE>) -> (usize, isize);

/// The tasks in a ready queue from head to tail, each as its index and the
/// ticks left of its time slice.
pub uninterp spec fn ready_queue(
    scheduler: ax_sched::RRScheduler<usize, MAX_TIME_SLICE>,
) -> Seq<(usize, isize)>;

/// The ticks left after one more tick; the counter wraps at its lower end.
pub open spec fn slice_after_tick(slice: isize) -> isize {
    if slice == isize::MIN {
        isize::MAX
    } else {
        (slice - 1) as isize
    }
}

/// The queue after a task that just ran is put back: a preempted task that has
/// time left keeps it and goes to the head; any other task gets a full slice
/// and goes to the tail.
pub open spec fn put_back(
    ready: Seq<(usize, isize)>,
    entry: (usize, isize),
    preempt: bool,
) -> Seq<(usize, isize)> {
    if entry.1 > 0 && preempt {
        seq![entry] + ready
    } else {
        ready.push((entry.0, MAX_TIME_SLICE as isize))
    }
}

/// Calls `ax_sched::RRTask::new`, which wraps the index with a full time slice.
#[verifier::external_body]
pub(crate) fn new_sched_task(index: usize) -> (task: SchedTask)
    ensures
        sched_entry(task) == (index, MAX_TIME_SLICE as isize),
{
    ax_sched::RRTask::new(index)
}

/// Calls `ax_sched::RRTask::inner`, which gives the wrapped index.
#[verifier::external_body]
pub(crate) fn sched_task_index(task: &SchedTask) -> (index: usize)
    ensures
        index == sched_entry(*task).0,
{
    *task.inner()
}

/// Calls `ax_sched::RRScheduler::new`, which makes an empty queue.
#[verifier::external_body]
pub(crate) fn new_scheduler() -> (scheduler: Scheduler)
    ensures
        ready_queue(scheduler) == Seq::<(usize, isize)>::empty(),
{
    ax_sched::RRScheduler::new()
}

/// Calls `add_task` of `ax_sched::RRScheduler`, which appends the task with the
/// time slice that it has. The task is owned, so it is in no queue yet.
#[verifier::external_body]
pub(crate) fn add_task(scheduler: &mut Scheduler, task: SchedTask)
    requires
        ready_queue(*old(scheduler)).len() < usize::MAX,
    ensures
        ready_queue(*final(scheduler)) == ready_queue(*old(scheduler)).push(sched_entry(task)),
{
    scheduler.add_task(Arc::new(task));
}

/// Calls `put_prev_task` of `ax_sched::RRScheduler`, which puts a task that
/// just ran back into the queue. The task is owned, so it is in no queue yet.
#[verifier::external_body]
pub(crate) fn put_prev_task(scheduler: &mut Scheduler, task: SchedTask, preempt: bool)
    requires
        ready_queue(*old(scheduler)).len() < usize::MAX,
    ensures
        ready_queue(*final(scheduler)) == put_back(
            ready_queue(*old(scheduler)),
            sched_entry(task),
            preempt,
        ),
{
    scheduler.put_prev_task(Arc::new(task), preempt);
}

/// Calls `pick_next_task` of `ax_sched::RRScheduler`, which takes the task at
/// the head of the queue. The queue held the only reference to it.
#[verifier::external_body]
pub(crate) fn pick_next_task(scheduler: &mut Scheduler) -> (task: Option<SchedTask>)
    ensures
        match task {
            Some(picked) => ready_queue(*old(scheduler)).len() > 0 && sched_entry(picked)
                == ready_queue(*old(scheduler))[0] && ready_queue(*final(scheduler))
                == ready_queue(*old(scheduler)).drop_first(),
            None => ready_queue(*old(scheduler)).len() == 0 && ready_queue(*final(scheduler))
                == ready_queue(*old(scheduler)),
        },
{
    scheduler.pick_next_task().and_then(Arc::into_inner)
}

/// Calls `task_tick` of `ax_sched::RRScheduler`, which takes one tick off the
/// running task's slice, leaves the queue alone, and reports whether the slice
/// is used up.
#[verifier::external_body]
pub(crate) fn task_tick(scheduler: &mut Scheduler, current: SchedTask) -> (ticked: (SchedTask, bool))
    ensures
        ready_queue(*final(scheduler)) == ready_queue(*old(scheduler)),
        sched_entry(ticked.0) == (
            sched_entry(current).0,
            slice_after_tick(sched_entry(current).1),
        ),
        ticked.1 == (sched_entry(current).1 <= 1),
{
    let current = Arc::new(current);
    let expired = scheduler.task_tick(&current);
    (Arc::into_inner(current).unwrap(), expired)
}

/// Calls `set_priority` of `ax_sched::RRScheduler`, which has no priorities: it
/// refuses every request and changes nothing.
#[verifier::external_body]
pub(crate) fn set_priority(scheduler: &mut Scheduler, task: SchedTask, prio: isize) -> (answer: (SchedTask, bool))
    ensures
        ready_queue(*final(scheduler)) == ready_queue(*old(scheduler)),
        sched_entry(answer.0) == sched_entry(task),
        !answer.1,
{
    let task = Arc::new(task);
    let accepted = scheduler.set_priority(&task, prio);
    (Arc::into_inner(task).unwrap(), accepted)
}

} // verus!
