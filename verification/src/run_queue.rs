//! The run queue of one CPU.
use vstd::prelude::*;

use crate::scheduler::{self, SchedTask, Scheduler};

verus! {

/// The ready tasks of one CPU. Its view is the ready queue from head to tail,
/// each task as its index and the ticks left of its time slice.
pub struct AxRunQueue {
    /// The CPU that this run queue belongs to.
    cpu_id: usize,
    /// Number of tasks currently stored in `scheduler`'s ready queue.
    ready_tasks: usize,
    scheduler: Scheduler,
}

impl View for AxRunQueue {
    type V = Seq<(usize, isize)>;

    closed spec fn view(&self) -> Seq<(usize, isize)> {
        crate::scheduler::ready_queue(self.scheduler)
    }
}

impl AxRunQueue {
    /// The task count agrees with the ready queue.
    pub closed spec fn inv(&self) -> bool {
        self.ready_tasks == self@.len()
    }

    /// The CPU that this run queue belongs to.
    pub closed spec fn owner(&self) -> usize {
        self.cpu_id
    }

    /// A run queue without tasks.
    pub(crate) fn empty(cpu_id: usize) -> (run_queue: Self)
        ensures
            run_queue.inv(),
            run_queue.owner() == cpu_id,
            run_queue@ == Seq::<(usize, isize)>::empty(),
    {
        AxRunQueue { cpu_id, ready_tasks: 0, scheduler: scheduler::new_scheduler() }
    }

    /// A run queue that holds the CPU's gc task.
    pub(crate) fn new(cpu_id: usize, gc_task: SchedTask) -> (run_queue: Self)
        ensures
            run_queue.inv(),
            run_queue.owner() == cpu_id,
            run_queue@ == seq![crate::scheduler::sched_entry(gc_task)],
    {
        let mut run_queue = AxRunQueue::empty(cpu_id);
        run_queue.add_task(gc_task);
        assert(run_queue@ =~= seq![crate::scheduler::sched_entry(gc_task)]);
        run_queue
    }

    /// The number of tasks in the ready queue.
    pub fn ready_tasks(&self) -> (count: usize)
        requires
            self.inv(),
        ensures
            count == self@.len(),
    {
        self.ready_tasks
    }

    /// Appends a task to the ready queue.
    pub(crate) fn add_task(&mut self, task: SchedTask)
        requires
            old(self).inv(),
            old(self)@.len() < usize::MAX,
        ensures
            final(self).inv(),
            final(self).owner() == old(self).owner(),
            final(self)@ == old(self)@.push(crate::scheduler::sched_entry(task)),
    {
        scheduler::add_task(&mut self.scheduler, task);
        self.ready_tasks = self.ready_tasks + 1;
    }

    /// Puts a task that just ran back into the ready queue.
    pub(crate) fn put_prev_task(&mut self, task: SchedTask, preempt: bool)
        requires
            old(self).inv(),
            old(self)@.len() < usize::MAX,
        ensures
            final(self).inv(),
            final(self).owner() == old(self).owner(),
            final(self)@ == crate::scheduler::put_back(
                old(self)@,
                crate::scheduler::sched_entry(task),
                preempt,
            ),
    {
        scheduler::put_prev_task(&mut self.scheduler, task, preempt);
        self.ready_tasks = self.ready_tasks + 1;
    }

    /// Takes the task at the head of the ready queue.
    pub(crate) fn pick_next_task(&mut self) -> (task: Option<SchedTask>)
        requires
            old(self).inv(),
        ensures
            final(self).inv(),
            final(self).owner() == old(self).owner(),
            match task {
                Some(picked) => old(self)@.len() > 0 && crate::scheduler::sched_entry(picked)
                    == old(self)@[0] && final(self)@ == old(self)@.drop_first(),
                None => old(self)@.len() == 0 && final(self)@ == old(self)@,
            },
    {
        let task = scheduler::pick_next_task(&mut self.scheduler);
        if task.is_some() {
            self.ready_tasks = self.ready_tasks - 1;
        }
        task
    }

    /// Takes one tick off the slice of the running task; reports whether the slice
    /// is used up.
    pub(crate) fn task_tick(&mut self, current: SchedTask) -> (ticked: (SchedTask, bool))
        requires
            old(self).inv(),
        ensures
            final(self).inv(),
            final(self).owner() == old(self).owner(),
            final(self)@ == old(self)@,
            crate::scheduler::sched_entry(ticked.0) == (
                crate::scheduler::sched_entry(current).0,
                crate::scheduler::slice_after_tick(crate::scheduler::sched_entry(current).1),
            ),
            ticked.1 == (crate::scheduler::sched_entry(current).1 <= 1),
    {
        scheduler::task_tick(&mut self.scheduler, current)
    }

    /// Sets the priority of a task; reports whether that is supported.
    pub(crate) fn set_priority(&mut self, task: SchedTask, prio: isize) -> (answer: (
        SchedTask,
        bool,
    ))
        requires
            old(self).inv(),
        ensures
            final(self).inv(),
            final(self).owner() == old(self).owner(),
            final(self)@ == old(self)@,
            crate::scheduler::sched_entry(answer.0) == crate::scheduler::sched_entry(task),
            !answer.1,
    {
        scheduler::set_priority(&mut self.scheduler, task, prio)
    }
}

} // verus!
