//! Scheduling operations on the run queue of the CPU that performs them.
use std::collections::VecDeque;

use vstd::prelude::*;

use crate::dispatch::{clear_remote_reschedule_pending_for_current_cpu, ContextSwitch};
use crate::model::SystemModel;
use crate::system::{CpuInner, System};
use crate::task::{TaskInner, TaskRole, TaskState};

verus! {

/// A reference to the current run queue, in which scheduling operations can be
/// performed.
#[derive(Clone, Copy, Debug, PartialEq, Eq)]
pub struct CurrentRunQueueRef {
    /// The CPU that performs the operations.
    pub cpu_id: usize,
    /// The task that the CPU runs.
    pub current_task: usize,
}

/// What to do next for a task that exits.
#[derive(Clone, Copy, Debug, PartialEq, Eq, Structural)]
pub enum ExitAction {
    /// The main task has exited: switch the machine off.
    SystemOff,
    /// Notify those who wait for the task, with its exit code; then go on with
    /// [`CurrentRunQueueRef::retire_current`].
    NotifyExit(i32),
    /// Wake up the gc task of this CPU, which drops exited tasks; then
    /// reschedule.
    NotifyGc(usize),
}

impl SystemModel {
    /// Task `t` is in state `state`.
    pub open spec fn in_state(self, t: usize, state: TaskState) -> Self {
        self.with_task(t, TaskInner { state, ..self.task(t) })
    }

    /// CPU `c` puts its current task `t` back into its run queue, unless that is
    /// the idle task, and goes on with the next task.
    pub open spec fn rotated(self, c: usize, t: usize, preempt: bool) -> Self {
        self.put(c, t, TaskState::Running, preempt, c).rescheduled(c)
    }

    /// CPU `c` leaves its current task `t` ready and in no run queue, and goes on
    /// with the task `migration`, which is to move task `t`.
    pub open spec fn handed_over(self, c: usize, t: usize, migration: usize) -> Self {
        self.in_state(t, TaskState::Ready).switched(c, migration)
    }

    /// CPU `c` creates a task that is to move its current task `t`, and hands
    /// task `t` over to it.
    pub open spec fn sent_away(self, c: usize, t: usize) -> Self {
        self.spawned(TaskInner::fresh(TaskRole::Migration(t))).handed_over(
            c,
            t,
            self.tasks.len() as usize,
        )
    }

    /// CPU `c` gives up its current task `t`. A task that may stay on the CPU
    /// goes back into its run queue. One whose affinity forbids it is left to a
    /// new task that moves it.
    pub open spec fn gave_up(self, c: usize, t: usize, preempt: bool) -> Self {
        if self.task(t).cpumask.has(c) {
            self.rotated(c, t, preempt)
        } else {
            self.sent_away(c, t)
        }
    }

    /// CPU `c` gives up its current task `t` if preemption is disabled by `count`
    /// guards; else the task is noted to give way later.
    pub open spec fn forced(self, c: usize, t: usize, count: usize) -> Self {
        if self.task(t).preempt_disable_count == count {
            self.gave_up(c, t, false)
        } else {
            self.with_task(t, TaskInner { force_resched_pending: true, ..self.task(t) })
        }
    }

    /// The current task `t` is blocked, with an entry in a wait queue.
    pub open spec fn waiting(self, t: usize) -> Self {
        self.with_task(
            t,
            TaskInner { state: TaskState::Blocked, in_wait_queue: true, ..self.task(t) },
        )
    }

    /// CPU `c` runs a task and has completed the switch to it.
    pub open spec fn interruptible(self, c: usize) -> bool {
        &&& self.has_cpu(c)
        &&& self.cpu(c).initialized
        &&& self.cpu(c).prev is None
        &&& self.task(self.cpu(c).current.unwrap()).state == TaskState::Running
    }

    /// No request to reschedule is pending at CPU `c`.
    pub open spec fn delivered(self, c: usize) -> Self {
        self.with_cpu(c, CpuInner { reschedule_pending: false, ..self.cpu(c) })
    }
}

impl CurrentRunQueueRef {
    /// The reference is of an initialized CPU and of the task that it runs.
    pub open spec fn is_current(self, m: SystemModel) -> bool {
        m.runs(self.cpu_id, self.current_task)
    }

    /// The referenced task runs, and the switch to it is complete.
    pub open spec fn is_running(self, m: SystemModel) -> bool {
        &&& self.is_current(m)
        &&& m.task(self.current_task).state == TaskState::Running
        &&& m.cpu(self.cpu_id).prev is None
    }
}

/// Returns a reference to the run queue of `this_cpu`.
pub fn current_run_queue(system: &System, this_cpu: usize) -> (run_queue: CurrentRunQueueRef)
    requires
        system.wf(),
        system@.has_cpu(this_cpu),
        system@.cpu(this_cpu).initialized,
    ensures
        run_queue.is_current(system@),
        run_queue.cpu_id == this_cpu,
{
    CurrentRunQueueRef { cpu_id: this_cpu, current_task: system.current_task(this_cpu) }
}

impl CurrentRunQueueRef {
    /// Unblocks task `t` by inserting it into the current CPU's run queue. See
    /// [`crate::AxRunQueueRef::unblock_task`].
    pub fn unblock_task(&self, system: &mut System, t: usize, resched: bool)
        requires
            old(system).wf(),
            self.is_current(old(system)@),
            old(system)@.has_task(t),
        ensures
            final(system).wf(),
            final(system)@ == old(system)@.unblocked(self.cpu_id, t, resched, self.cpu_id),
    {
        let c = self.cpu_id;
        if system.put_task_with_state(c, t, TaskState::Blocked, false, c) && resched {
            assert(system@.cpu(c) == old(system)@.cpu(c));
            system.set_preempt_pending(self.current_task, true);
        }
    }

    /// Counts one tick of the current task's time slice; notes that the task is
    /// to be preempted when the slice is used up. An idle task has no slice.
    pub fn scheduler_timer_tick(&self, system: &mut System)
        requires
            old(system).wf(),
            self.is_current(old(system)@),
            old(system)@.slice(self.current_task) is Some,
        ensures
            final(system).wf(),
            final(system)@ == ({
                let t = self.current_task;
                let ticks = old(system)@.slice(t).unwrap();
                let ticked = old(system)@.with_slice(
                    t,
                    Some(crate::scheduler::slice_after_tick(ticks)),
                );
                if old(system)@.task(t).idle() {
                    old(system)@
                } else if ticks <= 1 {
                    ticked.preemption_requested(t)
                } else {
                    ticked
                }
            }),
    {
        let t = self.current_task;
        if system.task(t).is_idle() {
            return;
        }
        proof {
            crate::model::lemma_ticked(
                system@,
                t,
                crate::scheduler::slice_after_tick(system@.slice(t).unwrap()),
            );
        }
        if system.tick(self.cpu_id, t) {
            system.set_preempt_pending(t, true);
        }
    }

    /// Puts the current task back into the run queue, or leaves it to a new
    /// migration task, and reschedules.
    fn give_up(&self, system: &mut System, preempt: bool) -> (switch: Option<ContextSwitch>)
        requires
            old(system).wf(),
            self.is_running(old(system)@),
            old(system)@.tasks.len() + 1 < usize::MAX,
        ensures
            final(system).wf(),
            final(system)@ == old(system)@.gave_up(self.cpu_id, self.current_task, preempt),
            switch == old(system)@.context_switch(self.cpu_id, final(system)@),
    {
        let c = self.cpu_id;
        let t = self.current_task;
        if !system.task(t).cpumask.get(c) {
            return self.migrate_current_to_affinity(system);
        }
        system.put_task_with_state(c, t, TaskState::Running, preempt, c);
        assert(system@.cpu(c) == old(system)@.cpu(c));
        system.resched(c)
    }

    /// Yields the current task and reschedules.
    pub fn yield_current(&self, system: &mut System) -> (switch: Option<ContextSwitch>)
        requires
            old(system).wf(),
            self.is_running(old(system)@),
            old(system)@.tasks.len() + 1 < usize::MAX,
        ensures
            final(system).wf(),
            final(system)@ == old(system)@.gave_up(self.cpu_id, self.current_task, false),
            switch == old(system)@.context_switch(self.cpu_id, final(system)@),
    {
        self.give_up(system, false)
    }

    /// Hands the current task over to task `migration_task`, which is to move it
    /// to a run queue that its affinity allows, and switches to that task
    /// immediately. The current task is ready, but in no run queue, until the
    /// migration task inserts it into one.
    pub fn migrate_current(&self, system: &mut System, migration_task: usize) -> (switch: Option<
        ContextSwitch,
    >)
        requires
            old(system).wf(),
            self.is_running(old(system)@),
            old(system)@.is_free(migration_task),
        ensures
            final(system).wf(),
            final(system)@ == old(system)@.handed_over(
                self.cpu_id,
                self.current_task,
                migration_task,
            ),
            switch == old(system)@.context_switch(self.cpu_id, final(system)@),
    {
        let t = self.current_task;
        assert(system@.holds(self.cpu_id as int, t));
        let mut info = system.task(t);
        info.state = TaskState::Ready;
        proof {
            crate::model::lemma_unqueued(system@, t);
            crate::model::lemma_with_task(system@, t, info);
        }
        system.set_task(t, info);
        system.switch_to(self.cpu_id, migration_task)
    }

    /// Creates a task that moves the current task to where its affinity allows,
    /// and hands the current task over to it.
    fn migrate_current_to_affinity(&self, system: &mut System) -> (switch: Option<ContextSwitch>)
        requires
            old(system).wf(),
            self.is_running(old(system)@),
            old(system)@.tasks.len() + 1 < usize::MAX,
        ensures
            final(system).wf(),
            final(system)@ == old(system)@.sent_away(self.cpu_id, self.current_task),
            switch == old(system)@.context_switch(self.cpu_id, final(system)@),
    {
        let info = TaskInner::new(TaskRole::Migration(self.current_task));
        let migration_task = system.spawn(info);
        assert(system@.task(self.current_task) == old(system)@.task(self.current_task));
        self.migrate_current(system, migration_task)
    }

    /// Preempts the current task and reschedules, with preemption disabled by one
    /// guard, the caller's. If another guard keeps it disabled, the task is noted
    /// to be preempted later.
    pub fn preempt_resched(&self, system: &mut System) -> (switch: Option<ContextSwitch>)
        requires
            old(system).wf(),
            self.is_running(old(system)@),
            old(system)@.tasks.len() + 1 < usize::MAX,
        ensures
            final(system).wf(),
            final(system)@ == if old(system)@.task(self.current_task).preempt_disable_count == 1 {
                old(system)@.gave_up(self.cpu_id, self.current_task, true)
            } else {
                old(system)@.preemption_requested(self.current_task)
            },
            switch == old(system)@.context_switch(self.cpu_id, final(system)@),
    {
        // The caller's guard is the one that may be held.
        if system.task(self.current_task).can_preempt(1) {
            self.give_up(system, true)
        } else {
            system.set_preempt_pending(self.current_task, true);
            None
        }
    }

    /// Makes the current task give way to the next one, with preemption disabled
    /// by one guard, the caller's.
    pub fn force_resched(&self, system: &mut System) -> (switch: Option<ContextSwitch>)
        requires
            old(system).wf(),
            self.is_running(old(system)@),
            old(system)@.tasks.len() + 1 < usize::MAX,
        ensures
            final(system).wf(),
            final(system)@ == old(system)@.forced(self.cpu_id, self.current_task, 1),
            switch == old(system)@.context_switch(self.cpu_id, final(system)@),
    {
        self.force_resched_with_preempt_count(system, 1)
    }

    /// Makes the current task give way to the next one, if preemption is disabled
    /// by `current_disable_count` guards; notes it for later otherwise.
    pub fn force_resched_with_preempt_count(
        &self,
        system: &mut System,
        current_disable_count: usize,
    ) -> (switch: Option<ContextSwitch>)
        requires
            old(system).wf(),
            self.is_running(old(system)@),
            old(system)@.tasks.len() + 1 < usize::MAX,
        ensures
            final(system).wf(),
            final(system)@ == old(system)@.forced(
                self.cpu_id,
                self.current_task,
                current_disable_count,
            ),
            switch == old(system)@.context_switch(self.cpu_id, final(system)@),
    {
        if system.task(self.current_task).can_preempt(current_disable_count) {
            self.give_up(system, false)
        } else {
            system.set_force_resched_pending(self.current_task, true);
            None
        }
    }

    /// Makes the current task of `this_cpu` give way, from an interrupt handler,
    /// which holds no guard.
    pub fn force_resched_from_irq(system: &mut System, this_cpu: usize) -> (switch: Option<
        ContextSwitch,
    >)
        requires
            old(system).wf(),
            old(system)@.interruptible(this_cpu),
            old(system)@.tasks.len() + 1 < usize::MAX,
        ensures
            final(system).wf(),
            final(system)@ == old(system)@.forced(
                this_cpu,
                old(system)@.cpu(this_cpu).current.unwrap(),
                0,
            ),
            switch == old(system)@.context_switch(this_cpu, final(system)@),
    {
        let run_queue = current_run_queue(system, this_cpu);
        run_queue.force_resched_with_preempt_count(system, 0)
    }

    /// Exits the current task. If it is the main task, the exited tasks of this
    /// CPU are dropped and the machine is to be switched off.
    pub fn exit_current(&self, system: &mut System, exit_code: i32) -> (action: ExitAction)
        requires
            old(system).wf(),
            self.is_running(old(system)@),
            !old(system)@.task(self.current_task).idle(),
        ensures
            final(system).wf(),
            old(system)@.task(self.current_task).role == TaskRole::Main ==> {
                &&& action == ExitAction::SystemOff
                &&& final(system)@ == old(system)@.with_exited(self.cpu_id, Seq::empty())
            },
            old(system)@.task(self.current_task).role != TaskRole::Main ==> {
                &&& action == ExitAction::NotifyExit(exit_code)
                &&& final(system)@ == old(system)@.in_state(self.current_task, TaskState::Exited)
            },
    {
        let t = self.current_task;
        let mut info = system.task(t);
        if info.is_init() {
            proof {
                crate::model::lemma_unrelated(
                    system@,
                    system@.with_exited(self.cpu_id, Seq::empty()),
                );
            }
            system.clear_exited(self.cpu_id);
            return ExitAction::SystemOff;
        }
        info.state = TaskState::Exited;
        proof {
            crate::model::lemma_unqueued(system@, t);
            crate::model::lemma_with_task(system@, t, info);
        }
        system.set_task(t, info);
        ExitAction::NotifyExit(exit_code)
    }

    /// Leaves the exited current task to the gc task of this CPU, which is to be
    /// notified next; then the CPU reschedules.
    pub fn retire_current(&self, system: &mut System) -> (action: ExitAction)
        requires
            old(system).wf(),
            self.is_current(old(system)@),
            old(system)@.task(self.current_task).state == TaskState::Exited,
        ensures
            final(system).wf(),
            final(system)@ == old(system)@.with_exited(
                self.cpu_id,
                old(system)@.exited(self.cpu_id).push(self.current_task),
            ),
            action == ExitAction::NotifyGc(self.cpu_id),
    {
        proof {
            let m = system@;
            crate::model::lemma_unrelated(
                m,
                m.with_exited(self.cpu_id, m.exited(self.cpu_id).push(self.current_task)),
            );
        }
        system.push_exited(self.cpu_id, self.current_task);
        ExitAction::NotifyGc(self.cpu_id)
    }

    /// Blocks the current task, for the time until the caller reschedules.
    fn block_current(&self, system: &mut System)
        requires
            old(system).wf(),
            self.is_running(old(system)@),
            !old(system)@.task(self.current_task).idle(),
        ensures
            final(system).wf(),
            final(system)@ == old(system)@.in_state(self.current_task, TaskState::Blocked),
    {
        let mut info = system.task(self.current_task);
        info.state = TaskState::Blocked;
        proof {
            crate::model::lemma_unqueued(system@, self.current_task);
            crate::model::lemma_with_task(system@, self.current_task, info);
        }
        system.set_task(self.current_task, info);
    }

    /// Blocks the current task and puts it into the wait queue, whose lock the
    /// caller holds. The caller then releases that lock and reschedules. Since
    /// the task is blocked before it can be seen in the wait queue, a wake-up in
    /// between is not lost.
    ///
    /// A task that still has an entry in a wait queue gets no second one.
    pub fn enter_wait_queue(&self, system: &mut System, wait_queue: &mut VecDeque<usize>)
        requires
            old(system).wf(),
            self.is_running(old(system)@),
            !old(system)@.task(self.current_task).idle(),
            old(system)@.task(self.current_task).preempt_disable_count == 2,
        ensures
            final(system).wf(),
            final(system)@ == old(system)@.waiting(self.current_task),
            final(wait_queue)@ == if old(system)@.task(self.current_task).in_wait_queue {
                old(wait_queue)@
            } else {
                old(wait_queue)@.push(self.current_task)
            },
    {
        let t = self.current_task;
        self.block_current(system);
        let mut info = system.task(t);
        if !info.in_wait_queue {
            info.in_wait_queue = true;
            proof {
                crate::dispatch::lemma_flags(system@, t, info);
            }
            system.set_task(t, info);
            wait_queue.push_back(t);
        } else {
            proof {
                crate::model::lemma_same_task(system@, t);
            }
        }
    }

    /// Blocks the current task, puts it into the wait queue and reschedules, with
    /// no wake-up in between.
    pub fn blocked_resched(&self, system: &mut System, wait_queue: &mut VecDeque<usize>) -> (switch:
        Option<ContextSwitch>)
        requires
            old(system).wf(),
            self.is_running(old(system)@),
            !old(system)@.task(self.current_task).idle(),
            old(system)@.task(self.current_task).preempt_disable_count == 2,
        ensures
            final(system).wf(),
            final(system)@ == old(system)@.waiting(self.current_task).rescheduled(self.cpu_id),
            final(wait_queue)@ == if old(system)@.task(self.current_task).in_wait_queue {
                old(wait_queue)@
            } else {
                old(wait_queue)@.push(self.current_task)
            },
            switch == old(system)@.context_switch(self.cpu_id, final(system)@),
    {
        self.enter_wait_queue(system, wait_queue);
        system.resched(self.cpu_id)
    }

    /// Blocks the current task until a future wakes it, and clears the flag
    /// `woke`, whose lock the caller holds. The caller then releases that lock
    /// and reschedules.
    pub fn await_future(&self, system: &mut System, woke: &mut bool)
        requires
            old(system).wf(),
            self.is_running(old(system)@),
            !old(system)@.task(self.current_task).idle(),
            old(system)@.task(self.current_task).preempt_disable_count == 2,
        ensures
            final(system).wf(),
            final(system)@ == old(system)@.in_state(self.current_task, TaskState::Blocked),
            !*final(woke),
    {
        self.block_current(system);
        *woke = false;
    }

    /// Blocks the current task until a future wakes it and reschedules, with no
    /// wake-up in between.
    pub fn future_blocked_resched(&self, system: &mut System, woke: &mut bool) -> (switch: Option<
        ContextSwitch,
    >)
        requires
            old(system).wf(),
            self.is_running(old(system)@),
            !old(system)@.task(self.current_task).idle(),
            old(system)@.task(self.current_task).preempt_disable_count == 2,
        ensures
            final(system).wf(),
            final(system)@ == old(system)@.in_state(
                self.current_task,
                TaskState::Blocked,
            ).rescheduled(self.cpu_id),
            !*final(woke),
            switch == old(system)@.context_switch(self.cpu_id, final(system)@),
    {
        self.await_future(system, woke);
        system.resched(self.cpu_id)
    }

    /// Lets the current task sleep if `now`, in nanoseconds, is before
    /// `deadline`. Returns `None` if the deadline has passed. Otherwise the task
    /// is blocked and the CPU reschedules, which may mean a context switch; an
    /// alarm for the deadline has to be set before that switch, and this has to
    /// be called again when the task runs next.
    pub fn sleep_until(&self, system: &mut System, now: u128, deadline: u128) -> (sleeping: Option<
        Option<ContextSwitch>,
    >)
        requires
            old(system).wf(),
            self.is_running(old(system)@),
            !old(system)@.task(self.current_task).idle(),
        ensures
            final(system).wf(),
            now >= deadline ==> sleeping is None && final(system)@ == old(system)@,
            now < deadline ==> {
                &&& final(system)@ == old(system)@.in_state(
                    self.current_task,
                    TaskState::Blocked,
                ).rescheduled(self.cpu_id)
                &&& sleeping == Some(old(system)@.context_switch(self.cpu_id, final(system)@))
            },
    {
        if now < deadline {
            self.block_current(system);
            Some(system.resched(self.cpu_id))
        } else {
            None
        }
    }

    /// Sets the priority of the current task; reports whether that is supported.
    pub fn set_current_priority(&self, system: &mut System, prio: isize) -> (accepted: bool)
        requires
            old(system).wf(),
            self.is_current(old(system)@),
            old(system)@.slice(self.current_task) is Some,
        ensures
            final(system).wf(),
            final(system)@ == old(system)@,
            !accepted,
    {
        system.change_priority(self.cpu_id, self.current_task, prio)
    }
}

/// Handles a request to reschedule that was delivered to `this_cpu`: the next
/// request is sent again, and the current task, if there is one, gives way.
pub fn request_current_reschedule(system: &mut System, this_cpu: usize) -> (switch: Option<
    ContextSwitch,
>)
    requires
        old(system).wf(),
        old(system)@.has_cpu(this_cpu),
        old(system)@.cpu(this_cpu).current is Some ==> old(system)@.interruptible(this_cpu),
        old(system)@.tasks.len() + 1 < usize::MAX,
    ensures
        final(system).wf(),
        final(system)@ == ({
            let delivered = old(system)@.delivered(this_cpu);
            match old(system)@.cpu(this_cpu).current {
                Some(t) => delivered.forced(this_cpu, t, 0),
                None => delivered,
            }
        }),
        switch == if old(system)@.cpu(this_cpu).current is Some {
            old(system)@.context_switch(this_cpu, final(system)@)
        } else {
            None
        },
{
    clear_remote_reschedule_pending_for_current_cpu(system, this_cpu);
    if system.cpu(this_cpu).current.is_some() {
        CurrentRunQueueRef::force_resched_from_irq(system, this_cpu)
    } else {
        None
    }
}

} // verus!
