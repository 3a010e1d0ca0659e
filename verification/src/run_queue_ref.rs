//! References to the run queue that was selected for a task.
use vstd::prelude::*;

use crate::dispatch::{force_kick_remote_cpu, kick_remote_cpu};
use crate::model::SystemModel;
use crate::placement::RunQueueSelection;
use crate::select::{
    commit_selection, find_wake_run_queue_index, release_idle_run_queue_reservation,
    select_new_task_run_queue_index, select_run_queue_index,
};
use crate::system::System;
use crate::task::{TaskInner, TaskState};

verus! {

/// A reference to the run queue of this CPU or of a remote one, which is used to
/// add tasks to the run queue or to unblock tasks. It has to be given up by
/// [`AxRunQueueRef::release`]. To perform scheduling operations on the current
/// run queue, see `CurrentRunQueueRef`.
#[derive(Debug, PartialEq, Eq)]
pub struct AxRunQueueRef {
    /// The CPU of the run queue.
    pub cpu_id: usize,
    /// Whether the CPU was reserved for a task that was not enqueued yet.
    pub idle_reservation: bool,
}

impl SystemModel {
    /// The new task `t` is in the run queue of CPU `c`.
    pub open spec fn placed(self, c: usize, t: usize) -> Self {
        self.with_task(t, TaskInner { cpu_id: c, ..self.task(t) }).added(c, t)
    }

    /// Task `t` is ready and in no run queue, on no CPU, and no CPU's idle task.
    pub open spec fn is_free(self, t: usize) -> bool {
        &&& self.has_task(t)
        &&& self.task(t).state == TaskState::Ready
        &&& self.slice(t) is Some
        &&& !self.task(t).on_cpu
        &&& !self.task(t).idle()
    }

    /// Task `t` is noted to be preempted.
    pub open spec fn preemption_requested(self, t: usize) -> Self {
        self.with_task(t, TaskInner { preempt_pending: true, ..self.task(t) })
    }

    /// The outcome of waking task `t` up on the run queue of CPU `c`. If it joins
    /// the queue, a local waker that asks for it is noted to be preempted, and a
    /// remote CPU is asked to reschedule.
    pub open spec fn unblocked(self, c: usize, t: usize, resched: bool, this_cpu: usize) -> Self {
        let put = self.put(c, t, TaskState::Blocked, false, this_cpu);
        if !self.joins(c, t, TaskState::Blocked, this_cpu) {
            put
        } else if resched && c == this_cpu {
            put.preemption_requested(put.cpu(this_cpu).current.unwrap())
        } else {
            put.kicked(c, this_cpu)
        }
    }

    /// The migrated task `t` is in the run queue of CPU `c`, which is asked to
    /// reschedule if it is a remote one.
    pub open spec fn migrated(self, c: usize, t: usize, this_cpu: usize) -> Self {
        self.cursor_advanced().with_task(t, TaskInner { cpu_id: c, ..self.task(t) }).put_back(
            c,
            t,
            false,
        ).kicked(c, this_cpu)
    }
}

/// Selects a run queue for the new task `t`: an eligible idle CPU, which is
/// reserved, or else the one with the smallest load.
pub fn select_new_task_run_queue(system: &mut System, t: usize, this_cpu: usize) -> (run_queue:
    AxRunQueueRef)
    requires
        old(system).wf(),
        old(system)@.has_task(t),
        exists|cpu_id: usize| old(system)@.task(t).cpumask.has(cpu_id),
        !old(system)@.new_task_choice(old(system)@.task(t).cpumask, this_cpu, None),
    ensures
        final(system).wf(),
        ({
            let selection = RunQueueSelection {
                cpu_id: run_queue.cpu_id,
                claimed_idle: run_queue.idle_reservation,
            };
            let cpumask = old(system)@.task(t).cpumask;
            &&& old(system)@.new_task_choice(cpumask, this_cpu, Some(selection))
            &&& old(system)@.is_eligible(cpumask, this_cpu, selection)
            &&& final(system)@ == old(system)@.cursors_advanced().claimed(selection)
        }),
{
    let cpumask = system.task(t).cpumask;
    let selection = select_new_task_run_queue_index(system, cpumask, this_cpu);
    AxRunQueueRef { cpu_id: selection.cpu_id, idle_reservation: selection.claimed_idle }
}

/// Selects a run queue for the task `t` that wakes up: its last CPU if that is
/// idle, or else another idle CPU, either of which is reserved, or else the one
/// with the smallest load.
pub fn select_wake_run_queue(system: &mut System, t: usize, this_cpu: usize) -> (run_queue:
    AxRunQueueRef)
    requires
        old(system).wf(),
        old(system)@.has_task(t),
        exists|cpu_id: usize| old(system)@.task(t).cpumask.has(cpu_id),
        !old(system)@.wake_choice(
            old(system)@.task(t).cpumask,
            old(system)@.task(t).cpu_id,
            this_cpu,
            None,
        ),
    ensures
        final(system).wf(),
        ({
            let selection = RunQueueSelection {
                cpu_id: run_queue.cpu_id,
                claimed_idle: run_queue.idle_reservation,
            };
            let task = old(system)@.task(t);
            &&& old(system)@.wake_choice(task.cpumask, task.cpu_id, this_cpu, Some(selection))
            &&& old(system)@.is_eligible(task.cpumask, this_cpu, selection)
            &&& final(system)@ == old(system)@.cursors_advanced().claimed(selection)
        }),
{
    let task = system.task(t);
    let selection = find_wake_run_queue_index(
        system,
        task.cpumask,
        task.cpu_id,
        this_cpu,
    ).unwrap();
    commit_selection(system, selection);
    AxRunQueueRef { cpu_id: selection.cpu_id, idle_reservation: selection.claimed_idle }
}

/// Selects a run queue for the task `t` that migrates because its affinity
/// changed.
///
/// Migration does not claim an idle CPU: the task has already been running, and
/// its hand-over must remain independent of the reservations.
pub fn select_migration_run_queue(system: &mut System, t: usize, this_cpu: usize) -> (run_queue:
    AxRunQueueRef)
    requires
        old(system).wf(),
        old(system)@.has_task(t),
        exists|cpu_id: usize| old(system)@.task(t).cpumask.has(cpu_id),
        !old(system)@.migration_choice(old(system)@.task(t).cpumask, this_cpu, None),
    ensures
        final(system).wf(),
        final(system)@ == old(system)@.cursor_advanced(),
        !run_queue.idle_reservation,
        old(system)@.migration_choice(
            old(system)@.task(t).cpumask,
            this_cpu,
            Some(run_queue.cpu_id),
        ),
        old(system)@.accepts(run_queue.cpu_id, this_cpu),
        old(system)@.task(t).cpumask.has(run_queue.cpu_id),
{
    let cpumask = system.task(t).cpumask;
    let index = select_run_queue_index(system, cpumask, this_cpu);
    AxRunQueueRef { cpu_id: index, idle_reservation: false }
}

impl AxRunQueueRef {
    /// Gives the reference up. A reservation that was not committed by an enqueue
    /// is returned.
    pub fn release(self, system: &mut System)
        requires
            old(system).wf(),
            old(system)@.has_cpu(self.cpu_id),
        ensures
            final(system).wf(),
            final(system)@ == if self.idle_reservation {
                old(system)@.unreserved(self.cpu_id)
            } else {
                old(system)@
            },
    {
        if self.idle_reservation {
            release_idle_run_queue_reservation(system, self.cpu_id);
        }
    }

    /// Adds the new task `t` to the run queue, and asks a remote CPU to
    /// reschedule. Returns the CPU that has to be interrupted for that, if any.
    pub fn add_task(&mut self, system: &mut System, t: usize, this_cpu: usize) -> (ipi: Option<
        usize,
    >)
        requires
            old(system).wf(),
            old(system)@.has_cpu(old(self).cpu_id),
            old(system)@.is_free(t),
        ensures
            final(system).wf(),
            final(system)@ == old(system)@.placed(old(self).cpu_id, t).kicked(
                old(self).cpu_id,
                this_cpu,
            ),
            final(self).cpu_id == old(self).cpu_id,
            !final(self).idle_reservation,
            ipi == old(system)@.kick_target(old(self).cpu_id, this_cpu),
    {
        let c = self.cpu_id;
        let mut info = system.task(t);
        info.cpu_id = c;
        proof {
            assert(!system@.task(t).wake_stashed);
            crate::model::lemma_with_task(system@, t, info);
        }
        system.set_task(t, info);
        proof {
            crate::model::lemma_ready_len(system@, c);
            crate::model::lemma_enqueued(system@, c, t, false);
        }
        system.add_to_ready_queue(c, t);
        // The task is now visible in the queue, so the reservation is committed
        // and is consumed by the next switch of its CPU.
        self.idle_reservation = false;
        assert(system@.cpu(c) == old(system)@.cpu(c));
        kick_remote_cpu(system, c, this_cpu)
    }

    /// Unblocks task `t` by inserting it into the run queue. This does nothing if
    /// the task is not blocked, which means that another CPU has unblocked it.
    /// Returns the CPU that has to be interrupted, if any.
    ///
    /// With `resched`, a waker whose own run queue takes the task is noted to be
    /// preempted. The woken task goes to the tail of the queue all the same: a
    /// wake-up is not a preemption of the woken task.
    pub fn unblock_task(
        &mut self,
        system: &mut System,
        t: usize,
        resched: bool,
        this_cpu: usize,
    ) -> (ipi: Option<usize>)
        requires
            old(system).wf(),
            old(system)@.has_cpu(old(self).cpu_id),
            old(system)@.has_cpu(this_cpu),
            resched && old(self).cpu_id == this_cpu ==> old(system)@.cpu(this_cpu).initialized,
            old(system)@.has_task(t),
        ensures
            final(system).wf(),
            final(system)@ == old(system)@.unblocked(old(self).cpu_id, t, resched, this_cpu),
            final(self).cpu_id == old(self).cpu_id,
            final(self).idle_reservation == (old(self).idle_reservation && !old(system)@.joins(
                old(self).cpu_id,
                t,
                TaskState::Blocked,
                this_cpu,
            )),
            ipi == if old(system)@.joins(old(self).cpu_id, t, TaskState::Blocked, this_cpu) {
                old(system)@.kick_target(old(self).cpu_id, this_cpu)
            } else {
                None
            },
    {
        let c = self.cpu_id;
        if !system.put_task_with_state(c, t, TaskState::Blocked, false, this_cpu) {
            return None;
        }
        self.idle_reservation = false;
        assert(system@.cpu(c) == old(system)@.cpu(c));
        assert(system@.cpu(this_cpu) == old(system)@.cpu(this_cpu));
        // The request is ignored when the task is unblocked on another CPU.
        if resched && c == this_cpu {
            let current = system.current_task(this_cpu);
            system.set_preempt_pending(current, true);
        }
        kick_remote_cpu(system, c, this_cpu)
    }
}

/// The routine of a migration task: puts task `t` into a run queue that its
/// affinity allows. Returns that CPU, and the CPU that has to be interrupted.
///
/// The migration cannot make progress until the target CPU runs the task, so a
/// request that is still pending there does not suppress this one.
pub fn migrate_entry(system: &mut System, t: usize, this_cpu: usize) -> (target: (
    usize,
    Option<usize>,
))
    requires
        old(system).wf(),
        old(system)@.is_free(t),
        exists|cpu_id: usize| old(system)@.task(t).cpumask.has(cpu_id),
        !old(system)@.migration_choice(old(system)@.task(t).cpumask, this_cpu, None),
    ensures
        final(system).wf(),
        final(system)@ == old(system)@.migrated(target.0, t, this_cpu),
        old(system)@.migration_choice(old(system)@.task(t).cpumask, this_cpu, Some(target.0)),
        old(system)@.accepts(target.0, this_cpu),
        old(system)@.task(t).cpumask.has(target.0),
        target.1 == if target.0 == this_cpu {
            None
        } else {
            Some(target.0)
        },
{
    let run_queue = select_migration_run_queue(system, t, this_cpu);
    let c = run_queue.cpu_id;
    let mut info = system.task(t);
    info.cpu_id = c;
    proof {
        assert(!system@.task(t).wake_stashed);
        crate::model::lemma_with_task(system@, t, info);
    }
    system.set_task(t, info);
    system.put_prev_task(c, t, false);
    run_queue.release(system);
    let ipi = force_kick_remote_cpu(system, c, this_cpu);
    (c, ipi)
}

} // verus!
