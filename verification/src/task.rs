//! What the scheduler knows of a task.
use vstd::prelude::*;

use crate::cpumask::AxCpuMask;

verus! {

/// The life-cycle state of a task.
#[derive(Clone, Copy, Debug, PartialEq, Eq, Structural)]
pub enum TaskState {
    /// The current task of some CPU.
    Running,
    /// Runnable, and waiting for a CPU.
    Ready,
    /// Waiting for an event.
    Blocked,
    /// Finished, and waiting to be collected.
    Exited,
}

/// What a task is there for.
#[derive(Clone, Copy, Debug, PartialEq, Eq, Structural)]
pub enum TaskRole {
    /// The task that the system boots into; the system stops when it exits.
    Main,
    /// The task that a CPU runs when it has nothing else to run.
    Idle,
    /// The task that drops the exited tasks of one CPU.
    Gc,
    /// The task that moves another task to a CPU that its affinity allows.
    Migration(usize),
    /// Any other task.
    Worker,
}

impl TaskRole {
    /// The name under which a task of this role is reported. Any other task has
    /// a name of its own.
    pub fn name(&self) -> (name: Option<&'static str>)
        ensures
            match *self {
                TaskRole::Main => name matches Some(text) && text@ == "main"@,
                TaskRole::Idle => name matches Some(text) && text@ == "idle"@,
                TaskRole::Gc => name matches Some(text) && text@ == "gc"@,
                TaskRole::Migration(_) => name matches Some(text) && text@ == "migration-task"@,
                TaskRole::Worker => name is None,
            },
    {
        match self {
            TaskRole::Main => Some("main"),
            TaskRole::Idle => Some("idle"),
            TaskRole::Gc => Some("gc"),
            TaskRole::Migration(_) => Some("migration-task"),
            TaskRole::Worker => None,
        }
    }
}

/// The scheduling state of a task.
#[derive(Clone, Copy, Debug, PartialEq, Eq, Structural)]
pub struct TaskInner {
    pub role: TaskRole,
    pub state: TaskState,
    /// The CPUs that the task may run on.
    pub cpumask: AxCpuMask,
    /// The CPU on whose run queue the task was placed last.
    pub cpu_id: usize,
    /// Whether a CPU runs the task or has not finished saving its context yet.
    pub on_cpu: bool,
    /// Whether the task has an entry in a wait queue.
    pub in_wait_queue: bool,
    /// Whether a wake-up was left with the CPU that still has the task on it.
    pub wake_stashed: bool,
    /// Whether the task should be preempted as soon as that is allowed.
    pub preempt_pending: bool,
    /// Whether the task must give way to the next one as soon as that is allowed.
    pub force_resched_pending: bool,
    /// How many guards of the task keep preemption disabled.
    pub preempt_disable_count: usize,
}

impl TaskInner {
    /// A task that was never run: ready, and allowed on every CPU.
    pub open spec fn fresh(role: TaskRole) -> Self {
        TaskInner {
            role,
            state: TaskState::Ready,
            cpumask: AxCpuMask::all(),
            cpu_id: 0,
            on_cpu: false,
            in_wait_queue: false,
            wake_stashed: false,
            preempt_pending: false,
            force_resched_pending: false,
            preempt_disable_count: 0,
        }
    }

    /// A task that was never run: ready, and allowed on every CPU.
    pub fn new(role: TaskRole) -> (task: Self)
        ensures
            task == TaskInner::fresh(role),
            forall|cpu_id: usize| task.cpumask.has(cpu_id) <==> cpu_id < crate::CPU_CAPACITY,
    {
        TaskInner {
            role,
            state: TaskState::Ready,
            cpumask: AxCpuMask::full(),
            cpu_id: 0,
            on_cpu: false,
            in_wait_queue: false,
            wake_stashed: false,
            preempt_pending: false,
            force_resched_pending: false,
            preempt_disable_count: 0,
        }
    }

    /// Whether this is the idle task of a CPU.
    pub open spec fn idle(self) -> bool {
        self.role == TaskRole::Idle
    }

    /// Whether this is the idle task of a CPU.
    pub fn is_idle(&self) -> (idle: bool)
        ensures
            idle == self.idle(),
    {
        matches!(self.role, TaskRole::Idle)
    }

    /// Whether this is the task that the system boots into.
    pub fn is_init(&self) -> (init: bool)
        ensures
            init == (self.role == TaskRole::Main),
    {
        matches!(self.role, TaskRole::Main)
    }

    /// Whether preemption is disabled by exactly the guards that the caller holds.
    pub fn can_preempt(&self, current_disable_count: usize) -> (allowed: bool)
        ensures
            allowed == (self.preempt_disable_count == current_disable_count),
    {
        self.preempt_disable_count == current_disable_count
    }

    /// Moves the task from state `from` to state `to`; reports whether it was in
    /// state `from`.
    pub fn transition_state(&mut self, from: TaskState, to: TaskState) -> (done: bool)
        ensures
            done == (old(self).state == from),
            *final(self) == if done {
                TaskInner { state: to, ..*old(self) }
            } else {
                *old(self)
            },
    {
        if self.state == from {
            self.state = to;
            true
        } else {
            false
        }
    }

    /// Leaves a wake-up with the CPU that still has the task on it.
    pub fn stash_wake(&mut self)
        ensures
            *final(self) == (TaskInner { wake_stashed: true, ..*old(self) }),
    {
        self.wake_stashed = true;
    }

    /// Takes the wake-up that was left with the task; reports whether there was
    /// one. Only one of two takers gets it.
    pub fn take_wake(&mut self) -> (taken: bool)
        ensures
            taken == old(self).wake_stashed,
            *final(self) == (TaskInner { wake_stashed: false, ..*old(self) }),
    {
        let taken = self.wake_stashed;
        self.wake_stashed = false;
        taken
    }
}

} // verus!
