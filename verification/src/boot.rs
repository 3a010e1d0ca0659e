//! Bringing CPUs into the scheduler.
use ax_memory_addr::VirtAddr;
use vstd::prelude::*;

use crate::activity::RUN_QUEUE_ACTIVITY_IDLE;
use crate::cpumask::AxCpuMask;
use crate::model::SystemModel;
use crate::stack::{main_task_stack, TaskStack, TASK_STACK_ALIGN};
use crate::system::{CpuInner, System};
use crate::task::{TaskInner, TaskRole};

verus! {

/// The tasks that a CPU starts with.
#[derive(Clone, Copy, Debug, PartialEq, Eq)]
pub struct BootTasks {
    /// The task that goes on with the boot sequence.
    pub current: usize,
    /// The stack that it runs on.
    pub stack: TaskStack,
    pub idle: usize,
    pub gc: usize,
}

impl SystemModel {
    /// CPU `c` has run nothing yet.
    pub open spec fn is_offline(self, c: usize) -> bool {
        &&& self.has_cpu(c)
        &&& !self.cpu(c).initialized
        &&& self.cpu(c).current is None
        &&& self.cpu(c).idle is None
        &&& self.cpu(c).prev is None
        &&& self.ready(c).len() == 0
    }

    /// CPU `c` has a run queue that holds a new gc task, which is pinned to it.
    pub open spec fn with_run_queue(self, c: usize) -> Self {
        self.spawned(
            TaskInner { cpumask: AxCpuMask::only(c), ..TaskInner::fresh(TaskRole::Gc) },
        ).added(c, self.tasks.len() as usize)
    }

    /// The run queue of CPU `c` may be used.
    pub open spec fn published(self, c: usize) -> Self {
        self.with_cpu(c, CpuInner { initialized: true, ..self.cpu(c) })
    }

    /// CPU `c` starts with a new main task that runs, a new idle task that is
    /// pinned to it and ready, and its run queue.
    pub open spec fn booted(self, c: usize) -> Self {
        let idle = self.tasks.len() as usize;
        let main = (self.tasks.len() + 1) as usize;
        self.spawned(
            TaskInner { cpumask: AxCpuMask::only(c), ..TaskInner::fresh(TaskRole::Idle) },
        ).spawned(TaskInner::fresh(TaskRole::Main)).started(c, main, idle).with_run_queue(
            c,
        ).published(c)
    }

    /// CPU `c` starts with a new idle task that runs, and with its run queue; it
    /// can be reserved at once.
    pub open spec fn booted_secondary(self, c: usize) -> Self {
        let idle = self.tasks.len() as usize;
        self.spawned(TaskInner::fresh(TaskRole::Idle)).started(c, idle, idle).with_run_queue(
            c,
        ).with_activity(c, RUN_QUEUE_ACTIVITY_IDLE).published(c)
    }
}

/// Makes task `current` the current task of CPU `c` and task `idle` its idle task.
fn start(system: &mut System, c: usize, current: usize, idle: usize)
    requires
        old(system).wf(),
        old(system)@.is_offline(c),
        old(system)@.has_task(current),
        old(system)@.slice(current) is Some,
        !old(system)@.task(current).on_cpu,
        old(system)@.task(current).idle() ==> current == idle,
        old(system)@.has_task(idle),
        old(system)@.task(idle).idle(),
        old(system)@.task(idle).cpumask.has(c),
        old(system)@.task(idle).state == crate::task::TaskState::Ready,
        forall|d: int|
            0 <= d < old(system)@.cpus.len() ==> (#[trigger] old(system)@.cpus[d]).info.idle
                != Some(idle),
    ensures
        final(system).wf(),
        final(system)@ == old(system)@.started(c, current, idle),
{
    proof {
        crate::model::lemma_started(system@, c, current, idle);
    }
    let mut info = system.task(current);
    info.state = crate::task::TaskState::Running;
    info.on_cpu = true;
    system.set_task(current, info);
    let mut cpu = system.cpu(c);
    cpu.current = Some(current);
    cpu.idle = Some(idle);
    system.set_cpu(c, cpu);
}

/// Gives CPU `c` a run queue with a gc task in it; returns the gc task.
fn init_run_queue(system: &mut System, c: usize) -> (gc: usize)
    requires
        old(system).wf(),
        old(system)@.has_cpu(c),
        old(system)@.ready(c).len() == 0,
        old(system)@.tasks.len() + 1 < usize::MAX,
    ensures
        final(system).wf(),
        final(system)@ == old(system)@.with_run_queue(c),
        gc == old(system)@.tasks.len(),
{
    let mut info = TaskInner::new(TaskRole::Gc);
    // The gc task is pinned to its CPU.
    info.cpumask = AxCpuMask::one_shot(c);
    let gc = system.spawn(info);
    proof {
        crate::model::lemma_enqueued(system@, c, gc, false);
    }
    system.install_run_queue(c, gc);
    gc
}

/// Lets others use the run queue of CPU `c`.
fn publish(system: &mut System, c: usize)
    requires
        old(system).wf(),
        old(system)@.has_cpu(c),
        old(system)@.cpu(c).idle is Some,
        old(system)@.cpu(c).current is Some,
    ensures
        final(system).wf(),
        final(system)@ == old(system)@.published(c),
{
    let mut info = system.cpu(c);
    info.initialized = true;
    proof {
        crate::model::lemma_with_cpu(system@, c, info);
    }
    system.set_cpu(c, info);
}

/// Brings the first CPU into the scheduler. What follows on it is the main task,
/// which runs on the boot stack at `stack_ptr`.
pub fn init(system: &mut System, this_cpu: usize, stack_ptr: VirtAddr, stack_size: usize) -> (tasks:
    BootTasks)
    requires
        old(system).wf(),
        old(system)@.is_offline(this_cpu),
        old(system)@.tasks.len() + 3 < usize::MAX,
    ensures
        final(system).wf(),
        final(system)@ == old(system)@.booted(this_cpu),
        tasks.idle == old(system)@.tasks.len(),
        tasks.current == old(system)@.tasks.len() + 1,
        tasks.gc == old(system)@.tasks.len() + 2,
        tasks.stack == (TaskStack {
            ptr: stack_ptr,
            size: stack_size,
            align: TASK_STACK_ALIGN,
            borrowed: true,
        }),
{
    let ghost m = system@;
    let mut idle_info = TaskInner::new(TaskRole::Idle);
    // The idle task is pinned to its CPU.
    idle_info.cpumask = AxCpuMask::one_shot(this_cpu);
    let idle = system.spawn(idle_info);
    let current = system.spawn(TaskInner::new(TaskRole::Main));
    proof {
        assert forall|d: int| 0 <= d < m.cpus.len() implies (#[trigger] m.cpus[d]).info.idle != Some(
            idle,
        ) by {
            assert(m.cpus[d].info.idle matches Some(t) ==> m.has_task(t));
        }
    }
    start(system, this_cpu, current, idle);
    let gc = init_run_queue(system, this_cpu);
    publish(system, this_cpu);
    BootTasks { current, stack: main_task_stack(stack_ptr, stack_size), idle, gc }
}

/// Brings another CPU into the scheduler. What follows on it is its idle task,
/// which runs on the stack at `stack_ptr`.
pub fn init_secondary(
    system: &mut System,
    this_cpu: usize,
    stack_ptr: VirtAddr,
    stack_size: usize,
) -> (tasks: BootTasks)
    requires
        old(system).wf(),
        old(system)@.is_offline(this_cpu),
        old(system)@.tasks.len() + 2 < usize::MAX,
    ensures
        final(system).wf(),
        final(system)@ == old(system)@.booted_secondary(this_cpu),
        tasks.idle == old(system)@.tasks.len(),
        tasks.current == tasks.idle,
        tasks.gc == old(system)@.tasks.len() + 1,
        tasks.stack == (TaskStack {
            ptr: stack_ptr,
            size: stack_size,
            align: TASK_STACK_ALIGN,
            borrowed: true,
        }),
{
    let ghost m = system@;
    let idle = system.spawn(TaskInner::new(TaskRole::Idle));
    proof {
        assert forall|d: int| 0 <= d < m.cpus.len() implies (#[trigger] m.cpus[d]).info.idle != Some(
            idle,
        ) by {
            assert(m.cpus[d].info.idle matches Some(t) ==> m.has_task(t));
        }
    }
    start(system, this_cpu, idle, idle);
    let gc = init_run_queue(system, this_cpu);
    let mut info = system.cpu(this_cpu);
    info.activity = RUN_QUEUE_ACTIVITY_IDLE;
    proof {
        crate::model::lemma_with_cpu(system@, this_cpu, info);
    }
    system.set_cpu(this_cpu, info);
    publish(system, this_cpu);
    let stack = TaskStack::borrowed(stack_ptr, stack_size, TASK_STACK_ALIGN);
    BootTasks { current: idle, stack, idle, gc }
}

} // verus!
