//! The scheduler's state: the task table and the per-CPU data.
use std::collections::VecDeque;

use vstd::prelude::*;

use crate::activity::RUN_QUEUE_ACTIVITY_BUSY;
use crate::cpumask::CPU_CAPACITY;
use crate::model::{CpuModel, SystemModel, TaskModel};
use crate::run_queue::AxRunQueue;
use crate::scheduler::{new_sched_task, sched_task_index, SchedTask};
use crate::task::{TaskInner, TaskState};

verus! {

/// The plain part of a CPU's scheduling state.
#[derive(Clone, Copy, Debug, PartialEq, Eq)]
pub struct CpuInner {
    /// Whether the CPU's run queue may be used.
    pub initialized: bool,
    /// Whether the CPU takes inter-processor interrupts.
    pub ipi_ready: bool,
    /// The activity hint, one of the `RUN_QUEUE_ACTIVITY` values.
    pub activity: u8,
    /// Whether a request to reschedule was sent to the CPU and not delivered yet.
    pub reschedule_pending: bool,
    /// The task that the CPU runs.
    pub current: Option<usize>,
    /// The task that the CPU runs when it has nothing else to run.
    pub idle: Option<usize>,
    /// The task that the CPU has switched away from, until its context is saved.
    pub prev: Option<usize>,
}

/// A task and, unless it waits in a ready queue, its scheduler wrapper.
pub struct TaskSlot {
    info: TaskInner,
    entry: Option<SchedTask>,
}

/// A CPU's run queue, plain state and list of exited tasks.
pub struct Cpu {
    run_queue: AxRunQueue,
    info: CpuInner,
    exited: VecDeque<usize>,
}

/// The state of all tasks and CPUs.
pub struct System {
    tasks: Vec<TaskSlot>,
    cpus: Vec<Cpu>,
    next_idle_run_queue: usize,
    next_run_queue: usize,
}

impl TaskSlot {
    pub closed spec fn model(self) -> TaskModel {
        TaskModel {
            info: self.info,
            slice: match self.entry {
                Some(entry) => Some(crate::scheduler::sched_entry(entry).1),
                None => None,
            },
        }
    }

    spec fn inv(self, t: int) -> bool {
        self.entry matches Some(entry) ==> crate::scheduler::sched_entry(entry).0 == t
    }
}

impl Cpu {
    pub closed spec fn model(self) -> CpuModel {
        CpuModel { info: self.info, ready: self.run_queue@, exited: self.exited@ }
    }

    spec fn inv(self, c: int) -> bool {
        self.run_queue.inv() && self.run_queue.owner() == c
    }
}

impl View for System {
    type V = SystemModel;

    closed spec fn view(&self) -> SystemModel {
        SystemModel {
            tasks: Seq::new(self.tasks@.len(), |t: int| self.tasks@[t].model()),
            cpus: Seq::new(self.cpus@.len(), |c: int| self.cpus@[c].model()),
            next_idle_run_queue: self.next_idle_run_queue,
            next_run_queue: self.next_run_queue,
        }
    }
}

impl System {
    /// The representation is sound: each wrapper is of its own task, and each
    /// run queue belongs to its CPU and counts its tasks.
    pub closed spec fn inv(&self) -> bool {
        &&& forall|t: int| 0 <= t < self.tasks@.len() ==> (#[trigger] self.tasks@[t]).inv(t)
        &&& forall|c: int| 0 <= c < self.cpus@.len() ==> (#[trigger] self.cpus@[c]).inv(c)
    }

    /// The state is valid.
    pub open spec fn wf(&self) -> bool {
        self.inv() && self@.wf()
    }

    /// A system with `cpu_num` CPUs, as far as the capacity allows, none of
    /// which is initialized yet, and without tasks.
    pub fn new(cpu_num: usize) -> (system: Self)
        ensures
            system.wf(),
            system@.tasks == Seq::<TaskModel>::empty(),
            system@.cpus.len() == if cpu_num < CPU_CAPACITY {
                cpu_num
            } else {
                CPU_CAPACITY
            },
            forall|c: usize| #[trigger]
                system@.has_cpu(c) ==> system@.cpus[c as int] == (CpuModel {
                    info: CpuInner {
                        initialized: false,
                        ipi_ready: false,
                        activity: RUN_QUEUE_ACTIVITY_BUSY,
                        reschedule_pending: false,
                        current: None,
                        idle: None,
                        prev: None,
                    },
                    ready: Seq::empty(),
                    exited: Seq::empty(),
                }),
            system@.next_idle_run_queue == 0,
            system@.next_run_queue == 0,
    {
        let count: usize = if cpu_num < CPU_CAPACITY {
            cpu_num
        } else {
            CPU_CAPACITY
        };
        let info = CpuInner {
            initialized: false,
            ipi_ready: false,
            activity: RUN_QUEUE_ACTIVITY_BUSY,
            reschedule_pending: false,
            current: None,
            idle: None,
            prev: None,
        };
        let ghost blank = CpuModel { info, ready: Seq::empty(), exited: Seq::empty() };
        let mut cpus: Vec<Cpu> = Vec::new();
        while cpus.len() < count
            invariant
                cpus.len() <= count,
                blank == (CpuModel { info, ready: Seq::empty(), exited: Seq::empty() }),
                forall|c: int|
                    0 <= c < cpus@.len() ==> (#[trigger] cpus@[c]).inv(c) && cpus@[c].model()
                        == blank,
            decreases count - cpus.len(),
        {
            let cpu = Cpu {
                run_queue: AxRunQueue::empty(cpus.len()),
                info,
                exited: VecDeque::new(),
            };
            cpus.push(cpu);
        }
        let system = System { tasks: Vec::new(), cpus, next_idle_run_queue: 0, next_run_queue: 0 };
        assert(system@.tasks =~= Seq::<TaskModel>::empty());
        assert forall|c: usize| #[trigger] system@.has_cpu(c) implies system@.cpus[c as int]
            == blank by {
            assert(system.cpus@[c as int].model() == blank);
        }
        assert forall|c: int| 0 <= c < system@.cpus.len() implies (#[trigger] system@.cpus[c])
            == blank by {
            assert(system@.has_cpu(c as usize));
        }
        system
    }

    /// The number of CPUs.
    pub fn cpu_count(&self) -> (count: usize)
        ensures
            count == self@.cpus.len(),
    {
        self.cpus.len()
    }

    /// The number of tasks that were ever created.
    pub fn task_count(&self) -> (count: usize)
        ensures
            count == self@.tasks.len(),
    {
        self.tasks.len()
    }

    /// The scheduling state of task `t`.
    pub fn task(&self, t: usize) -> (info: TaskInner)
        requires
            self@.has_task(t),
        ensures
            info == self@.task(t),
    {
        self.tasks[t].info
    }

    /// Whether task `t` waits in a ready queue.
    pub fn is_queued(&self, t: usize) -> (queued: bool)
        requires
            self@.has_task(t),
        ensures
            queued == (self@.slice(t) is None),
    {
        self.tasks[t].entry.is_none()
    }

    /// The plain scheduling state of CPU `c`.
    pub fn cpu(&self, c: usize) -> (info: CpuInner)
        requires
            self@.has_cpu(c),
        ensures
            info == self@.cpu(c),
    {
        self.cpus[c].info
    }

    /// The number of tasks in the ready queue of CPU `c`.
    pub fn ready_tasks(&self, c: usize) -> (count: usize)
        requires
            self.inv(),
            self@.has_cpu(c),
        ensures
            count == self@.ready(c).len(),
    {
        assert(self.cpus@[c as int].inv(c as int));
        self.cpus[c].run_queue.ready_tasks()
    }

    /// Sets what task `t` says of itself. The caller keeps the state valid.
    pub(crate) fn set_task(&mut self, t: usize, info: TaskInner)
        requires
            old(self).inv(),
            old(self)@.has_task(t),
        ensures
            final(self).inv(),
            final(self)@ == old(self)@.with_task(t, info),
    {
        self.tasks[t].info = info;
        assert(self@.tasks =~= old(self)@.with_task(t, info).tasks);
        assert(self@.cpus =~= old(self)@.cpus);
    }

    /// Sets what CPU `c` says of itself. The caller keeps the state valid.
    pub(crate) fn set_cpu(&mut self, c: usize, info: CpuInner)
        requires
            old(self).inv(),
            old(self)@.has_cpu(c),
        ensures
            final(self).inv(),
            final(self)@ == old(self)@.with_cpu(c, info),
    {
        self.cpus[c].info = info;
        assert(self@.tasks =~= old(self)@.tasks);
        assert(self@.cpus =~= old(self)@.with_cpu(c, info).cpus);
    }

    /// Adds a task to the task table. The caller keeps the state valid.
    pub(crate) fn push_task(&mut self, info: TaskInner) -> (t: usize)
        requires
            old(self).inv(),
            old(self)@.tasks.len() < usize::MAX,
        ensures
            final(self).inv(),
            t == old(self)@.tasks.len(),
            final(self)@ == old(self)@.spawned(info),
    {
        let t = self.tasks.len();
        self.tasks.push(TaskSlot { info, entry: Some(new_sched_task(t)) });
        assert(self@.tasks =~= old(self)@.spawned(info).tasks);
        assert(self@.cpus =~= old(self)@.cpus);
        t
    }

    /// Creates a task, which no run queue and no CPU has yet; returns its index.
    pub fn spawn(&mut self, info: TaskInner) -> (t: usize)
        requires
            old(self).wf(),
            old(self)@.tasks.len() + 1 < usize::MAX,
            !info.on_cpu,
            !info.wake_stashed,
            info.state != TaskState::Running,
        ensures
            final(self).wf(),
            t == old(self)@.tasks.len(),
            final(self)@ == old(self)@.spawned(info),
    {
        proof {
            crate::model::lemma_spawned(self@, info);
        }
        self.push_task(info)
    }

    /// Appends task `t` to the ready queue of CPU `c`. The caller keeps the state
    /// valid.
    pub(crate) fn add_to_ready_queue(&mut self, c: usize, t: usize)
        requires
            old(self).inv(),
            old(self)@.has_cpu(c),
            old(self)@.has_task(t),
            old(self)@.slice(t) is Some,
            old(self)@.ready(c).len() < usize::MAX,
        ensures
            final(self).inv(),
            final(self)@ == old(self)@.added(c, t),
    {
        let entry = self.tasks[t].entry.take();
        if let Some(task) = entry {
            self.cpus[c].run_queue.add_task(task);
        }
        assert(self@.tasks =~= old(self)@.added(c, t).tasks);
        assert(self@.cpus =~= old(self)@.added(c, t).cpus);
    }

    /// Puts task `t`, which just ran, back into the ready queue of CPU `c`. The
    /// caller keeps the state valid.
    pub(crate) fn put_back_to_ready_queue(&mut self, c: usize, t: usize, preempt: bool)
        requires
            old(self).inv(),
            old(self)@.has_cpu(c),
            old(self)@.has_task(t),
            old(self)@.slice(t) is Some,
            old(self)@.ready(c).len() < usize::MAX,
        ensures
            final(self).inv(),
            final(self)@ == old(self)@.put_back(c, t, preempt),
    {
        let entry = self.tasks[t].entry.take();
        if let Some(task) = entry {
            self.cpus[c].run_queue.put_prev_task(task, preempt);
        }
        assert(self@.tasks =~= old(self)@.put_back(c, t, preempt).tasks);
        assert(self@.cpus =~= old(self)@.put_back(c, t, preempt).cpus);
    }

    /// Takes the task at the head of the ready queue of CPU `c`.
    pub fn pick_next_task(&mut self, c: usize) -> (next: Option<usize>)
        requires
            old(self).wf(),
            old(self)@.has_cpu(c),
        ensures
            final(self).wf(),
            final(self)@ == old(self)@.picked(c),
            next == if old(self)@.ready(c).len() > 0 {
                Some(old(self)@.ready(c)[0].0)
            } else {
                None
            },
    {
        proof {
            crate::model::lemma_picked(self@, c);
        }
        assert(self.cpus@[c as int].inv(c as int));
        let next = match self.cpus[c].run_queue.pick_next_task() {
            Some(task) => {
                let t = sched_task_index(&task);
                self.tasks[t].entry = Some(task);
                Some(t)
            },
            None => None,
        };
        assert(self@.tasks =~= old(self)@.picked(c).tasks);
        assert(self@.cpus =~= old(self)@.picked(c).cpus);
        next
    }

    /// Takes one tick off the slice of task `t`, which runs on CPU `c`; reports
    /// whether the slice is used up.
    pub(crate) fn tick(&mut self, c: usize, t: usize) -> (expired: bool)
        requires
            old(self).inv(),
            old(self)@.has_cpu(c),
            old(self)@.has_task(t),
            old(self)@.slice(t) is Some,
        ensures
            final(self).inv(),
            final(self)@ == old(self)@.with_slice(
                t,
                Some(crate::scheduler::slice_after_tick(old(self)@.slice(t).unwrap())),
            ),
            expired == (old(self)@.slice(t).unwrap() <= 1),
    {
        assert(self.cpus@[c as int].inv(c as int));
        let entry = self.tasks[t].entry.take();
        match entry {
            Some(task) => {
                let (task, expired) = self.cpus[c].run_queue.task_tick(task);
                self.tasks[t].entry = Some(task);
                assert(self@.tasks =~= old(self)@.with_slice(t, self@.slice(t)).tasks);
                assert(self@.cpus =~= old(self)@.cpus);
                expired
            },
            None => false,
        }
    }

    /// Sets the priority of task `t`, which runs on CPU `c`; reports whether that is
    /// supported.
    pub(crate) fn change_priority(&mut self, c: usize, t: usize, prio: isize) -> (accepted: bool)
        requires
            old(self).inv(),
            old(self)@.has_cpu(c),
            old(self)@.has_task(t),
            old(self)@.slice(t) is Some,
        ensures
            final(self).inv(),
            final(self)@ == old(self)@,
            !accepted,
    {
        assert(self.cpus@[c as int].inv(c as int));
        let entry = self.tasks[t].entry.take();
        match entry {
            Some(task) => {
                let (task, accepted) = self.cpus[c].run_queue.set_priority(task, prio);
                self.tasks[t].entry = Some(task);
                assert(self@.tasks =~= old(self)@.tasks);
                assert(self@.cpus =~= old(self)@.cpus);
                accepted
            },
            None => false,
        }
    }

    /// Gives CPU `c` a new run queue, with a gc task in it.
    pub(crate) fn install_run_queue(&mut self, c: usize, gc_task: usize)
        requires
            old(self).inv(),
            old(self)@.has_cpu(c),
            old(self)@.has_task(gc_task),
            old(self)@.slice(gc_task) is Some,
            old(self)@.ready(c).len() == 0,
        ensures
            final(self).inv(),
            final(self)@ == old(self)@.added(c, gc_task),
    {
        let entry = self.tasks[gc_task].entry.take();
        if let Some(task) = entry {
            self.cpus[c].run_queue = AxRunQueue::new(c, task);
        }
        assert(old(self)@.ready(c) =~= Seq::empty());
        assert(self@.tasks =~= old(self)@.added(c, gc_task).tasks);
        assert(self@.cpus[c as int].ready =~= old(self)@.added(c, gc_task).cpus[c as int].ready);
        assert(self@.cpus =~= old(self)@.added(c, gc_task).cpus);
    }

    /// Appends task `t` to the exited tasks of CPU `c`.
    pub(crate) fn push_exited(&mut self, c: usize, t: usize)
        requires
            old(self).inv(),
            old(self)@.has_cpu(c),
        ensures
            final(self).inv(),
            final(self)@ == old(self)@.with_exited(c, old(self)@.exited(c).push(t)),
    {
        self.cpus[c].exited.push_back(t);
        assert(self@.tasks =~= old(self)@.tasks);
        assert(self@.cpus =~= old(self)@.with_exited(c, old(self)@.exited(c).push(t)).cpus);
    }

    /// Takes the first of the exited tasks of CPU `c`.
    pub(crate) fn pop_exited(&mut self, c: usize) -> (task: Option<usize>)
        requires
            old(self).inv(),
            old(self)@.has_cpu(c),
        ensures
            final(self).inv(),
            match task {
                Some(t) => old(self)@.exited(c).len() > 0 && t == old(self)@.exited(c)[0]
                    && final(self)@ == old(self)@.with_exited(c, old(self)@.exited(c).drop_first()),
                None => old(self)@.exited(c).len() == 0 && final(self)@ == old(self)@,
            },
    {
        let task = self.cpus[c].exited.pop_front();
        assert(self@.tasks =~= old(self)@.tasks);
        if task.is_some() {
            assert(self@.exited(c) =~= old(self)@.exited(c).drop_first());
            assert(self@.cpus =~= old(self)@.with_exited(
                c,
                old(self)@.exited(c).drop_first(),
            ).cpus);
        } else {
            assert(self@.cpus =~= old(self)@.cpus);
        }
        task
    }

    /// Forgets the exited tasks of CPU `c`.
    pub(crate) fn clear_exited(&mut self, c: usize)
        requires
            old(self).inv(),
            old(self)@.has_cpu(c),
        ensures
            final(self).inv(),
            final(self)@ == old(self)@.with_exited(c, Seq::empty()),
    {
        self.cpus[c].exited.clear();
        assert(self@.tasks =~= old(self)@.tasks);
        assert(self@.cpus =~= old(self)@.with_exited(c, Seq::empty()).cpus);
    }

    /// The number of tasks that exited on CPU `c` and were not collected yet.
    pub fn exited_tasks(&self, c: usize) -> (count: usize)
        requires
            self@.has_cpu(c),
        ensures
            count == self@.exited(c).len(),
    {
        self.cpus[c].exited.len()
    }

    /// Where the next scan for an idle CPU starts.
    pub fn next_idle_run_queue(&self) -> (start: usize)
        ensures
            start == self@.next_idle_run_queue,
    {
        self.next_idle_run_queue
    }

    /// Where the next comparison of loads, or search for a migrating task, starts.
    pub fn next_run_queue(&self) -> (start: usize)
        ensures
            start == self@.next_run_queue,
    {
        self.next_run_queue
    }

    /// Moves the cursor for idle CPUs on; returns where it was.
    pub(crate) fn advance_idle_cursor(&mut self) -> (start: usize)
        requires
            old(self).inv(),
        ensures
            final(self).inv(),
            start == old(self)@.next_idle_run_queue,
            final(self)@ == (SystemModel {
                next_idle_run_queue: start.wrapping_add(1),
                ..old(self)@
            }),
    {
        let start = self.next_idle_run_queue;
        self.next_idle_run_queue = start.wrapping_add(1);
        assert(self@.tasks =~= old(self)@.tasks);
        assert(self@.cpus =~= old(self)@.cpus);
        start
    }

    /// Moves the cursor for loads and migrations on; returns where it was.
    pub(crate) fn advance_cursor(&mut self) -> (start: usize)
        requires
            old(self).inv(),
        ensures
            final(self).inv(),
            start == old(self)@.next_run_queue,
            final(self)@ == (SystemModel { next_run_queue: start.wrapping_add(1), ..old(self)@ }),
    {
        let start = self.next_run_queue;
        self.next_run_queue = start.wrapping_add(1);
        assert(self@.tasks =~= old(self)@.tasks);
        assert(self@.cpus =~= old(self)@.cpus);
        start
    }
}

} // verus!
