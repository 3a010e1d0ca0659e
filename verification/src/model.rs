//! The mathematical model of the scheduler's state.
use vstd::prelude::*;

use crate::cpumask::CPU_CAPACITY;
use crate::scheduler::MAX_TIME_SLICE;
use crate::system::CpuInner;
use crate::task::{TaskInner, TaskState};

verus! {

/// A task, with the ticks left of its time slice unless it waits in a ready
/// queue, which then holds them.
#[verifier::ext_equal]
pub struct TaskModel {
    pub info: TaskInner,
    pub slice: Option<isize>,
}

/// A CPU, with its ready queue and the tasks that exited on it.
#[verifier::ext_equal]
pub struct CpuModel {
    pub info: CpuInner,
    pub ready: Seq<(usize, isize)>,
    pub exited: Seq<usize>,
}

/// All tasks, all CPUs and the two placement cursors.
#[verifier::ext_equal]
pub struct SystemModel {
    pub tasks: Seq<TaskModel>,
    pub cpus: Seq<CpuModel>,
    pub next_idle_run_queue: usize,
    pub next_run_queue: usize,
}

impl SystemModel {
    pub open spec fn has_task(self, t: usize) -> bool {
        t < self.tasks.len()
    }

    pub open spec fn has_cpu(self, c: usize) -> bool {
        c < self.cpus.len()
    }

    pub open spec fn task(self, t: usize) -> TaskInner {
        self.tasks[t as int].info
    }

    /// The ticks that task `t` has left, or `None` while it is queued.
    pub open spec fn slice(self, t: usize) -> Option<isize> {
        self.tasks[t as int].slice
    }

    pub open spec fn cpu(self, c: usize) -> CpuInner {
        self.cpus[c as int].info
    }

    /// The ready queue of CPU `c`, from head to tail.
    pub open spec fn ready(self, c: usize) -> Seq<(usize, isize)> {
        self.cpus[c as int].ready
    }

    /// The tasks that exited on CPU `c` and were not collected yet.
    pub open spec fn exited(self, c: usize) -> Seq<usize> {
        self.cpus[c as int].exited
    }

    /// Whether task `t` is current on some initialized CPU `c`.
    pub open spec fn runs(self, c: usize, t: usize) -> bool {
        &&& self.has_cpu(c)
        &&& self.has_task(t)
        &&& self.cpu(c).initialized
        &&& self.cpu(c).current == Some(t)
    }

    pub open spec fn with_task(self, t: usize, info: TaskInner) -> Self {
        SystemModel {
            tasks: self.tasks.update(t as int, TaskModel { info, ..self.tasks[t as int] }),
            ..self
        }
    }

    pub open spec fn with_slice(self, t: usize, slice: Option<isize>) -> Self {
        SystemModel {
            tasks: self.tasks.update(t as int, TaskModel { slice, ..self.tasks[t as int] }),
            ..self
        }
    }

    pub open spec fn with_cpu(self, c: usize, info: CpuInner) -> Self {
        SystemModel {
            cpus: self.cpus.update(c as int, CpuModel { info, ..self.cpus[c as int] }),
            ..self
        }
    }

    pub open spec fn with_ready(self, c: usize, ready: Seq<(usize, isize)>) -> Self {
        SystemModel {
            cpus: self.cpus.update(c as int, CpuModel { ready, ..self.cpus[c as int] }),
            ..self
        }
    }

    pub open spec fn with_exited(self, c: usize, exited: Seq<usize>) -> Self {
        SystemModel {
            cpus: self.cpus.update(c as int, CpuModel { exited, ..self.cpus[c as int] }),
            ..self
        }
    }

    /// A new task at the end of the task table, with a full time slice.
    pub open spec fn spawned(self, info: TaskInner) -> Self {
        SystemModel {
            tasks: self.tasks.push(TaskModel { info, slice: Some(MAX_TIME_SLICE as isize) }),
            ..self
        }
    }

    /// Task `t` joins the ready queue of CPU `c` at its tail, with the ticks
    /// that it has left.
    pub open spec fn added(self, c: usize, t: usize) -> Self {
        self.with_ready(c, self.ready(c).push((t, self.slice(t).unwrap()))).with_slice(t, None)
    }

    /// Task `t`, which just ran, goes back to the ready queue of CPU `c`.
    pub open spec fn put_back(self, c: usize, t: usize, preempt: bool) -> Self {
        self.with_ready(
            c,
            crate::scheduler::put_back(self.ready(c), (t, self.slice(t).unwrap()), preempt),
        ).with_slice(t, None)
    }

    /// The task at the head of the ready queue of CPU `c`, if any, leaves it.
    pub open spec fn picked(self, c: usize) -> Self {
        if self.ready(c).len() == 0 {
            self
        } else {
            self.with_ready(c, self.ready(c).drop_first()).with_slice(
                self.ready(c)[0].0,
                Some(self.ready(c)[0].1),
            )
        }
    }

    /// CPU `c` switches to task `next`, unless that is its current task: then it
    /// only goes on running.
    pub open spec fn switched(self, c: usize, next: usize) -> Self {
        let info = TaskInner {
            preempt_pending: false,
            state: TaskState::Running,
            ..self.task(next)
        };
        let cpu = CpuInner {
            activity: crate::activity::activity_after_switch(self.cpu(c).activity, info.idle()),
            ..self.cpu(c)
        };
        if cpu.current == Some(next) {
            self.with_task(next, info).with_cpu(c, cpu)
        } else {
            self.with_task(next, TaskInner { on_cpu: true, ..info }).with_cpu(
                c,
                CpuInner { current: Some(next), prev: cpu.current, ..cpu },
            )
        }
    }

    /// CPU `c` has saved the context of the task that it switched away from, and
    /// has taken the wake-up that may have been left with it.
    pub open spec fn saved(self, c: usize) -> Self {
        let p = self.cpu(c).prev.unwrap();
        self.with_cpu(c, CpuInner { prev: None, ..self.cpu(c) }).with_task(
            p,
            TaskInner { on_cpu: false, wake_stashed: false, ..self.task(p) },
        )
    }

    /// CPU `c` starts: it runs task `current`, and falls back to task `idle`.
    pub open spec fn started(self, c: usize, current: usize, idle: usize) -> Self {
        self.with_task(
            current,
            TaskInner { state: TaskState::Running, on_cpu: true, ..self.task(current) },
        ).with_cpu(
            c,
            CpuInner { current: Some(current), idle: Some(idle), ..self.cpu(c) },
        )
    }

    /// Task `t` waits at position `i` of the ready queue of CPU `c`.
    pub open spec fn queued_at(self, c: int, i: int, t: usize) -> bool {
        0 <= c < self.cpus.len() && 0 <= i < self.cpus[c].ready.len() && self.cpus[c].ready[i].0
            == t
    }

    /// CPU `c` runs task `t`, or has just switched away from it and has not
    /// reported yet that its context is saved.
    pub open spec fn holds(self, c: int, t: usize) -> bool {
        0 <= c < self.cpus.len() && (self.cpus[c].info.current == Some(t) || self.cpus[c].info.prev
            == Some(t))
    }

    /// Task `t` is the current task of CPU `c`.
    pub open spec fn current_on(self, c: int, t: usize) -> bool {
        0 <= c < self.cpus.len() && self.cpus[c].info.current == Some(t)
    }

    /// A queued task is ready, is no idle task, and is on no CPU, except that
    /// the CPU that holds it may have it in its own queue.
    pub open spec fn wf_queued(self) -> bool {
        forall|c: int, i: int, t: usize| #[trigger]
            self.queued_at(c, i, t) ==> {
                &&& self.has_task(t)
                &&& self.slice(t) is None
                &&& self.task(t).state == TaskState::Ready
                &&& !self.task(t).idle()
                &&& self.task(t).on_cpu ==> self.holds(c, t)
            }
    }

    /// No task is queued twice.
    pub open spec fn wf_unique(self) -> bool {
        forall|c: int, i: int, d: int, j: int, t: usize|
            #![trigger self.queued_at(c, i, t), self.queued_at(d, j, t)]
            self.queued_at(c, i, t) && self.queued_at(d, j, t) ==> c == d && i == j
    }

    /// A task whose slice is with a ready queue is in one.
    pub open spec fn wf_complete(self) -> bool {
        forall|t: usize| #[trigger]
            self.has_task(t) && self.slice(t) is None ==> exists|c: int, i: int|
                self.queued_at(c, i, t)
    }

    /// A wake-up may be left with task `t`: it is ready, not queued, and names the
    /// CPU that is to take it. Some CPU still has the task on it, and will see
    /// the wake-up when it has saved the task's context.
    pub open spec fn is_stashed_rightly(self, t: usize) -> bool {
        &&& self.task(t).state == TaskState::Ready
        &&& self.task(t).on_cpu
        &&& !self.task(t).idle()
        &&& self.slice(t) is Some
        &&& self.has_cpu(self.task(t).cpu_id)
    }

    /// Every deferred wake-up is with a task that it may be left with.
    pub open spec fn wf_stash(self) -> bool {
        forall|t: usize| #[trigger]
            self.has_task(t) && self.task(t).wake_stashed ==> self.is_stashed_rightly(t)
    }

    /// A task is on a CPU exactly while a CPU holds it; no two CPUs hold the
    /// same task, and a CPU does not hold one task in both places.
    pub open spec fn wf_held(self) -> bool {
        &&& forall|c: int, t: usize| #[trigger]
            self.holds(c, t) ==> self.has_task(t) && self.task(t).on_cpu && (self.task(t).idle()
                ==> self.cpus[c].info.idle == Some(t))
        &&& forall|c: int, d: int, t: usize|
            #![trigger self.holds(c, t), self.holds(d, t)]
            self.holds(c, t) && self.holds(d, t) ==> c == d
        &&& forall|c: int|
            0 <= c < self.cpus.len() && (#[trigger] self.cpus[c]).info.prev is Some
                ==> self.cpus[c].info.prev != self.cpus[c].info.current
        &&& forall|t: usize| #[trigger]
            self.has_task(t) && self.task(t).on_cpu ==> exists|c: int| self.holds(c, t)
    }

    /// A running task is the current task of some CPU.
    pub open spec fn wf_running(self) -> bool {
        forall|t: usize| #[trigger]
            self.has_task(t) && self.task(t).state == TaskState::Running ==> exists|c: int|
                self.current_on(c, t)
    }

    /// An initialized CPU has a current task and an idle task of its own. An
    /// idle task is allowed on its CPU, and is either ready or running.
    pub open spec fn wf_idle(self) -> bool {
        &&& forall|c: int|
            0 <= c < self.cpus.len() && (#[trigger] self.cpus[c]).info.idle is Some ==> {
                let t = self.cpus[c].info.idle.unwrap();
                &&& self.has_task(t)
                &&& self.task(t).idle()
                &&& self.task(t).cpumask.has(c as usize)
                &&& self.task(t).state == TaskState::Ready || self.task(t).state
                    == TaskState::Running
            }
        &&& forall|c: int, d: int|
            0 <= c < self.cpus.len() && 0 <= d < self.cpus.len() && (
            #[trigger] self.cpus[c]).info.idle is Some && self.cpus[c].info.idle == (
            #[trigger] self.cpus[d]).info.idle ==> c == d
        &&& forall|c: int|
            0 <= c < self.cpus.len() && (#[trigger] self.cpus[c]).info.initialized
                ==> self.cpus[c].info.idle is Some && self.cpus[c].info.current is Some
    }

    /// What every operation on the run queues keeps.
    pub open spec fn wf(self) -> bool {
        &&& self.tasks.len() < usize::MAX
        &&& self.cpus.len() <= CPU_CAPACITY
        &&& self.wf_queued()
        &&& self.wf_unique()
        &&& self.wf_complete()
        &&& self.wf_stash()
        &&& self.wf_held()
        &&& self.wf_running()
        &&& self.wf_idle()
    }
}

/// Changing what a task says of itself, but neither its role nor whether it is
/// on a CPU, keeps the state valid.
pub(crate) proof fn lemma_with_task(m: SystemModel, t: usize, info: TaskInner)
    requires
        m.wf(),
        m.has_task(t),
        info.role == m.task(t).role,
        info.on_cpu == m.task(t).on_cpu,
        m.slice(t) is None ==> info.state == TaskState::Ready,
        info.idle() ==> info.cpumask == m.task(t).cpumask && (info.state == TaskState::Ready
            || info.state == m.task(t).state),
        info.state == TaskState::Running ==> m.task(t).state == TaskState::Running,
        info.wake_stashed ==> {
            &&& info.state == TaskState::Ready
            &&& info.on_cpu
            &&& !info.idle()
            &&& m.slice(t) is Some
            &&& m.has_cpu(info.cpu_id)
        },
    ensures
        m.with_task(t, info).wf(),
{
    let n = m.with_task(t, info);
    lemma_queues_frame(m, n);
    lemma_held_frame(m, n);
    lemma_running_frame(m, n);
}

/// Who runs which task only depends on the tasks' states and on the CPUs'
/// current tasks.
proof fn lemma_running_frame(m: SystemModel, n: SystemModel)
    requires
        m.wf_running(),
        m.tasks.len() == n.tasks.len(),
        forall|u: usize| #[trigger]
            n.has_task(u) && n.task(u).state == TaskState::Running ==> m.task(u).state
                == TaskState::Running,
        same_holders(m, n),
    ensures
        n.wf_running(),
{
    assert forall|u: usize| #[trigger]
        n.has_task(u) && n.task(u).state == TaskState::Running implies exists|c: int|
        n.current_on(c, u) by {
        assert(m.has_task(u));
        let c = choose|c: int| m.current_on(c, u);
        assert(n.cpus[c].info.current == m.cpus[c].info.current);
        assert(n.current_on(c, u));
    }
}

/// Whether each task keeps its role and stays on or off a CPU.
spec fn same_presence(m: SystemModel, n: SystemModel) -> bool {
    &&& m.tasks.len() == n.tasks.len()
    &&& forall|u: usize| #[trigger]
        n.has_task(u) ==> n.task(u).role == m.task(u).role && n.task(u).on_cpu == m.task(u).on_cpu
}

/// Whether each CPU keeps its current, idle and previous task.
spec fn same_holders(m: SystemModel, n: SystemModel) -> bool {
    &&& m.cpus.len() == n.cpus.len()
    &&& forall|c: int|
        0 <= c < n.cpus.len() ==> (#[trigger] n.cpus[c]).info.current == m.cpus[c].info.current
            && n.cpus[c].info.prev == m.cpus[c].info.prev && n.cpus[c].info.idle
            == m.cpus[c].info.idle
}

/// Who holds which task only depends on what the CPUs and tasks say of it.
proof fn lemma_held_frame(m: SystemModel, n: SystemModel)
    requires
        m.wf_held(),
        same_presence(m, n),
        same_holders(m, n),
    ensures
        n.wf_held(),
{
    assert forall|c: int, u: usize| #[trigger] n.holds(c, u) implies n.has_task(u) && n.task(
        u,
    ).on_cpu && (n.task(u).idle() ==> n.cpus[c].info.idle == Some(u)) by {
        assert(m.holds(c, u));
        assert(n.has_task(u));
    }
    assert forall|c: int, d: int, u: usize|
        #![trigger n.holds(c, u), n.holds(d, u)]
        n.holds(c, u) && n.holds(d, u) implies c == d by {
        assert(m.holds(c, u) && m.holds(d, u));
    }
    assert forall|c: int|
        0 <= c < n.cpus.len() && (#[trigger] n.cpus[c]).info.prev is Some implies n.cpus[c].info.prev
        != n.cpus[c].info.current by {
        assert(m.cpus[c].info.prev is Some);
    }
    assert forall|u: usize| #[trigger] n.has_task(u) && n.task(u).on_cpu implies exists|c: int|
        n.holds(c, u) by {
        assert(m.has_task(u));
        let c = choose|c: int| m.holds(c, u);
        assert(n.cpus[c].info.current == m.cpus[c].info.current);
        assert(n.holds(c, u));
    }
}

/// Changing a CPU's flags, but not which tasks it holds, keeps the state valid.
pub(crate) proof fn lemma_with_cpu(m: SystemModel, c: usize, info: CpuInner)
    requires
        m.wf(),
        m.has_cpu(c),
        info.current == m.cpu(c).current,
        info.idle == m.cpu(c).idle,
        info.prev == m.cpu(c).prev,
        info.initialized ==> info.idle is Some && info.current is Some,
    ensures
        m.with_cpu(c, info).wf(),
{
    let n = m.with_cpu(c, info);
    lemma_held_frame(m, n);
    lemma_running_frame(m, n);
    lemma_queues_frame(m, n);
}

/// Writing back what a CPU says of itself changes nothing.
pub(crate) proof fn lemma_same_cpu(m: SystemModel, c: usize)
    requires
        m.has_cpu(c),
    ensures
        m.with_cpu(c, m.cpu(c)) == m,
{
    assert(m.with_cpu(c, m.cpu(c)).cpus =~= m.cpus);
}

/// Writing back what a task says of itself changes nothing.
pub(crate) proof fn lemma_same_task(m: SystemModel, t: usize)
    requires
        m.has_task(t),
    ensures
        m.with_task(t, m.task(t)) == m,
{
    assert(m.with_task(t, m.task(t)).tasks =~= m.tasks);
}

/// Neither the exited tasks nor the placement cursors matter for validity.
pub(crate) proof fn lemma_unrelated(m: SystemModel, n: SystemModel)
    requires
        m.wf(),
        m.tasks == n.tasks,
        m.cpus.len() == n.cpus.len(),
        forall|c: int|
            0 <= c < n.cpus.len() ==> (#[trigger] n.cpus[c]).info == m.cpus[c].info
                && n.cpus[c].ready == m.cpus[c].ready,
    ensures
        n.wf(),
{
    lemma_held_frame(m, n);
    lemma_running_frame(m, n);
    lemma_queues_frame(m, n);
    assert forall|d: int| 0 <= d < n.cpus.len() && (#[trigger] n.cpus[d]).info.idle is Some implies {
        let t = n.cpus[d].info.idle.unwrap();
        &&& n.has_task(t)
        &&& n.task(t).idle()
        &&& n.task(t).cpumask.has(d as usize)
        &&& n.task(t).state == TaskState::Ready || n.task(t).state == TaskState::Running
    } by {
        assert(m.cpus[d].info.idle is Some);
    }
    assert forall|d: int, e: int|
        0 <= d < n.cpus.len() && 0 <= e < n.cpus.len() && (#[trigger] n.cpus[d]).info.idle is Some
            && n.cpus[d].info.idle == (#[trigger] n.cpus[e]).info.idle implies d == e by {
        assert(m.cpus[d].info.idle == m.cpus[e].info.idle);
    }
    assert forall|d: int|
        0 <= d < n.cpus.len() && (#[trigger] n.cpus[d]).info.initialized implies n.cpus[d].info.idle is Some
        && n.cpus[d].info.current is Some by {
        assert(m.cpus[d].info.initialized);
    }
}

/// The ticks that an unqueued task has left may change.
pub(crate) proof fn lemma_ticked(m: SystemModel, t: usize, ticks: isize)
    requires
        m.wf(),
        m.has_task(t),
        m.slice(t) is Some,
    ensures
        m.with_slice(t, Some(ticks)).wf(),
{
    let n = m.with_slice(t, Some(ticks));
    lemma_held_frame(m, n);
    lemma_running_frame(m, n);
    lemma_queues_frame(m, n);
}

/// The ready queues, their tasks and the deferred wake-ups stay valid in a state
/// with the same queues if each queued task stays ready and is on no further CPU,
/// no other task counts as queued, and each deferred wake-up that is not as
/// before is valid in itself.
proof fn lemma_queues_frame(m: SystemModel, n: SystemModel)
    requires
        m.wf_queued(),
        m.wf_unique(),
        m.wf_complete(),
        m.wf_stash(),
        m.cpus.len() == n.cpus.len(),
        forall|c: int| 0 <= c < n.cpus.len() ==> (#[trigger] n.cpus[c]).ready == m.cpus[c].ready,
        forall|u: usize| #[trigger]
            m.has_task(u) && m.slice(u) is None ==> {
                &&& n.has_task(u)
                &&& n.slice(u) is None
                &&& n.task(u).state == TaskState::Ready
                &&& n.task(u).role == m.task(u).role
                &&& n.task(u).on_cpu ==> m.task(u).on_cpu
            },
        forall|u: usize| #[trigger]
            n.has_task(u) && n.slice(u) is None ==> m.has_task(u) && m.slice(u) is None,
        forall|c: int, u: usize| #[trigger]
            m.holds(c, u) && n.task(u).on_cpu ==> n.holds(c, u),
        forall|u: usize| #[trigger]
            n.has_task(u) && n.task(u).wake_stashed ==> n.is_stashed_rightly(u) || (m.has_task(u)
                && n.task(u) == m.task(u) && n.slice(u) == m.slice(u)),
    ensures
        n.wf_queued(),
        n.wf_unique(),
        n.wf_complete(),
        n.wf_stash(),
{
    assert forall|c: int, i: int, u: usize| #[trigger] n.queued_at(c, i, u) implies m.queued_at(
        c,
        i,
        u,
    ) && m.has_task(u) by {
        assert(n.cpus[c].ready == m.cpus[c].ready);
        assert(m.queued_at(c, i, u));
    }
    assert forall|c: int, i: int, u: usize| #[trigger] n.queued_at(c, i, u) implies {
        &&& n.has_task(u)
        &&& n.slice(u) is None
        &&& n.task(u).state == TaskState::Ready
        &&& !n.task(u).idle()
        &&& n.task(u).on_cpu ==> n.holds(c, u)
    } by {
        assert(m.has_task(u));
        assert(m.task(u).on_cpu ==> m.holds(c, u));
    }
    assert forall|u: usize| #[trigger] n.has_task(u) && n.slice(u) is None implies exists|
        c: int,
        i: int,
    | n.queued_at(c, i, u) by {
        assert(m.has_task(u));
        let (c, i) = choose|c: int, i: int| m.queued_at(c, i, u);
        assert(n.cpus[c].ready == m.cpus[c].ready);
        assert(n.queued_at(c, i, u));
    }
}

/// A ready task that is not queued and not held by another CPU can join a
/// ready queue at any position.
proof fn lemma_inserted(m: SystemModel, c: usize, t: usize, at: int, ticks: isize)
    requires
        m.wf(),
        m.has_cpu(c),
        m.has_task(t),
        m.slice(t) is Some,
        m.task(t).state == TaskState::Ready,
        !m.task(t).idle(),
        !m.task(t).wake_stashed,
        m.task(t).on_cpu ==> m.holds(c as int, t),
        0 <= at <= m.ready(c).len(),
    ensures
        m.with_ready(c, m.ready(c).insert(at, (t, ticks))).with_slice(t, None).wf(),
{
    let ready = m.ready(c).insert(at, (t, ticks));
    let n = m.with_ready(c, ready).with_slice(t, None);
    let k = c as int;
    lemma_held_frame(m, n);
    lemma_running_frame(m, n);
    assert(n.cpus[k].ready == ready);
    // Where a queued task of the new state was before.
    assert forall|d: int, j: int, u: usize| #[trigger] n.queued_at(d, j, u) implies if d == k && j
        == at {
        u == t
    } else {
        m.queued_at(
            d,
            if d == k && j > at {
                j - 1
            } else {
                j
            },
            u,
        ) && u != t
    } by {}
    assert forall|d: int, j: int, u: usize| #[trigger] n.queued_at(d, j, u) implies {
        &&& n.has_task(u)
        &&& n.slice(u) is None
        &&& n.task(u).state == TaskState::Ready
        &&& !n.task(u).idle()
        &&& n.task(u).on_cpu ==> n.holds(d, u)
    } by {
        if u == t {
            assert(d == k);
            assert(m.holds(k, t) ==> n.holds(k, t));
        } else {
            let was = if d == k && j > at {
                j - 1
            } else {
                j
            };
            assert(m.queued_at(d, was, u));
        }
    }
    assert forall|d: int, j: int, e: int, l: int, u: usize|
        #![trigger n.queued_at(d, j, u), n.queued_at(e, l, u)]
        n.queued_at(d, j, u) && n.queued_at(e, l, u) implies d == e && j == l by {
        if u != t {
            let wj = if d == k && j > at {
                j - 1
            } else {
                j
            };
            let wl = if e == k && l > at {
                l - 1
            } else {
                l
            };
            assert(m.queued_at(d, wj, u) && m.queued_at(e, wl, u));
        }
    }
    assert forall|u: usize| #[trigger] n.has_task(u) && n.slice(u) is None implies exists|
        d: int,
        j: int,
    | n.queued_at(d, j, u) by {
        assert(m.has_task(u));
        if u == t {
            assert(n.queued_at(k, at, u));
        } else {
            let (d, j) = choose|d: int, j: int| m.queued_at(d, j, u);
            let is = if d == k && j >= at {
                j + 1
            } else {
                j
            };
            assert(n.queued_at(d, is, u));
        }
    }
    assert forall|u: usize| #[trigger] n.has_task(u) && n.task(u).wake_stashed implies {
        &&& n.task(u).state == TaskState::Ready
        &&& n.task(u).on_cpu
        &&& !n.task(u).idle()
        &&& n.slice(u) is Some
        &&& n.has_cpu(n.task(u).cpu_id)
    } by {
        assert(m.has_task(u));
    }
}

/// A ready task that is not queued and not held by another CPU can be added to
/// a ready queue or put back into it.
pub(crate) proof fn lemma_enqueued(m: SystemModel, c: usize, t: usize, preempt: bool)
    requires
        m.wf(),
        m.has_cpu(c),
        m.has_task(t),
        m.slice(t) is Some,
        m.task(t).state == TaskState::Ready,
        !m.task(t).idle(),
        !m.task(t).wake_stashed,
        m.task(t).on_cpu ==> m.holds(c as int, t),
    ensures
        m.added(c, t).wf(),
        m.put_back(c, t, preempt).wf(),
{
    let ready = m.ready(c);
    let ticks = m.slice(t).unwrap();
    let full = MAX_TIME_SLICE as isize;
    lemma_inserted(m, c, t, 0, ticks);
    lemma_inserted(m, c, t, ready.len() as int, ticks);
    lemma_inserted(m, c, t, ready.len() as int, full);
    assert(ready.insert(0, (t, ticks)) =~= seq![(t, ticks)] + ready);
    assert(ready.insert(ready.len() as int, (t, ticks)) =~= ready.push((t, ticks)));
    assert(ready.insert(ready.len() as int, (t, full)) =~= ready.push((t, full)));
}

/// Taking the head of a ready queue keeps the state valid, and leaves a ready
/// task that is in no queue.
pub(crate) proof fn lemma_picked(m: SystemModel, c: usize)
    requires
        m.wf(),
        m.has_cpu(c),
    ensures
        m.picked(c).wf(),
        m.ready(c).len() > 0 ==> {
            let t = m.ready(c)[0].0;
            &&& m.has_task(t)
            &&& m.task(t).state == TaskState::Ready
            &&& !m.task(t).idle()
            &&& !m.task(t).wake_stashed
            &&& m.task(t).on_cpu ==> m.holds(c as int, t)
        },
{
    if m.ready(c).len() > 0 {
        let t = m.ready(c)[0].0;
        let n = m.picked(c);
        let k = c as int;
        assert(m.queued_at(k, 0, t));
        lemma_held_frame(m, n);
        lemma_running_frame(m, n);
        assert forall|d: int, j: int, u: usize| #[trigger] n.queued_at(d, j, u) implies m.queued_at(
            d,
            if d == k {
                j + 1
            } else {
                j
            },
            u,
        ) && u != t by {
            let was = if d == k {
                j + 1
            } else {
                j
            };
            assert(m.queued_at(d, was, u));
        }
        assert forall|d: int, j: int, u: usize| #[trigger] n.queued_at(d, j, u) implies {
            &&& n.has_task(u)
            &&& n.slice(u) is None
            &&& n.task(u).state == TaskState::Ready
            &&& !n.task(u).idle()
            &&& n.task(u).on_cpu ==> n.holds(d, u)
        } by {
            assert(m.holds(d, u) ==> n.holds(d, u));
        }
        assert forall|d: int, j: int, e: int, l: int, u: usize|
            #![trigger n.queued_at(d, j, u), n.queued_at(e, l, u)]
            n.queued_at(d, j, u) && n.queued_at(e, l, u) implies d == e && j == l by {
            let wj = if d == k {
                j + 1
            } else {
                j
            };
            let wl = if e == k {
                l + 1
            } else {
                l
            };
            assert(m.queued_at(d, wj, u) && m.queued_at(e, wl, u));
        }
        assert forall|u: usize| #[trigger] n.has_task(u) && n.slice(u) is None implies exists|
            d: int,
            j: int,
        | n.queued_at(d, j, u) by {
            assert(m.has_task(u));
            let (d, j) = choose|d: int, j: int| m.queued_at(d, j, u);
            let is = if d == k {
                j - 1
            } else {
                j
            };
            assert(n.queued_at(d, is, u));
        }
        assert forall|u: usize| #[trigger] n.has_task(u) && n.task(u).wake_stashed implies {
            &&& n.task(u).state == TaskState::Ready
            &&& n.task(u).on_cpu
            &&& !n.task(u).idle()
            &&& n.slice(u) is Some
            &&& n.has_cpu(n.task(u).cpu_id)
        } by {
            assert(m.has_task(u));
        }
        assert(m.has_task(t));
    }
}

/// A CPU may switch to a task that is not queued and that no other CPU holds,
/// once the previous switch is complete and its current task has stopped running.
pub(crate) proof fn lemma_switched(m: SystemModel, c: usize, next: usize)
    requires
        m.wf(),
        m.has_cpu(c),
        m.cpu(c).initialized,
        m.has_task(next),
        m.slice(next) is Some,
        !m.task(next).wake_stashed,
        m.task(next).on_cpu ==> m.holds(c as int, next),
        m.task(next).idle() ==> m.cpu(c).idle == Some(next),
        m.cpu(c).current != Some(next) ==> {
            &&& m.cpu(c).prev is None
            &&& m.task(m.cpu(c).current.unwrap()).state != TaskState::Running
        },
    ensures
        m.switched(c, next).wf(),
{
    let n = m.switched(c, next);
    let k = c as int;
    let info = TaskInner { preempt_pending: false, state: TaskState::Running, ..m.task(next) };
    assert(m.cpus[k].info.current is Some);
    let prev = m.cpu(c).current.unwrap();
    assert(m.holds(k, prev));
    assert forall|u: usize| #[trigger]
        n.has_task(u) && n.task(u).state == TaskState::Running implies exists|d: int|
        n.current_on(d, u) by {
        if u == next {
            assert(n.current_on(k, u));
        } else {
            assert(m.has_task(u));
            let d = choose|d: int| m.current_on(d, u);
            assert(d != k || prev == next);
            assert(n.current_on(d, u));
        }
    }
    if prev == next {
        lemma_held_frame(m, n);
    } else {
        assert forall|d: int, u: usize| #[trigger] n.holds(d, u) implies if u == next {
            d == k
        } else {
            m.holds(d, u)
        } by {
            if d != k && u == next {
                assert(m.holds(d, next));
                assert(m.task(next).on_cpu);
                assert(m.holds(k, next));
            }
        }
        assert forall|d: int, u: usize| #[trigger] m.holds(d, u) implies n.holds(d, u) by {}
        assert forall|d: int, u: usize| #[trigger] n.holds(d, u) implies n.has_task(u) && n.task(
            u,
        ).on_cpu && (n.task(u).idle() ==> n.cpus[d].info.idle == Some(u)) by {}
        assert forall|d: int, e: int, u: usize|
            #![trigger n.holds(d, u), n.holds(e, u)]
            n.holds(d, u) && n.holds(e, u) implies d == e by {
            if u != next {
                assert(m.holds(d, u) && m.holds(e, u));
            }
        }
        assert forall|d: int|
            0 <= d < n.cpus.len() && (
            #[trigger] n.cpus[d]).info.prev is Some implies n.cpus[d].info.prev
            != n.cpus[d].info.current by {
            if d != k {
                assert(m.cpus[d].info.prev is Some);
            }
        }
        assert forall|u: usize| #[trigger] n.has_task(u) && n.task(u).on_cpu implies exists|d: int|
            n.holds(d, u) by {
            assert(m.has_task(u));
            if u == next {
                assert(n.holds(k, next));
            } else {
                let d = choose|d: int| m.holds(d, u);
                assert(n.holds(d, u));
            }
        }
    }
    lemma_queues_frame(m, n);
    assert forall|d: int|
        0 <= d < n.cpus.len() && (#[trigger] n.cpus[d]).info.idle is Some implies {
        let t = n.cpus[d].info.idle.unwrap();
        &&& n.has_task(t)
        &&& n.task(t).idle()
        &&& n.task(t).cpumask.has(d as usize)
        &&& n.task(t).state == TaskState::Ready || n.task(t).state == TaskState::Running
    } by {
        assert(m.cpus[d].info.idle is Some);
        if m.cpus[d].info.idle == Some(next) {
            assert(m.cpus[k].info.idle == Some(next));
        }
    }
    assert forall|d: int, e: int|
        0 <= d < n.cpus.len() && 0 <= e < n.cpus.len() && (#[trigger] n.cpus[d]).info.idle is Some
            && n.cpus[d].info.idle == (#[trigger] n.cpus[e]).info.idle implies d == e by {
        assert(m.cpus[d].info.idle == m.cpus[e].info.idle);
    }
}

/// Once a context is saved, its task is on no CPU any more.
pub(crate) proof fn lemma_saved(m: SystemModel, c: usize)
    requires
        m.wf(),
        m.has_cpu(c),
        m.cpu(c).prev is Some,
    ensures
        m.saved(c).wf(),
        m.has_task(m.cpu(c).prev.unwrap()),
{
    let n = m.saved(c);
    let k = c as int;
    let p = m.cpu(c).prev.unwrap();
    assert(m.holds(k, p));
    assert forall|u: usize| #[trigger]
        n.has_task(u) && n.task(u).state == TaskState::Running implies exists|d: int|
        n.current_on(d, u) by {
        assert(m.has_task(u));
        let d = choose|d: int| m.current_on(d, u);
        assert(n.current_on(d, u));
    }
    assert(m.cpus[k].info.prev != m.cpus[k].info.current);
    assert forall|d: int, u: usize| #[trigger] n.holds(d, u) implies m.holds(d, u) && u != p by {
        assert(m.holds(d, u));
    }
    assert forall|d: int, u: usize| #[trigger] m.holds(d, u) && u != p implies n.holds(d, u) by {}
    assert forall|d: int, e: int, u: usize|
        #![trigger n.holds(d, u), n.holds(e, u)]
        n.holds(d, u) && n.holds(e, u) implies d == e by {
        assert(m.holds(d, u) && m.holds(e, u));
    }
    assert forall|d: int|
        0 <= d < n.cpus.len() && (#[trigger] n.cpus[d]).info.prev is Some implies n.cpus[d].info.prev
        != n.cpus[d].info.current by {
        assert(m.cpus[d].info.prev is Some);
    }
    assert forall|u: usize| #[trigger] n.has_task(u) && n.task(u).on_cpu implies exists|d: int|
        n.holds(d, u) by {
        assert(m.has_task(u));
        let d = choose|d: int| m.holds(d, u);
        assert(n.holds(d, u));
    }
    lemma_queues_frame(m, n);
    assert forall|d: int|
        0 <= d < n.cpus.len() && (#[trigger] n.cpus[d]).info.idle is Some implies {
        let t = n.cpus[d].info.idle.unwrap();
        &&& n.has_task(t)
        &&& n.task(t).idle()
        &&& n.task(t).cpumask.has(d as usize)
        &&& n.task(t).state == TaskState::Ready || n.task(t).state == TaskState::Running
    } by {
        assert(m.cpus[d].info.idle is Some);
    }
    assert forall|d: int, e: int|
        0 <= d < n.cpus.len() && 0 <= e < n.cpus.len() && (#[trigger] n.cpus[d]).info.idle is Some
            && n.cpus[d].info.idle == (#[trigger] n.cpus[e]).info.idle implies d == e by {
        assert(m.cpus[d].info.idle == m.cpus[e].info.idle);
    }
    assert forall|d: int|
        0 <= d < n.cpus.len() && (#[trigger] n.cpus[d]).info.initialized implies n.cpus[d].info.idle is Some
        && n.cpus[d].info.current is Some by {
        assert(m.cpus[d].info.initialized);
    }
}

/// A new task that no CPU holds keeps the state valid.
pub(crate) proof fn lemma_spawned(m: SystemModel, info: TaskInner)
    requires
        m.wf(),
        m.tasks.len() + 1 < usize::MAX,
        !info.on_cpu,
        !info.wake_stashed,
        info.state != TaskState::Running,
    ensures
        m.spawned(info).wf(),
{
    let n = m.spawned(info);
    let t = m.tasks.len() as usize;
    assert forall|u: usize| #[trigger]
        n.has_task(u) && n.task(u).state == TaskState::Running implies exists|d: int|
        n.current_on(d, u) by {
        assert(m.has_task(u));
        let d = choose|d: int| m.current_on(d, u);
        assert(n.current_on(d, u));
    }
    assert forall|d: int, u: usize| #[trigger] n.holds(d, u) implies m.holds(d, u) && u != t by {
        assert(m.holds(d, u));
        assert(m.has_task(u));
    }
    assert forall|d: int, u: usize| #[trigger] m.holds(d, u) implies n.holds(d, u) by {}
    assert forall|d: int, e: int, u: usize|
        #![trigger n.holds(d, u), n.holds(e, u)]
        n.holds(d, u) && n.holds(e, u) implies d == e by {
        assert(m.holds(d, u) && m.holds(e, u));
    }
    assert forall|u: usize| #[trigger] n.has_task(u) && n.task(u).on_cpu implies exists|d: int|
        n.holds(d, u) by {
        assert(m.has_task(u));
        let d = choose|d: int| m.holds(d, u);
        assert(n.holds(d, u));
    }
    lemma_queues_frame(m, n);
}

/// A task that is not queued has its slice with it.
pub(crate) proof fn lemma_unqueued(m: SystemModel, t: usize)
    requires
        m.wf(),
        m.has_task(t),
        m.task(t).state != TaskState::Ready || m.task(t).idle(),
    ensures
        m.slice(t) is Some,
{
    if m.slice(t) is None {
        let (c, i) = choose|c: int, i: int| m.queued_at(c, i, t);
        assert(m.queued_at(c, i, t));
    }
}

/// A CPU that held no task yet may start with a task that no CPU holds, and
/// with an idle task that is no other CPU's.
pub(crate) proof fn lemma_started(m: SystemModel, c: usize, current: usize, idle: usize)
    requires
        m.wf(),
        m.has_cpu(c),
        m.cpu(c).current is None,
        m.cpu(c).prev is None,
        m.cpu(c).idle is None,
        m.has_task(current),
        m.slice(current) is Some,
        !m.task(current).on_cpu,
        m.task(current).idle() ==> current == idle,
        m.has_task(idle),
        m.task(idle).idle(),
        m.task(idle).cpumask.has(c),
        m.task(idle).state == TaskState::Ready,
        forall|d: int| 0 <= d < m.cpus.len() ==> (#[trigger] m.cpus[d]).info.idle != Some(idle),
    ensures
        m.started(c, current, idle).wf(),
{
    let n = m.started(c, current, idle);
    let k = c as int;
    assert forall|d: int, u: usize| #[trigger] n.holds(d, u) implies if u == current {
        d == k
    } else {
        m.holds(d, u)
    } by {
        if d != k {
            assert(m.holds(d, u));
        }
    }
    assert forall|d: int, u: usize| #[trigger] m.holds(d, u) implies n.holds(d, u) && u != current by {
        assert(m.task(u).on_cpu);
    }
    assert forall|d: int, e: int, u: usize|
        #![trigger n.holds(d, u), n.holds(e, u)]
        n.holds(d, u) && n.holds(e, u) implies d == e by {
        if u != current {
            assert(m.holds(d, u) && m.holds(e, u));
        }
    }
    assert forall|d: int|
        0 <= d < n.cpus.len() && (#[trigger] n.cpus[d]).info.prev is Some implies n.cpus[d].info.prev
        != n.cpus[d].info.current by {
        assert(m.cpus[d].info.prev is Some);
    }
    assert forall|u: usize| #[trigger] n.has_task(u) && n.task(u).on_cpu implies exists|d: int|
        n.holds(d, u) by {
        assert(m.has_task(u));
        if u == current {
            assert(n.holds(k, u));
        } else {
            let d = choose|d: int| m.holds(d, u);
            assert(n.holds(d, u));
        }
    }
    assert forall|u: usize| #[trigger]
        n.has_task(u) && n.task(u).state == TaskState::Running implies exists|d: int|
        n.current_on(d, u) by {
        if u == current {
            assert(n.current_on(k, u));
        } else {
            assert(m.has_task(u));
            let d = choose|d: int| m.current_on(d, u);
            assert(n.current_on(d, u));
        }
    }
    lemma_queues_frame(m, n);
    assert forall|d: int|
        0 <= d < n.cpus.len() && (#[trigger] n.cpus[d]).info.idle is Some implies {
        let t = n.cpus[d].info.idle.unwrap();
        &&& n.has_task(t)
        &&& n.task(t).idle()
        &&& n.task(t).cpumask.has(d as usize)
        &&& n.task(t).state == TaskState::Ready || n.task(t).state == TaskState::Running
    } by {
        if d != k {
            assert(m.cpus[d].info.idle is Some);
        }
    }
    assert forall|d: int, e: int|
        0 <= d < n.cpus.len() && 0 <= e < n.cpus.len() && (#[trigger] n.cpus[d]).info.idle is Some
            && n.cpus[d].info.idle == (#[trigger] n.cpus[e]).info.idle implies d == e by {
        if d != k && e != k {
            assert(m.cpus[d].info.idle == m.cpus[e].info.idle);
        }
    }
    assert forall|d: int|
        0 <= d < n.cpus.len() && (#[trigger] n.cpus[d]).info.initialized implies n.cpus[d].info.idle is Some
        && n.cpus[d].info.current is Some by {
        if d != k {
            assert(m.cpus[d].info.initialized);
        }
    }
}

/// A ready queue is no longer than the task table, since no task is in it twice.
pub(crate) proof fn lemma_ready_len(m: SystemModel, c: usize)
    requires
        m.wf(),
        m.has_cpu(c),
    ensures
        m.ready(c).len() <= m.tasks.len(),
        forall|t: usize| #[trigger] m.has_task(t) && m.slice(t) is Some ==> m.ready(c).len()
            < m.tasks.len(),
{
    let ids = Seq::new(m.ready(c).len(), |i: int| m.ready(c)[i].0 as int);
    let all = vstd::set_lib::set_int_range(0, m.tasks.len() as int);
    vstd::set_lib::lemma_int_range(0, m.tasks.len() as int);
    assert(ids.no_duplicates()) by {
        assert forall|i: int, j: int|
            0 <= i < ids.len() && 0 <= j < ids.len() && i != j implies ids[i] != ids[j] by {
            assert(m.queued_at(c as int, i, m.ready(c)[i].0));
            assert(m.queued_at(c as int, j, m.ready(c)[j].0));
        }
    }
    ids.unique_seq_to_set();
    assert forall|x: int| ids.to_set().contains(x) implies all.contains(x) by {
        let i = choose|i: int| 0 <= i < ids.len() && ids[i] == x;
        assert(m.queued_at(c as int, i, m.ready(c)[i].0));
    }
    vstd::set_lib::lemma_len_subset(ids.to_set(), all);
    assert forall|t: usize| #[trigger] m.has_task(t) && m.slice(t) is Some implies m.ready(c).len()
        < m.tasks.len() by {
        let rest = all.remove(t as int);
        assert forall|x: int| ids.to_set().contains(x) implies rest.contains(x) by {
            let i = choose|i: int| 0 <= i < ids.len() && ids[i] == x;
            assert(m.queued_at(c as int, i, m.ready(c)[i].0));
        }
        vstd::set_lib::lemma_len_subset(ids.to_set(), rest);
    }
}

} // verus!
