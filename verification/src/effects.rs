//! What each operation changes and what it leaves alone, field by field.
use vstd::prelude::*;

use crate::activity::{
    RUN_QUEUE_ACTIVITY_BUSY, RUN_QUEUE_ACTIVITY_IDLE, RUN_QUEUE_ACTIVITY_RESERVED,
};
use crate::cpumask::AxCpuMask;
use crate::dispatch::ContextSwitch;
use crate::model::SystemModel;
use crate::placement::RunQueueSelection;
use crate::scheduler::MAX_TIME_SLICE;
use crate::system::CpuInner;
use crate::task::{TaskInner, TaskRole, TaskState};

verus! {

/// Every task of `m` but those of `except` is the same in `n`.
pub open spec fn tasks_kept(m: SystemModel, n: SystemModel, except: Set<usize>) -> bool {
    forall|u: usize| #[trigger]
        m.has_task(u) && !except.contains(u) ==> n.has_task(u) && n.task(u) == m.task(u)
            && n.slice(u) == m.slice(u)
}

/// `m` and `n` have the same CPUs, and every one but those of `except` is the
/// same in both.
pub open spec fn cpus_kept(m: SystemModel, n: SystemModel, except: Set<usize>) -> bool {
    n.cpus.len() == m.cpus.len() && forall|d: usize| #[trigger]
        m.has_cpu(d) && !except.contains(d) ==> n.cpu(d) == m.cpu(d) && n.ready(d) == m.ready(d)
            && n.exited(d) == m.exited(d)
}

/// The placement cursors of `m` and `n` are the same.
pub open spec fn cursors_kept(m: SystemModel, n: SystemModel) -> bool {
    n.next_idle_run_queue == m.next_idle_run_queue && n.next_run_queue == m.next_run_queue
}

/// The task at the head of a ready queue that is not empty is the one that runs
/// next, whatever state the current task was left in. It takes its remaining
/// ticks along, and the queue loses nothing else.
pub proof fn rescheduling_takes_the_head(m: SystemModel, c: usize)
    requires
        m.wf(),
        m.has_cpu(c),
        m.cpu(c).initialized,
        m.cpu(c).prev is None,
        m.task(m.cpu(c).current.unwrap()).state != TaskState::Running,
        m.ready(c).len() > 0,
    ensures
        ({
            let n = m.rescheduled(c);
            let head = m.ready(c)[0].0;
            &&& n.cpu(c).current == Some(head)
            &&& n.cpu(c).current != m.cpu(c).idle
            &&& n.ready(c) == m.ready(c).drop_first()
            &&& n.slice(head) == Some(m.ready(c)[0].1)
            &&& n.task(head) == (TaskInner {
                state: TaskState::Running,
                on_cpu: true,
                preempt_pending: false,
                ..m.task(head)
            })
            &&& n.cpu(c) == (CpuInner {
                current: Some(head),
                prev: if m.cpu(c).current == Some(head) {
                    None
                } else {
                    m.cpu(c).current
                },
                activity: RUN_QUEUE_ACTIVITY_BUSY,
                ..m.cpu(c)
            })
            &&& n.exited(c) == m.exited(c)
            &&& n.tasks.len() == m.tasks.len()
            &&& tasks_kept(m, n, set![head])
            &&& cpus_kept(m, n, set![c])
            &&& cursors_kept(m, n)
        }),
{
    let head = m.ready(c)[0].0;
    assert(m.queued_at(c as int, 0, head));
    assert(m.cpus[c as int].info.initialized);
    let idle = m.cpu(c).idle.unwrap();
    assert(m.task(idle).idle());
    let current = m.cpu(c).current.unwrap();
    assert(m.holds(c as int, current));
}

/// A CPU runs its idle task only if its ready queue is empty.
pub proof fn rescheduling_idles_without_a_ready_task(m: SystemModel, c: usize)
    requires
        m.wf(),
        m.has_cpu(c),
        m.cpu(c).initialized,
        m.cpu(c).prev is None,
        m.task(m.cpu(c).current.unwrap()).state != TaskState::Running,
    ensures
        m.rescheduled(c).cpu(c).current == m.cpu(c).idle <==> m.ready(c).len() == 0,
        m.ready(c).len() == 0 ==> {
            let n = m.rescheduled(c);
            let idle = m.cpu(c).idle.unwrap();
            &&& n.ready(c).len() == 0
            &&& n.task(idle) == (TaskInner {
                state: TaskState::Running,
                on_cpu: true,
                preempt_pending: false,
                ..m.task(idle)
            })
            &&& n.slice(idle) == m.slice(idle)
            &&& n.cpu(c) == (CpuInner {
                current: Some(idle),
                prev: if m.cpu(c).current == Some(idle) {
                    None
                } else {
                    m.cpu(c).current
                },
                activity: if m.cpu(c).activity == RUN_QUEUE_ACTIVITY_BUSY {
                    RUN_QUEUE_ACTIVITY_IDLE
                } else {
                    m.cpu(c).activity
                },
                ..m.cpu(c)
            })
            &&& n.exited(c) == m.exited(c)
            &&& n.tasks.len() == m.tasks.len()
            &&& tasks_kept(m, n, set![idle])
            &&& cpus_kept(m, n, set![c])
            &&& cursors_kept(m, n)
        },
{
    assert(m.cpus[c as int].info.initialized);
    let idle = m.cpu(c).idle.unwrap();
    assert(m.task(idle).idle());
    let current = m.cpu(c).current.unwrap();
    assert(m.holds(c as int, current));
    if m.ready(c).len() > 0 {
        rescheduling_takes_the_head(m, c);
    } else if current == idle {
        assert(m.task(idle).on_cpu);
    }
}

/// From `m` to `n`, CPU `c` has left its task `t` in state `state` and in no
/// queue, and has gone on with the task at the head of its ready queue, or with
/// its idle task if nothing was ready.
pub open spec fn left_for_the_head(
    m: SystemModel,
    n: SystemModel,
    c: usize,
    t: usize,
    state: TaskState,
) -> bool {
    let next = if m.ready(c).len() > 0 {
        m.ready(c)[0].0
    } else {
        m.cpu(c).idle.unwrap()
    };
    &&& n.task(t).state == state
    &&& n.task(t).on_cpu
    &&& n.slice(t) == m.slice(t)
    &&& n.slice(t) is Some
    &&& n.cpu(c).prev == Some(t)
    &&& n.cpu(c).current == Some(next)
    &&& next != t
    &&& n.task(next).state == TaskState::Running
    &&& n.ready(c) == if m.ready(c).len() > 0 {
        m.ready(c).drop_first()
    } else {
        m.ready(c)
    }
    &&& m.context_switch(c, n) == Some(ContextSwitch { prev: t, next, prev_state: state })
    &&& tasks_kept(m, n, set![t, next])
    &&& cpus_kept(m, n, set![c])
    &&& cursors_kept(m, n)
}

/// When the running task `t` blocks, in a wait queue or without one, or exits,
/// its CPU goes on with the task at the head of its ready queue, and with its
/// idle task only if nothing is ready.
pub proof fn a_stopping_task_gives_way_to_the_head(m: SystemModel, c: usize, t: usize)
    requires
        m.wf(),
        m.runs(c, t),
        m.cpu(c).prev is None,
        m.task(t).state == TaskState::Running,
        !m.task(t).idle(),
    ensures
        ({
            let waits = m.waiting(t).rescheduled(c);
            let blocks = m.in_state(t, TaskState::Blocked).rescheduled(c);
            let exits = m.in_state(t, TaskState::Exited).with_exited(
                c,
                m.exited(c).push(t),
            ).rescheduled(c);
            &&& left_for_the_head(m, waits, c, t, TaskState::Blocked)
            &&& left_for_the_head(m, blocks, c, t, TaskState::Blocked)
            &&& left_for_the_head(m, exits, c, t, TaskState::Exited)
            &&& waits.task(t) == (TaskInner {
                state: TaskState::Blocked,
                in_wait_queue: true,
                ..m.task(t)
            })
            &&& blocks.task(t) == (TaskInner { state: TaskState::Blocked, ..m.task(t) })
            &&& exits.task(t) == (TaskInner { state: TaskState::Exited, ..m.task(t) })
            &&& waits.exited(c) == m.exited(c)
            &&& blocks.exited(c) == m.exited(c)
            &&& exits.exited(c) == m.exited(c).push(t)
        }),
{
    crate::model::lemma_unqueued(m, t);
    assert(m.holds(c as int, t));
    assert(m.cpus[c as int].info.initialized);
    assert(m.task(m.cpu(c).idle.unwrap()).idle());
    if m.ready(c).len() > 0 {
        assert(m.queued_at(c as int, 0, m.ready(c)[0].0));
    }
    let blocked = TaskInner { state: TaskState::Blocked, ..m.task(t) };
    let exited = TaskInner { state: TaskState::Exited, ..m.task(t) };
    let waiting = TaskInner { in_wait_queue: true, ..blocked };
    crate::model::lemma_with_task(m, t, blocked);
    crate::model::lemma_with_task(m, t, exited);
    crate::model::lemma_with_task(m, t, waiting);
    let retired = m.in_state(t, TaskState::Exited).with_exited(c, m.exited(c).push(t));
    crate::model::lemma_unrelated(m.in_state(t, TaskState::Exited), retired);
    lemma_stopped(m, m.waiting(t), c, t);
    lemma_stopped(m, m.in_state(t, TaskState::Blocked), c, t);
    lemma_stopped(m, retired, c, t);
}

/// Rescheduling from a state `s` in which the current task has stopped.
proof fn lemma_stopped(m: SystemModel, s: SystemModel, c: usize, t: usize)
    requires
        m.wf(),
        s.wf(),
        m.runs(c, t),
        m.cpu(c).prev is None,
        !m.task(t).idle(),
        m.slice(t) is Some,
        s.has_task(t),
        s.task(t).state != TaskState::Running,
        s.task(t).on_cpu,
        s.slice(t) == m.slice(t),
        s.cpu(c) == m.cpu(c),
        s.ready(c) == m.ready(c),
        tasks_kept(m, s, set![t]),
        s.tasks.len() == m.tasks.len(),
        cpus_kept(m, s, set![c]),
        cursors_kept(m, s),
    ensures
        left_for_the_head(m, s.rescheduled(c), c, t, s.task(t).state),
        s.rescheduled(c).task(t) == s.task(t),
        s.rescheduled(c).exited(c) == s.exited(c),
{
    let n = s.rescheduled(c);
    assert(m.cpus[c as int].info.initialized);
    let idle = m.cpu(c).idle.unwrap();
    assert(m.has_task(idle) && m.task(idle).idle());
    assert(m.cpu(c).current == Some(t));
    if m.ready(c).len() > 0 {
        let head = m.ready(c)[0].0;
        assert(m.queued_at(c as int, 0, head));
        assert(head != t);
        rescheduling_takes_the_head(s, c);
    } else {
        rescheduling_idles_without_a_ready_task(s, c);
        assert(s.ready(c) == m.ready(c));
        assert(n.ready(c) =~= m.ready(c));
    }
    assert forall|d: usize| #[trigger] m.has_cpu(d) && !set![c].contains(d) implies n.cpu(d)
        == m.cpu(d) && n.ready(d) == m.ready(d) && n.exited(d) == m.exited(d) by {
        assert(s.has_cpu(d));
    }
    assert forall|u: usize| #[trigger]
        m.has_task(u) && u != t && Some(u) != n.cpu(c).current implies n.has_task(u) && n.task(u)
        == m.task(u) && n.slice(u) == m.slice(u) by {
        assert(s.has_task(u));
    }
}

/// A wake-up of a blocked task that some CPU still has on it is left with the
/// task, for whichever CPU `c` the waker chose: the task becomes ready, notes that
/// very CPU as the one to take it, and joins no queue. The one exception is a CPU
/// that wakes its own current task up on its own run queue.
pub proof fn a_wake_is_deferred_for_the_chosen_cpu(
    m: SystemModel,
    c: usize,
    t: usize,
    resched: bool,
    this_cpu: usize,
)
    requires
        m.wf(),
        m.has_cpu(c),
        m.has_cpu(this_cpu),
        m.has_task(t),
        m.task(t).state == TaskState::Blocked,
        !m.task(t).idle(),
        m.task(t).on_cpu,
        c != this_cpu || m.cpu(c).current != Some(t),
    ensures
        !m.joins(c, t, TaskState::Blocked, this_cpu),
        m.put(c, t, TaskState::Blocked, false, this_cpu) == m.unblocked(c, t, resched, this_cpu),
        ({
            let n = m.unblocked(c, t, resched, this_cpu);
            &&& n.task(t).cpu_id == c
            &&& n.task(t) == (TaskInner {
                state: TaskState::Ready,
                wake_stashed: true,
                cpu_id: c,
                ..m.task(t)
            })
            &&& n.slice(t) == m.slice(t)
            &&& n.tasks.len() == m.tasks.len()
            &&& tasks_kept(m, n, set![t])
            &&& cpus_kept(m, n, Set::empty())
            &&& cursors_kept(m, n)
        }),
{
}

/// A deferred wake-up ends where the waker wanted it: CPU `owner` has the blocked
/// task `t` on it while some other CPU wakes it up for CPU `c`. When the owner has
/// rescheduled and has saved the task's context, the task is the last one in the
/// ready queue of that CPU `c`, with a full time slice, on no CPU, and with no
/// wake-up left. CPU `c` is asked to reschedule, or the owner's new current task
/// is to give way if `c` is the owner.
pub proof fn a_deferred_wake_lands_on_the_chosen_cpu(
    m: SystemModel,
    c: usize,
    t: usize,
    resched: bool,
    this_cpu: usize,
    owner: usize,
)
    requires
        m.wf(),
        m.has_cpu(c),
        m.has_cpu(this_cpu),
        m.runs(owner, t),
        m.cpu(owner).prev is None,
        this_cpu != owner,
        m.task(t).state == TaskState::Blocked,
        !m.task(t).idle(),
    ensures
        ({
            let woken = m.unblocked(c, t, resched, this_cpu);
            let switched = woken.rescheduled(owner);
            let n = switched.finished_switch(owner);
            &&& switched.cpu(owner).prev == Some(t)
            &&& n.ready(c) == switched.ready(c).push((t, MAX_TIME_SLICE as isize))
            &&& n.ready(c).last() == (t, MAX_TIME_SLICE as isize)
            &&& n.slice(t) is None
            &&& n.task(t) == (TaskInner {
                state: TaskState::Ready,
                cpu_id: c,
                on_cpu: false,
                wake_stashed: false,
                ..m.task(t)
            })
            &&& n.cpu(owner).prev is None
            &&& n.cpu(owner).current == switched.cpu(owner).current
            &&& c != owner ==> n.cpu(c).reschedule_pending
            &&& c == owner ==> n.task(n.cpu(owner).current.unwrap()).force_resched_pending
            &&& n.tasks.len() == m.tasks.len()
        }),
{
    crate::model::lemma_unqueued(m, t);
    assert(m.holds(owner as int, t));
    if c == this_cpu && m.cpu(c).current == Some(t) {
        assert(m.holds(c as int, t));
    }
    let info = TaskInner {
        state: TaskState::Ready,
        wake_stashed: true,
        cpu_id: c,
        ..m.task(t)
    };
    crate::model::lemma_with_task(m, t, info);
    let woken = m.unblocked(c, t, resched, this_cpu);
    assert(woken == m.with_task(t, info));
    assert(m.cpus[owner as int].info.initialized);
    let idle = m.cpu(owner).idle.unwrap();
    assert(m.has_task(idle) && m.task(idle).idle());
    if m.ready(owner).len() > 0 {
        let head = m.ready(owner)[0].0;
        assert(m.queued_at(owner as int, 0, head));
        assert(head != t);
        rescheduling_takes_the_head(woken, owner);
    } else {
        rescheduling_idles_without_a_ready_task(woken, owner);
    }
    let switched = woken.rescheduled(owner);
    assert(woken.has_cpu(c));
    assert(switched.has_task(t) && switched.task(t) == info && switched.slice(t) == m.slice(t));
    assert(switched.cpu(owner).current != Some(t));
}

/// A blocked task that no CPU has on it, or that wakes itself up on its own CPU,
/// joins the chosen ready queue at once: at its end, with a full time slice. The
/// CPU of that queue is asked to reschedule if it is a remote one. With `resched`
/// the current task of a local one is noted to be preempted.
pub proof fn a_wake_joins_the_chosen_queue(
    m: SystemModel,
    c: usize,
    t: usize,
    resched: bool,
    this_cpu: usize,
)
    requires
        m.wf(),
        m.has_cpu(c),
        m.has_cpu(this_cpu),
        m.cpu(this_cpu).current is Some,
        m.has_task(t),
        m.task(t).state == TaskState::Blocked,
        !m.task(t).idle(),
        !m.task(t).on_cpu || (c == this_cpu && m.cpu(c).current == Some(t)),
    ensures
        m.joins(c, t, TaskState::Blocked, this_cpu),
        ({
            let n = m.unblocked(c, t, resched, this_cpu);
            let current = m.cpu(this_cpu).current.unwrap();
            &&& n.ready(c) == m.ready(c).push((t, MAX_TIME_SLICE as isize))
            &&& n.slice(t) is None
            &&& n.task(t) == (TaskInner {
                state: TaskState::Ready,
                cpu_id: c,
                preempt_pending: m.task(t).preempt_pending || (resched && c == this_cpu && current
                    == t),
                ..m.task(t)
            })
            &&& n.cpu(c) == (CpuInner {
                reschedule_pending: m.cpu(c).reschedule_pending || c != this_cpu,
                ..m.cpu(c)
            })
            &&& n.exited(c) == m.exited(c)
            &&& n.task(current).preempt_pending == (m.task(current).preempt_pending || (resched && c
                == this_cpu))
            &&& current != t ==> n.task(current) == (TaskInner {
                preempt_pending: n.task(current).preempt_pending,
                ..m.task(current)
            }) && n.slice(current) == m.slice(current)
            &&& n.tasks.len() == m.tasks.len()
            &&& tasks_kept(m, n, set![t, current])
            &&& cpus_kept(m, n, set![c])
            &&& cursors_kept(m, n)
        }),
{
    crate::model::lemma_unqueued(m, t);
    let current = m.cpu(this_cpu).current.unwrap();
    assert(m.holds(this_cpu as int, current));
}

/// Only a blocked task can be woken up, and an idle task joins no queue.
pub proof fn a_wake_needs_a_blocked_task(
    m: SystemModel,
    c: usize,
    t: usize,
    resched: bool,
    this_cpu: usize,
)
    requires
        m.has_task(t),
        m.task(t).state != TaskState::Blocked || m.task(t).idle(),
    ensures
        !m.joins(c, t, TaskState::Blocked, this_cpu),
        m.task(t).state != TaskState::Blocked ==> m.unblocked(c, t, resched, this_cpu) == m,
        m.task(t).state == TaskState::Blocked ==> {
            let n = m.unblocked(c, t, resched, this_cpu);
            &&& n.task(t) == (TaskInner { state: TaskState::Ready, ..m.task(t) })
            &&& n.slice(t) == m.slice(t)
            &&& n.tasks.len() == m.tasks.len()
            &&& tasks_kept(m, n, set![t])
            &&& cpus_kept(m, n, Set::empty())
            &&& cursors_kept(m, n)
        },
{
}

/// A running task whose affinity forbids its CPU never goes on running there once
/// it gives way, whether it yields, is preempted or is forced to, and whatever is
/// queued: a new task of role `Migration(t)` runs next, the task is ready and in
/// no queue, and the ready queue is as it was.
pub proof fn a_task_leaves_a_forbidden_cpu(m: SystemModel, c: usize, t: usize, preempt: bool)
    requires
        m.wf(),
        m.tasks.len() + 1 < usize::MAX,
        m.runs(c, t),
        m.cpu(c).prev is None,
        m.task(t).state == TaskState::Running,
        !m.task(t).cpumask.has(c),
    ensures
        !m.task(t).idle(),
        m.forced(c, t, m.task(t).preempt_disable_count) == m.gave_up(c, t, preempt),
        ({
            let n = m.gave_up(c, t, preempt);
            let migration = m.tasks.len() as usize;
            &&& n.tasks.len() == m.tasks.len() + 1
            &&& n.cpu(c) == (CpuInner {
                current: Some(migration),
                prev: Some(t),
                activity: RUN_QUEUE_ACTIVITY_BUSY,
                ..m.cpu(c)
            })
            &&& n.task(migration).role == TaskRole::Migration(t)
            &&& n.task(migration).state == TaskState::Running
            &&& n.task(migration).on_cpu
            &&& n.task(migration).preempt_disable_count == 0
            &&& n.slice(migration) == Some(MAX_TIME_SLICE as isize)
            &&& n.task(t) == (TaskInner { state: TaskState::Ready, ..m.task(t) })
            &&& n.slice(t) == m.slice(t)
            &&& n.slice(t) is Some
            &&& n.ready(c) == m.ready(c)
            &&& n.exited(c) == m.exited(c)
            &&& m.context_switch(c, n) == Some(
                ContextSwitch { prev: t, next: migration, prev_state: TaskState::Ready },
            )
            &&& tasks_kept(m, n, set![t])
            &&& cpus_kept(m, n, set![c])
            &&& cursors_kept(m, n)
        }),
{
    crate::model::lemma_unqueued(m, t);
    assert(m.holds(c as int, t));
    assert(m.cpus[c as int].info.initialized);
    if m.task(t).idle() {
        assert(m.cpus[c as int].info.idle == Some(t));
    }
}

/// From `m` to `n`, the running task `t` of CPU `c` has given way to the task at
/// the head of the ready queue and has become its last one, with a full slice.
pub open spec fn rotated_to_the_head(m: SystemModel, n: SystemModel, c: usize, t: usize) -> bool {
    let head = m.ready(c)[0].0;
    &&& n.cpu(c) == (CpuInner {
        current: Some(head),
        prev: Some(t),
        activity: RUN_QUEUE_ACTIVITY_BUSY,
        ..m.cpu(c)
    })
    &&& n.ready(c) == m.ready(c).drop_first().push((t, MAX_TIME_SLICE as isize))
    &&& n.slice(t) is None
    &&& n.task(t) == (TaskInner { state: TaskState::Ready, cpu_id: c, ..m.task(t) })
    &&& n.slice(head) == Some(m.ready(c)[0].1)
    &&& n.task(head) == (TaskInner {
        state: TaskState::Running,
        on_cpu: true,
        preempt_pending: false,
        ..m.task(head)
    })
    &&& n.exited(c) == m.exited(c)
    &&& n.tasks.len() == m.tasks.len()
    &&& m.context_switch(c, n) == Some(
        ContextSwitch { prev: t, next: head, prev_state: TaskState::Ready },
    )
    &&& tasks_kept(m, n, set![t, head])
    &&& cpus_kept(m, n, set![c])
    &&& cursors_kept(m, n)
}

/// A running task that yields, or that is forced to give way with any number of
/// guards, makes room for the task at the head of the ready queue, however many
/// ticks it has left; it goes to the end of the queue with a full slice. A task
/// that is preempted does so only if its slice is used up.
pub proof fn giving_way_rotates_the_queue(m: SystemModel, c: usize, t: usize)
    requires
        m.wf(),
        m.runs(c, t),
        m.cpu(c).prev is None,
        m.task(t).state == TaskState::Running,
        !m.task(t).idle(),
        m.task(t).cpumask.has(c),
        m.ready(c).len() > 0,
    ensures
        rotated_to_the_head(m, m.gave_up(c, t, false), c, t),
        rotated_to_the_head(m, m.forced(c, t, m.task(t).preempt_disable_count), c, t),
        m.slice(t).unwrap() <= 0 ==> rotated_to_the_head(m, m.gave_up(c, t, true), c, t),
{
    crate::model::lemma_unqueued(m, t);
    assert(m.holds(c as int, t));
    let head = m.ready(c)[0].0;
    assert(m.queued_at(c as int, 0, head));
    assert(head != t);
    let full = MAX_TIME_SLICE as isize;
    let info = TaskInner { state: TaskState::Ready, cpu_id: c, ..m.task(t) };
    let put = m.with_task(t, info).with_ready(c, m.ready(c).push((t, full))).with_slice(t, None);
    crate::model::lemma_with_task(m, t, info);
    crate::model::lemma_enqueued(m.with_task(t, info), c, t, false);
    assert(m.with_task(t, info).holds(c as int, t));
    assert(m.put(c, t, TaskState::Running, false, c) == put);
    assert(put.ready(c)[0] == m.ready(c)[0]);
    assert(put.ready(c).drop_first() =~= m.ready(c).drop_first().push((t, full)));
    rescheduling_takes_the_head(put, c);
    let n = put.rescheduled(c);
    assert(m.gave_up(c, t, false) == n);
    assert forall|u: usize| #[trigger]
        m.has_task(u) && u != t && u != head implies n.has_task(u) && n.task(u) == m.task(u)
        && n.slice(u) == m.slice(u) by {
        assert(put.has_task(u));
    }
    assert forall|d: usize| #[trigger] m.has_cpu(d) && d != c implies n.cpu(d) == m.cpu(d)
        && n.ready(d) == m.ready(d) && n.exited(d) == m.exited(d) by {
        assert(put.has_cpu(d));
    }
    assert(put.has_task(t));
}

/// When a request to reschedule is delivered to a CPU, and its running task holds
/// no guard, that task gives way to the head of the ready queue, and the request
/// is not pending any more.
pub proof fn a_delivered_request_rotates_the_queue(m: SystemModel, c: usize, t: usize)
    requires
        m.wf(),
        m.runs(c, t),
        m.cpu(c).prev is None,
        m.task(t).state == TaskState::Running,
        !m.task(t).idle(),
        m.task(t).cpumask.has(c),
        m.task(t).preempt_disable_count == 0,
        m.ready(c).len() > 0,
    ensures
        ({
            let n = m.delivered(c).forced(c, t, 0);
            &&& n.cpu(c).current == Some(m.ready(c)[0].0)
            &&& n.ready(c) == m.ready(c).drop_first().push((t, MAX_TIME_SLICE as isize))
            &&& n.task(t).state == TaskState::Ready
            &&& !n.cpu(c).reschedule_pending
            &&& m.context_switch(c, n) == Some(
                ContextSwitch {
                    prev: t,
                    next: m.ready(c)[0].0,
                    prev_state: TaskState::Ready,
                },
            )
        }),
{
    let d = m.delivered(c);
    assert(m.cpus[c as int].info.initialized);
    crate::model::lemma_with_cpu(m, c, CpuInner { reschedule_pending: false, ..m.cpu(c) });
    giving_way_rotates_the_queue(d, c, t);
}

/// A running task that may stay on its CPU, and that gives way while nothing else
/// is ready, goes on running; no task is created and no context switch follows.
pub proof fn giving_way_alone_goes_on(m: SystemModel, c: usize, t: usize, preempt: bool)
    requires
        m.wf(),
        m.runs(c, t),
        m.cpu(c).prev is None,
        m.task(t).state == TaskState::Running,
        m.task(t).cpumask.has(c),
        m.ready(c).len() == 0,
    ensures
        ({
            let n = m.gave_up(c, t, preempt);
            let idle = m.task(t).idle();
            &&& n.cpu(c).current == Some(t)
            &&& n.cpu(c) == (CpuInner {
                activity: if !idle {
                    RUN_QUEUE_ACTIVITY_BUSY
                } else if m.cpu(c).activity == RUN_QUEUE_ACTIVITY_BUSY {
                    RUN_QUEUE_ACTIVITY_IDLE
                } else {
                    m.cpu(c).activity
                },
                ..m.cpu(c)
            })
            &&& n.task(t) == (TaskInner {
                preempt_pending: false,
                cpu_id: if idle {
                    m.task(t).cpu_id
                } else {
                    c
                },
                ..m.task(t)
            })
            &&& n.slice(t) == if idle || (preempt && m.slice(t).unwrap() > 0) {
                m.slice(t)
            } else {
                Some(MAX_TIME_SLICE as isize)
            }
            &&& n.ready(c).len() == 0
            &&& n.exited(c) == m.exited(c)
            &&& n.tasks.len() == m.tasks.len()
            &&& m.context_switch(c, n) is None
            &&& tasks_kept(m, n, set![t])
            &&& cpus_kept(m, n, set![c])
            &&& cursors_kept(m, n)
        }),
        m.gave_up(c, t, false) == m.forced(c, t, m.task(t).preempt_disable_count),
{
    crate::model::lemma_unqueued(m, t);
    assert(m.holds(c as int, t));
    assert(m.cpus[c as int].info.initialized);
    let put = m.put(c, t, TaskState::Running, preempt, c);
    let idle = m.cpu(c).idle.unwrap();
    assert(m.has_task(idle) && m.task(idle).idle());
    if !m.task(t).idle() {
        assert(put.ready(c).len() == 1);
        assert(put.ready(c)[0].0 == t);
    }
}

/// An idle task makes room for the head of the ready queue as soon as there is
/// one, and joins no queue itself.
pub proof fn an_idle_task_gives_way(m: SystemModel, c: usize, t: usize, preempt: bool)
    requires
        m.wf(),
        m.runs(c, t),
        m.cpu(c).prev is None,
        m.task(t).state == TaskState::Running,
        m.task(t).idle(),
        m.ready(c).len() > 0,
    ensures
        m.task(t).cpumask.has(c),
        m.gave_up(c, t, preempt) == m.forced(c, t, m.task(t).preempt_disable_count),
        ({
            let n = m.gave_up(c, t, preempt);
            let head = m.ready(c)[0].0;
            &&& n.cpu(c) == (CpuInner {
                current: Some(head),
                prev: Some(t),
                activity: RUN_QUEUE_ACTIVITY_BUSY,
                ..m.cpu(c)
            })
            &&& n.ready(c) == m.ready(c).drop_first()
            &&& n.exited(c) == m.exited(c)
            &&& n.task(t) == (TaskInner { state: TaskState::Ready, ..m.task(t) })
            &&& n.slice(t) == m.slice(t)
            &&& n.task(head) == (TaskInner {
                state: TaskState::Running,
                on_cpu: true,
                preempt_pending: false,
                ..m.task(head)
            })
            &&& n.slice(head) == Some(m.ready(c)[0].1)
            &&& m.context_switch(c, n) == Some(
                ContextSwitch { prev: t, next: head, prev_state: TaskState::Ready },
            )
            &&& n.tasks.len() == m.tasks.len()
            &&& tasks_kept(m, n, set![t, head])
            &&& cpus_kept(m, n, set![c])
            &&& cursors_kept(m, n)
        }),
{
    assert(m.holds(c as int, t));
    assert(m.cpus[c as int].info.idle == Some(t));
    let head = m.ready(c)[0].0;
    assert(m.queued_at(c as int, 0, head));
    assert(head != t);
}

/// A preempted task that has ticks left keeps them and goes on running, whatever
/// is queued behind it.
pub proof fn preemption_spares_a_task_with_time_left(m: SystemModel, c: usize, t: usize)
    requires
        m.wf(),
        m.runs(c, t),
        m.cpu(c).prev is None,
        m.task(t).state == TaskState::Running,
        !m.task(t).idle(),
        m.task(t).cpumask.has(c),
        m.slice(t).unwrap() > 0,
    ensures
        ({
            let n = m.gave_up(c, t, true);
            &&& n.cpu(c).current == Some(t)
            &&& n.cpu(c) == (CpuInner { activity: RUN_QUEUE_ACTIVITY_BUSY, ..m.cpu(c) })
            &&& n.task(t) == (TaskInner { preempt_pending: false, cpu_id: c, ..m.task(t) })
            &&& n.slice(t) == m.slice(t)
            &&& n.ready(c) == m.ready(c)
            &&& n.exited(c) == m.exited(c)
            &&& n.tasks.len() == m.tasks.len()
            &&& m.context_switch(c, n) is None
            &&& tasks_kept(m, n, set![t])
            &&& cpus_kept(m, n, set![c])
            &&& cursors_kept(m, n)
        }),
{
    crate::model::lemma_unqueued(m, t);
    assert(m.holds(c as int, t));
    let ticks = m.slice(t).unwrap();
    let put = m.put(c, t, TaskState::Running, true, c);
    assert(put.ready(c) == seq![(t, ticks)] + m.ready(c));
    assert(put.ready(c)[0] == (t, ticks));
    assert(put.ready(c).drop_first() =~= m.ready(c));
}

/// A task that other guards keep from being preempted only notes that it has to
/// give way.
pub proof fn a_guarded_task_only_notes_a_request(
    m: SystemModel,
    c: usize,
    t: usize,
    count: usize,
)
    requires
        m.has_task(t),
        m.task(t).preempt_disable_count != count,
    ensures
        ({
            let n = m.forced(c, t, count);
            &&& n.task(t) == (TaskInner { force_resched_pending: true, ..m.task(t) })
            &&& n.slice(t) == m.slice(t)
            &&& n.tasks.len() == m.tasks.len()
            &&& tasks_kept(m, n, set![t])
            &&& cpus_kept(m, n, Set::empty())
            &&& cursors_kept(m, n)
        }),
{
}

/// The same of a wake-up that comes when the owner has already switched away from
/// the blocked task `t` and has only not saved its context yet, whoever wakes it.
pub proof fn a_wake_during_the_switch_lands_on_the_chosen_cpu(
    m: SystemModel,
    c: usize,
    t: usize,
    resched: bool,
    this_cpu: usize,
    owner: usize,
)
    requires
        m.wf(),
        m.has_cpu(c),
        m.has_cpu(this_cpu),
        m.has_cpu(owner),
        m.cpu(owner).initialized,
        m.cpu(owner).prev == Some(t),
        m.task(t).state == TaskState::Blocked,
        !m.task(t).idle(),
    ensures
        ({
            let n = m.unblocked(c, t, resched, this_cpu).finished_switch(owner);
            &&& n.ready(c) == m.ready(c).push((t, MAX_TIME_SLICE as isize))
            &&& n.slice(t) is None
            &&& n.task(t) == (TaskInner {
                state: TaskState::Ready,
                cpu_id: c,
                on_cpu: false,
                ..m.task(t)
            })
            &&& n.cpu(owner).prev is None
            &&& n.cpu(owner).current == m.cpu(owner).current
            &&& c != owner ==> n.cpu(c).reschedule_pending
            &&& c == owner ==> n.task(m.cpu(owner).current.unwrap()).force_resched_pending
        }),
{
    assert(m.holds(owner as int, t));
    assert(m.has_task(t) && m.task(t).on_cpu);
    crate::model::lemma_unqueued(m, t);
    assert(m.cpus[owner as int].info.prev != m.cpus[owner as int].info.current);
    if c == this_cpu && m.cpu(c).current == Some(t) {
        assert(m.holds(c as int, t));
    }
    assert(m.cpus[owner as int].info.initialized);
    let current = m.cpu(owner).current.unwrap();
    assert(m.holds(owner as int, current));
}

/// When a CPU has saved the context of a task that nobody woke up meanwhile, the
/// task is on no CPU any more, and nothing else has changed.
pub proof fn a_saved_task_is_on_no_cpu(m: SystemModel, c: usize, t: usize)
    requires
        m.wf(),
        m.has_cpu(c),
        m.cpu(c).prev == Some(t),
        !m.task(t).wake_stashed,
    ensures
        !m.has_deferred_wake(c),
        ({
            let n = m.finished_switch(c);
            &&& n.task(t) == (TaskInner { on_cpu: false, ..m.task(t) })
            &&& n.slice(t) == m.slice(t)
            &&& n.cpu(c) == (CpuInner { prev: None, ..m.cpu(c) })
            &&& n.ready(c) == m.ready(c)
            &&& n.exited(c) == m.exited(c)
            &&& n.tasks.len() == m.tasks.len()
            &&& tasks_kept(m, n, set![t])
            &&& cpus_kept(m, n, set![c])
            &&& cursors_kept(m, n)
        }),
{
    assert(m.holds(c as int, t));
}

/// A deferred wake-up that is completed touches the woken task, the CPU that
/// completes it and the chosen one, and asks for an interrupt exactly if the
/// chosen CPU is another one that was not asked yet.
pub proof fn completing_a_wake_touches_little(m: SystemModel, c: usize, t: usize)
    requires
        m.wf(),
        m.has_cpu(c),
        m.cpu(c).initialized,
        m.cpu(c).prev == Some(t),
        m.task(t).wake_stashed,
    ensures
        m.has_deferred_wake(c),
        m.deferred_target(c) == m.task(t).cpu_id,
        ({
            let target = m.task(t).cpu_id;
            let current = m.cpu(c).current.unwrap();
            let n = m.finished_switch(c);
            &&& m.has_cpu(target)
            &&& n.ready(target) == m.ready(target).push((t, MAX_TIME_SLICE as isize))
            &&& n.task(t) == (TaskInner { on_cpu: false, wake_stashed: false, ..m.task(t) })
            &&& n.slice(t) is None
            &&& target != c ==> {
                &&& n.cpu(c) == (CpuInner { prev: None, ..m.cpu(c) })
                &&& n.ready(c) == m.ready(c)
                &&& n.cpu(target) == (CpuInner { reschedule_pending: true, ..m.cpu(target) })
                &&& n.task(current) == m.task(current)
            }
            &&& target == c ==> {
                &&& n.cpu(c) == (CpuInner { prev: None, ..m.cpu(c) })
                &&& n.task(current) == (TaskInner {
                    force_resched_pending: true,
                    ..m.task(current)
                })
            }
            &&& n.slice(current) == m.slice(current)
            &&& n.exited(c) == m.exited(c)
            &&& n.exited(target) == m.exited(target)
            &&& n.tasks.len() == m.tasks.len()
            &&& tasks_kept(m, n, set![t, current])
            &&& cpus_kept(m, n, set![c, target])
            &&& cursors_kept(m, n)
        }),
{
    assert(m.holds(c as int, t));
    assert(m.has_task(t));
    assert(m.cpus[c as int].info.prev != m.cpus[c as int].info.current);
    assert(m.cpus[c as int].info.initialized);
    assert(m.holds(c as int, m.cpu(c).current.unwrap()));
}

/// A kick marks a remote CPU as asked to reschedule and does nothing else. It
/// interrupts that CPU exactly if it was not asked yet. A CPU does not kick itself.
pub proof fn a_kick_marks_a_remote_cpu(m: SystemModel, c: usize, this_cpu: usize)
    requires
        m.has_cpu(c),
    ensures
        m.kick_target(c, this_cpu) == Some(c) <==> c != this_cpu && !m.cpu(c).reschedule_pending,
        m.kick_target(c, this_cpu) is Some ==> m.kick_target(c, this_cpu) == Some(c),
        ({
            let n = m.kicked(c, this_cpu);
            &&& n.cpu(c) == (CpuInner {
                reschedule_pending: m.cpu(c).reschedule_pending || c != this_cpu,
                ..m.cpu(c)
            })
            &&& n.ready(c) == m.ready(c)
            &&& n.exited(c) == m.exited(c)
            &&& n.tasks == m.tasks
            &&& cpus_kept(m, n, set![c])
            &&& cursors_kept(m, n)
        }),
{
}

/// Delivery of a request clears the mark of its CPU and does nothing else.
pub proof fn delivery_clears_the_mark(m: SystemModel, c: usize)
    requires
        m.has_cpu(c),
    ensures
        ({
            let n = m.delivered(c);
            &&& n.cpu(c) == (CpuInner { reschedule_pending: false, ..m.cpu(c) })
            &&& n.ready(c) == m.ready(c)
            &&& n.exited(c) == m.exited(c)
            &&& n.tasks == m.tasks
            &&& cpus_kept(m, n, set![c])
            &&& cursors_kept(m, n)
        }),
{
}

/// A new task joins the end of the ready queue that it was placed in with the
/// ticks that it has, and notes the CPU of that queue, which is asked to
/// reschedule if it is a remote one.
pub proof fn a_new_task_joins_the_end_of_its_queue(
    m: SystemModel,
    c: usize,
    t: usize,
    this_cpu: usize,
)
    requires
        m.has_cpu(c),
        m.has_task(t),
        m.slice(t) is Some,
    ensures
        ({
            let n = m.placed(c, t).kicked(c, this_cpu);
            &&& n.ready(c) == m.ready(c).push((t, m.slice(t).unwrap()))
            &&& n.slice(t) is None
            &&& n.task(t) == (TaskInner { cpu_id: c, ..m.task(t) })
            &&& n.cpu(c) == (CpuInner {
                reschedule_pending: m.cpu(c).reschedule_pending || c != this_cpu,
                ..m.cpu(c)
            })
            &&& n.exited(c) == m.exited(c)
            &&& n.tasks.len() == m.tasks.len()
            &&& tasks_kept(m, n, set![t])
            &&& cpus_kept(m, n, set![c])
            &&& cursors_kept(m, n)
        }),
{
}

/// A new task is at the end of the task table, with a full slice; nothing else
/// changes. One that was never run is ready, allowed everywhere, and free of any
/// note.
pub proof fn spawning_adds_one_task(m: SystemModel, info: TaskInner, role: TaskRole)
    requires
        m.tasks.len() < usize::MAX,
    ensures
        ({
            let n = m.spawned(info);
            let t = m.tasks.len() as usize;
            &&& n.tasks.len() == m.tasks.len() + 1
            &&& n.task(t) == info
            &&& n.slice(t) == Some(MAX_TIME_SLICE as isize)
            &&& n.cpus == m.cpus
            &&& tasks_kept(m, n, Set::empty())
            &&& cursors_kept(m, n)
        }),
        ({
            let fresh = TaskInner::fresh(role);
            &&& fresh.role == role
            &&& fresh.state == TaskState::Ready
            &&& forall|c: usize| fresh.cpumask.has(c) <==> c < crate::CPU_CAPACITY
            &&& fresh.cpu_id == 0
            &&& !fresh.on_cpu
            &&& !fresh.in_wait_queue
            &&& !fresh.wake_stashed
            &&& !fresh.preempt_pending
            &&& !fresh.force_resched_pending
            &&& fresh.preempt_disable_count == 0
        }),
{
    crate::cpumask::all_holds_every_cpu();
    assert forall|c: usize| TaskInner::fresh(role).cpumask.has(c) <==> c < crate::CPU_CAPACITY by {
        assert(AxCpuMask::all().has(c) <==> c < crate::CPU_CAPACITY);
    }
}

/// Handing a running task over to a given migration task makes that one current
/// and leaves the task ready, in no queue, and still on its CPU for the moment.
pub proof fn handing_over_starts_the_migration_task(
    m: SystemModel,
    c: usize,
    t: usize,
    migration: usize,
)
    requires
        m.wf(),
        m.runs(c, t),
        m.cpu(c).prev is None,
        m.task(t).state == TaskState::Running,
        m.is_free(migration),
    ensures
        ({
            let n = m.handed_over(c, t, migration);
            &&& n.cpu(c) == (CpuInner {
                current: Some(migration),
                prev: Some(t),
                activity: RUN_QUEUE_ACTIVITY_BUSY,
                ..m.cpu(c)
            })
            &&& n.task(t) == (TaskInner { state: TaskState::Ready, ..m.task(t) })
            &&& n.slice(t) == m.slice(t)
            &&& n.task(migration) == (TaskInner {
                state: TaskState::Running,
                on_cpu: true,
                preempt_pending: false,
                ..m.task(migration)
            })
            &&& n.slice(migration) == m.slice(migration)
            &&& n.ready(c) == m.ready(c)
            &&& n.exited(c) == m.exited(c)
            &&& n.tasks.len() == m.tasks.len()
            &&& m.context_switch(c, n) == Some(
                ContextSwitch { prev: t, next: migration, prev_state: TaskState::Ready },
            )
            &&& tasks_kept(m, n, set![t, migration])
            &&& cpus_kept(m, n, set![c])
            &&& cursors_kept(m, n)
        }),
{
    assert(m.holds(c as int, t));
    assert(t != migration);
}

/// A migrating task joins the end of the ready queue of its new CPU with a full
/// slice; a remote CPU is asked to reschedule. Only the cursor for migrations
/// moves on.
pub proof fn a_migration_moves_one_task(m: SystemModel, c: usize, t: usize, this_cpu: usize)
    requires
        m.has_cpu(c),
        m.has_task(t),
        m.slice(t) is Some,
    ensures
        ({
            let n = m.migrated(c, t, this_cpu);
            &&& n.ready(c) == m.ready(c).push((t, MAX_TIME_SLICE as isize))
            &&& n.slice(t) is None
            &&& n.task(t) == (TaskInner { cpu_id: c, ..m.task(t) })
            &&& n.cpu(c) == (CpuInner {
                reschedule_pending: m.cpu(c).reschedule_pending || c != this_cpu,
                ..m.cpu(c)
            })
            &&& n.exited(c) == m.exited(c)
            &&& n.tasks.len() == m.tasks.len()
            &&& tasks_kept(m, n, set![t])
            &&& cpus_kept(m, n, set![c])
            &&& n.next_idle_run_queue == m.next_idle_run_queue
            &&& n.next_run_queue == m.next_run_queue.wrapping_add(1)
        }),
{
}

/// A task that leaves a CPU which its affinity forbids ends in the ready queue of
/// the CPU that its migration task has found for it: from the moment that it gives
/// way until then it runs nowhere.
pub proof fn a_forbidden_task_is_moved(
    m: SystemModel,
    c: usize,
    t: usize,
    preempt: bool,
    target: usize,
)
    requires
        m.wf(),
        m.tasks.len() + 1 < usize::MAX,
        m.runs(c, t),
        m.cpu(c).prev is None,
        m.task(t).state == TaskState::Running,
        !m.task(t).cpumask.has(c),
        m.gave_up(c, t, preempt).finished_switch(c).migration_choice(
            m.task(t).cpumask,
            c,
            Some(target),
        ),
    ensures
        ({
            let saved = m.gave_up(c, t, preempt).finished_switch(c);
            let n = saved.migrated(target, t, c);
            &&& saved.task(t).state == TaskState::Ready
            &&& !saved.task(t).on_cpu
            &&& saved.slice(t) is Some
            &&& m.task(t).cpumask.has(target)
            &&& target != c
            &&& n.ready(target) == m.ready(target).push((t, MAX_TIME_SLICE as isize))
            &&& n.task(t).cpu_id == target
            &&& n.task(t).state == TaskState::Ready
            &&& n.cpu(target).reschedule_pending
            &&& n.cpu(c).current == Some(m.tasks.len() as usize)
        }),
{
    a_task_leaves_a_forbidden_cpu(m, c, t, preempt);
    let n = m.gave_up(c, t, preempt);
    let saved = n.finished_switch(c);
    assert(m.holds(c as int, t));
    assert(m.has_task(t) && !m.task(t).wake_stashed);
    crate::placement::first_match_is_eligible(
        m.task(t).cpumask,
        saved.next_run_queue,
        saved.cpu_count(),
        crate::placement::exactly(saved.ready_cpus(c)),
        Some(target),
    );
    assert(m.has_cpu(target));
}

/// Noting that a task is to be preempted, blocking it or putting it into a wait
/// queue changes nothing but what that task notes.
pub proof fn a_note_changes_one_task(m: SystemModel, t: usize, state: TaskState)
    requires
        m.has_task(t),
    ensures
        ({
            let noted = m.preemption_requested(t);
            let stopped = m.in_state(t, state);
            let waits = m.waiting(t);
            &&& noted.task(t) == (TaskInner { preempt_pending: true, ..m.task(t) })
            &&& stopped.task(t) == (TaskInner { state, ..m.task(t) })
            &&& waits.task(t) == (TaskInner {
                state: TaskState::Blocked,
                in_wait_queue: true,
                ..m.task(t)
            })
            &&& noted.slice(t) == m.slice(t)
            &&& stopped.slice(t) == m.slice(t)
            &&& waits.slice(t) == m.slice(t)
            &&& noted.tasks.len() == m.tasks.len()
            &&& stopped.tasks.len() == m.tasks.len()
            &&& waits.tasks.len() == m.tasks.len()
            &&& tasks_kept(m, noted, set![t])
            &&& tasks_kept(m, stopped, set![t])
            &&& tasks_kept(m, waits, set![t])
            &&& noted.cpus == m.cpus && cursors_kept(m, noted)
            &&& stopped.cpus == m.cpus && cursors_kept(m, stopped)
            &&& waits.cpus == m.cpus && cursors_kept(m, waits)
        }),
{
}

/// A context switch is due exactly if the current task of the CPU has changed. It
/// leads from the old one, in the state that it was left in, to the new one.
pub proof fn a_switch_is_due_for_another_task(m: SystemModel, n: SystemModel, c: usize)
    requires
        m.cpu(c).current is Some,
        n.cpu(c).current is Some,
    ensures
        m.context_switch(c, n) is None <==> n.cpu(c).current == m.cpu(c).current,
        m.context_switch(c, n) matches Some(switch) ==> {
            &&& Some(switch.prev) == m.cpu(c).current
            &&& Some(switch.next) == n.cpu(c).current
            &&& switch.prev_state == n.task(switch.prev).state
        },
{
}

/// A placement moves both cursors on, and reserves the CPU that it claims; a
/// migration moves only its own cursor. Giving a reservation back makes the CPU
/// idle again, unless it has been used meanwhile. Nothing else changes.
pub proof fn placement_touches_cursors_and_hints(m: SystemModel, selection: RunQueueSelection)
    requires
        m.has_cpu(selection.cpu_id),
    ensures
        ({
            let c = selection.cpu_id;
            let n = m.cursors_advanced().claimed(selection);
            &&& n.next_idle_run_queue == m.next_idle_run_queue.wrapping_add(1)
            &&& n.next_run_queue == m.next_run_queue.wrapping_add(1)
            &&& n.cpu(c) == (CpuInner {
                activity: if selection.claimed_idle {
                    RUN_QUEUE_ACTIVITY_RESERVED
                } else {
                    m.cpu(c).activity
                },
                ..m.cpu(c)
            })
            &&& n.ready(c) == m.ready(c)
            &&& n.exited(c) == m.exited(c)
            &&& n.tasks == m.tasks
            &&& cpus_kept(m, n, set![c])
        }),
        m.claimed(selection).tasks == m.tasks,
        cursors_kept(m, m.claimed(selection)),
        ({
            let n = m.cursor_advanced();
            &&& n.next_idle_run_queue == m.next_idle_run_queue
            &&& n.next_run_queue == m.next_run_queue.wrapping_add(1)
            &&& n.tasks == m.tasks
            &&& n.cpus == m.cpus
        }),
        ({
            let c = selection.cpu_id;
            let n = m.unreserved(c);
            &&& n.cpu(c) == (CpuInner {
                activity: if m.cpu(c).activity == RUN_QUEUE_ACTIVITY_RESERVED {
                    RUN_QUEUE_ACTIVITY_IDLE
                } else {
                    m.cpu(c).activity
                },
                ..m.cpu(c)
            })
            &&& n.ready(c) == m.ready(c)
            &&& n.exited(c) == m.exited(c)
            &&& n.tasks == m.tasks
            &&& cpus_kept(m, n, set![c])
            &&& cursors_kept(m, n)
        }),
{
}

/// A tick takes one off the slice, which wraps only at the lower end of its type.
pub proof fn a_tick_takes_one_off(slice: isize)
    ensures
        slice > isize::MIN ==> crate::scheduler::slice_after_tick(slice) == slice - 1,
        slice == isize::MIN ==> crate::scheduler::slice_after_tick(slice) == isize::MAX,
{
}

/// The first CPU boots into a main task that runs, with an idle task that is ready
/// and pinned to it and a gc task that is pinned to it and queued.
pub proof fn the_first_cpu_boots_into_main(m: SystemModel, c: usize)
    requires
        m.wf(),
        m.is_offline(c),
        m.tasks.len() + 3 < usize::MAX,
    ensures
        ({
            let n = m.booted(c);
            let idle = m.tasks.len() as usize;
            let main = (m.tasks.len() + 1) as usize;
            let gc = (m.tasks.len() + 2) as usize;
            &&& n.tasks.len() == m.tasks.len() + 3
            &&& n.cpu(c) == (CpuInner {
                initialized: true,
                current: Some(main),
                idle: Some(idle),
                ..m.cpu(c)
            })
            &&& n.ready(c) == seq![(gc, MAX_TIME_SLICE as isize)]
            &&& n.exited(c) == m.exited(c)
            &&& n.task(main) == (TaskInner {
                state: TaskState::Running,
                on_cpu: true,
                ..TaskInner::fresh(TaskRole::Main)
            })
            &&& n.task(idle) == (TaskInner {
                cpumask: AxCpuMask::only(c),
                ..TaskInner::fresh(TaskRole::Idle)
            })
            &&& n.task(gc) == (TaskInner {
                cpumask: AxCpuMask::only(c),
                ..TaskInner::fresh(TaskRole::Gc)
            })
            &&& n.slice(main) == Some(MAX_TIME_SLICE as isize)
            &&& n.slice(idle) == Some(MAX_TIME_SLICE as isize)
            &&& n.slice(gc) is None
            &&& tasks_kept(m, n, Set::empty())
            &&& cpus_kept(m, n, set![c])
            &&& cursors_kept(m, n)
        }),
{
    assert(m.ready(c) =~= Seq::empty());
    assert(m.booted(c).ready(c) =~= seq![
        ((m.tasks.len() + 2) as usize, MAX_TIME_SLICE as isize),
    ]);
}

/// Any other CPU boots into its idle task, with a gc task that is pinned to it and
/// queued, and counts as idle.
pub proof fn another_cpu_boots_into_idle(m: SystemModel, c: usize)
    requires
        m.wf(),
        m.is_offline(c),
        m.tasks.len() + 2 < usize::MAX,
    ensures
        ({
            let n = m.booted_secondary(c);
            let idle = m.tasks.len() as usize;
            let gc = (m.tasks.len() + 1) as usize;
            &&& n.tasks.len() == m.tasks.len() + 2
            &&& n.cpu(c) == (CpuInner {
                initialized: true,
                current: Some(idle),
                idle: Some(idle),
                activity: RUN_QUEUE_ACTIVITY_IDLE,
                ..m.cpu(c)
            })
            &&& n.ready(c) == seq![(gc, MAX_TIME_SLICE as isize)]
            &&& n.exited(c) == m.exited(c)
            &&& n.task(idle) == (TaskInner {
                state: TaskState::Running,
                on_cpu: true,
                ..TaskInner::fresh(TaskRole::Idle)
            })
            &&& n.task(gc) == (TaskInner {
                cpumask: AxCpuMask::only(c),
                ..TaskInner::fresh(TaskRole::Gc)
            })
            &&& n.slice(idle) == Some(MAX_TIME_SLICE as isize)
            &&& n.slice(gc) is None
            &&& tasks_kept(m, n, Set::empty())
            &&& cpus_kept(m, n, set![c])
            &&& cursors_kept(m, n)
        }),
{
    assert(m.ready(c) =~= Seq::empty());
    assert(m.booted_secondary(c).ready(c) =~= seq![
        ((m.tasks.len() + 1) as usize, MAX_TIME_SLICE as isize),
    ]);
}

/// A task that is put into a run queue at once becomes ready there and notes the
/// CPU. If it keeps its slice, because it has ticks left and is preempted, it goes
/// first; else it goes last with a full slice. This holds of the current task of
/// that CPU that is running, and of a blocked task that is on no CPU, whichever
/// CPU puts it there.
pub proof fn putting_a_task_back_keeps_or_renews_its_slice(
    m: SystemModel,
    c: usize,
    t: usize,
    from: TaskState,
    preempt: bool,
    this_cpu: usize,
)
    requires
        m.wf(),
        m.has_cpu(c),
        m.has_cpu(this_cpu),
        m.has_task(t),
        m.task(t).state == from,
        !m.task(t).idle(),
        from == TaskState::Running || (from == TaskState::Blocked && (!m.task(t).on_cpu || (c
            == this_cpu && m.cpu(c).current == Some(t)))),
    ensures
        m.joins(c, t, from, this_cpu),
        m.slice(t) is Some,
        ({
            let n = m.put(c, t, from, preempt, this_cpu);
            let ticks = m.slice(t).unwrap();
            &&& preempt && ticks > 0 ==> n.ready(c).len() == m.ready(c).len() + 1 && n.ready(c)[0]
                == (t, ticks) && n.ready(c).drop_first() == m.ready(c)
            &&& !(preempt && ticks > 0) ==> n.ready(c) == m.ready(c).push(
                (t, MAX_TIME_SLICE as isize),
            )
            &&& n.slice(t) is None
            &&& n.task(t) == (TaskInner { state: TaskState::Ready, cpu_id: c, ..m.task(t) })
            &&& n.cpu(c) == m.cpu(c)
            &&& n.exited(c) == m.exited(c)
            &&& n.tasks.len() == m.tasks.len()
            &&& tasks_kept(m, n, set![t])
            &&& cpus_kept(m, n, set![c])
            &&& cursors_kept(m, n)
        }),
{
    crate::model::lemma_unqueued(m, t);
    let ticks = m.slice(t).unwrap();
    let n = m.put(c, t, from, preempt, this_cpu);
    if preempt && ticks > 0 {
        assert(n.ready(c) == seq![(t, ticks)] + m.ready(c));
        assert(n.ready(c).drop_first() =~= m.ready(c));
    }
}

/// A task in another state than the one asked for is left alone, and an idle task
/// only becomes ready.
pub proof fn putting_back_needs_the_right_state(
    m: SystemModel,
    c: usize,
    t: usize,
    from: TaskState,
    preempt: bool,
    this_cpu: usize,
)
    requires
        m.has_task(t),
        m.task(t).state != from || m.task(t).idle(),
    ensures
        !m.joins(c, t, from, this_cpu),
        m.task(t).state != from ==> m.put(c, t, from, preempt, this_cpu) == m,
        m.task(t).state == from ==> {
            let n = m.put(c, t, from, preempt, this_cpu);
            &&& n.task(t) == (TaskInner { state: TaskState::Ready, ..m.task(t) })
            &&& n.slice(t) == m.slice(t)
            &&& n.tasks.len() == m.tasks.len()
            &&& n.cpus == m.cpus
            &&& tasks_kept(m, n, set![t])
            &&& cursors_kept(m, n)
        },
{
}

/// What the operations ask for, in terms of the tasks and CPUs alone: whether a
/// task is an idle one, runs, or is free; and whether a CPU may switch, may be
/// interrupted, or has not started.
pub proof fn what_operations_ask_for(
    m: SystemModel,
    c: usize,
    t: usize,
    run_queue: crate::current::CurrentRunQueueRef,
)
    requires
        run_queue.cpu_id == c,
        run_queue.current_task == t,
    ensures
        m.task(t).idle() <==> m.task(t).role == TaskRole::Idle,
        run_queue.is_current(m) <==> c < m.cpus.len() && t < m.tasks.len() && m.cpu(c).initialized
            && m.cpu(c).current == Some(t),
        run_queue.is_running(m) <==> run_queue.is_current(m) && m.task(t).state
            == TaskState::Running && m.cpu(c).prev is None,
        m.is_free(t) <==> t < m.tasks.len() && m.task(t).state == TaskState::Ready
            && m.slice(t) is Some && !m.task(t).on_cpu && m.task(t).role != TaskRole::Idle,
        m.cpu(c).current == Some(t) ==> (m.may_switch(c) <==> c < m.cpus.len() && m.cpu(
            c,
        ).initialized && m.cpu(c).prev is None && m.task(t).state != TaskState::Running),
        m.cpu(c).current == Some(t) ==> (m.interruptible(c) <==> c < m.cpus.len() && m.cpu(
            c,
        ).initialized && m.cpu(c).prev is None && m.task(t).state == TaskState::Running),
        m.is_offline(c) <==> c < m.cpus.len() && !m.cpu(c).initialized && m.cpu(c).current is None
            && m.cpu(c).idle is None && m.cpu(c).prev is None && m.ready(c).len() == 0,
{
}

} // verus!
