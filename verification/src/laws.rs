//! What holds of the scheduler as a whole.
use vstd::prelude::*;

use crate::activity::{
    RUN_QUEUE_ACTIVITY_BUSY, RUN_QUEUE_ACTIVITY_IDLE, RUN_QUEUE_ACTIVITY_RESERVED,
};
use crate::cpumask::AxCpuMask;
use crate::model::SystemModel;
use crate::placement::RunQueueSelection;
use crate::scheduler::MAX_TIME_SLICE;
use crate::task::TaskState;

verus! {

/// No task is the current task of two CPUs.
pub proof fn a_task_runs_on_one_cpu(m: SystemModel, c: usize, d: usize, t: usize)
    requires
        m.wf(),
        m.has_cpu(c),
        m.has_cpu(d),
        m.cpu(c).current == Some(t),
        m.cpu(d).current == Some(t),
    ensures
        c == d,
{
    assert(m.holds(c as int, t) && m.holds(d as int, t));
}

/// The current task of a CPU is marked as being on a CPU.
pub proof fn a_current_task_is_on_cpu(m: SystemModel, c: usize, t: usize)
    requires
        m.wf(),
        m.has_cpu(c),
        m.cpu(c).current == Some(t),
    ensures
        m.has_task(t),
        m.task(t).on_cpu,
{
    assert(m.holds(c as int, t));
}

/// A task waits in one ready queue at most, and only once there.
pub proof fn a_task_is_queued_once(
    m: SystemModel,
    c: usize,
    i: int,
    d: usize,
    j: int,
)
    requires
        m.wf(),
        m.has_cpu(c),
        m.has_cpu(d),
        0 <= i < m.ready(c).len(),
        0 <= j < m.ready(d).len(),
        m.ready(c)[i].0 == m.ready(d)[j].0,
    ensures
        c == d,
        i == j,
{
    let t = m.ready(c)[i].0;
    assert(m.queued_at(c as int, i, t) && m.queued_at(d as int, j, t));
}

/// A task that waits in a ready queue is ready, is no idle task, and no other
/// CPU runs it or is still switching away from it.
pub proof fn a_queued_task_is_ready(m: SystemModel, c: usize, i: int, d: usize)
    requires
        m.wf(),
        m.has_cpu(c),
        0 <= i < m.ready(c).len(),
        m.has_cpu(d),
        c != d,
    ensures
        ({
            let t = m.ready(c)[i].0;
            &&& m.has_task(t)
            &&& m.task(t).state == TaskState::Ready
            &&& !m.task(t).idle()
            &&& m.cpu(d).current != Some(t)
            &&& m.cpu(d).prev != Some(t)
        }),
{
    let t = m.ready(c)[i].0;
    assert(m.queued_at(c as int, i, t));
    if m.holds(d as int, t) {
        assert(m.task(t).on_cpu);
        assert(m.holds(c as int, t));
    }
}

/// A deferred wake-up is not lost: some CPU still has the task on it, and takes
/// the wake-up when it has saved the task's context.
pub proof fn a_deferred_wake_has_an_owner(m: SystemModel, t: usize)
    requires
        m.wf(),
        m.has_task(t),
        m.task(t).wake_stashed,
    ensures
        exists|c: usize| #[trigger]
            m.has_cpu(c) && (m.cpu(c).current == Some(t) || m.cpu(c).prev == Some(t)),
{
    let k = choose|k: int| m.holds(k, t);
    let c = k as usize;
    assert(m.holds(k, t));
    assert(m.has_cpu(c) && (m.cpu(c).current == Some(t) || m.cpu(c).prev == Some(t)));
}

/// A wake-up that was deferred is completed by the CPU that switches away from
/// the task: once that CPU has saved the context, the task is the last one in
/// the ready queue that the waker chose, with a full time slice, and on no CPU.
/// That queue's CPU is asked to reschedule if it is another one; the current
/// task has to give way if it is this one.
pub proof fn a_deferred_wake_is_completed(m: SystemModel, c: usize)
    requires
        m.wf(),
        m.has_cpu(c),
        m.cpu(c).initialized,
        m.cpu(c).prev is Some,
        m.has_deferred_wake(c),
    ensures
        ({
            let t = m.cpu(c).prev.unwrap();
            let target = m.deferred_target(c);
            let n = m.finished_switch(c);
            &&& n.ready(target) == m.ready(target).push((t, MAX_TIME_SLICE as isize))
            &&& !n.task(t).on_cpu
            &&& !n.task(t).wake_stashed
            &&& n.task(t).state == TaskState::Ready
            &&& target != c ==> n.cpu(target).reschedule_pending
            &&& target == c ==> n.task(n.cpu(c).current.unwrap()).force_resched_pending
        }),
{
    let t = m.cpu(c).prev.unwrap();
    assert(m.holds(c as int, t));
    assert(m.has_task(t));
    assert(m.cpus[c as int].info.initialized);
    let current = m.cpu(c).current.unwrap();
    assert(m.holds(c as int, current));
    assert(m.has_task(current));
    assert(current != t);
}

/// Unblocking a task that is not blocked does nothing.
pub proof fn unblocking_needs_a_blocked_task(
    m: SystemModel,
    c: usize,
    t: usize,
    resched: bool,
    this_cpu: usize,
)
    requires
        m.task(t).state != TaskState::Blocked,
    ensures
        m.unblocked(c, t, resched, this_cpu) == m,
{
}

/// A wake-up is not a preemption: a woken task that joins a ready queue goes to
/// its end with a full time slice, behind all that were there, whether or not
/// the waker asks to reschedule.
pub proof fn a_woken_task_goes_last(
    m: SystemModel,
    c: usize,
    t: usize,
    resched: bool,
    this_cpu: usize,
)
    requires
        m.wf(),
        m.has_cpu(c),
        m.has_cpu(this_cpu),
        m.has_task(t),
        m.joins(c, t, TaskState::Blocked, this_cpu),
    ensures
        m.unblocked(c, t, resched, this_cpu).ready(c) == m.ready(c).push(
            (t, MAX_TIME_SLICE as isize),
        ),
{
}

/// A second wake-up of a task has no effect: after the first one the task is not
/// blocked any more, whether it joined a queue or was deferred.
pub proof fn a_task_wakes_once(
    m: SystemModel,
    c: usize,
    d: usize,
    t: usize,
    resched: bool,
    again: bool,
    this_cpu: usize,
    other_cpu: usize,
)
    requires
        m.wf(),
        m.has_cpu(c),
        m.has_cpu(this_cpu),
        m.has_task(t),
        m.task(t).state == TaskState::Blocked,
        m.cpu(this_cpu).current is Some,
    ensures
        ({
            let woken = m.unblocked(c, t, resched, this_cpu);
            &&& woken.task(t).state == TaskState::Ready
            &&& woken.unblocked(d, t, again, other_cpu) == woken
        }),
{
    let current = m.cpu(this_cpu).current.unwrap();
    assert(m.holds(this_cpu as int, current));
}

/// A new task goes to an idle CPU whenever some CPU that it may run on takes
/// tasks and is idle; else it goes to such a CPU with the smallest load, and to
/// its creator's on a tie.
pub proof fn a_new_task_uses_idle_cpus_then_balances(
    m: SystemModel,
    cpumask: AxCpuMask,
    this_cpu: usize,
    selection: RunQueueSelection,
    other: usize,
)
    requires
        m.wf(),
        m.new_task_choice(cpumask, this_cpu, Some(selection)),
        m.has_cpu(other),
        cpumask.has(other),
        m.accepts(other, this_cpu),
    ensures
        m.is_eligible(cpumask, this_cpu, selection),
        m.claimable(other) ==> selection.claimed_idle,
        !selection.claimed_idle ==> m.runnable_load(selection.cpu_id) <= m.runnable_load(other),
        !selection.claimed_idle && other == this_cpu && m.runnable_load(other) == m.runnable_load(
            selection.cpu_id,
        ) ==> selection.cpu_id == this_cpu,
{
    let ready = m.ready_cpus(this_cpu);
    let idle = m.claimable_cpus();
    let load = m.loads();
    crate::placement::selection_is_eligible(
        cpumask,
        seq![this_cpu],
        m.next_idle_run_queue,
        m.next_run_queue,
        m.cpu_count(),
        crate::placement::exactly(ready),
        crate::placement::exactly(idle),
        crate::placement::exact_load(load),
        Some(selection),
    );
    crate::placement::selection_uses_an_available_idle_cpu(
        cpumask,
        seq![this_cpu],
        m.next_idle_run_queue,
        m.next_run_queue,
        m.cpu_count(),
        ready,
        idle,
        load,
        Some(selection),
    );
    crate::placement::selection_balances_load(
        cpumask,
        seq![this_cpu],
        m.next_idle_run_queue,
        m.next_run_queue,
        m.cpu_count(),
        ready,
        idle,
        load,
        Some(selection),
    );
    assert(ready(other) && idle(other) == m.claimable(other));
    assert(load(other) == m.runnable_load(other));
    assert(load(selection.cpu_id) == m.runnable_load(selection.cpu_id));
    crate::placement::lemma_strongest_preference(seq![this_cpu], selection.cpu_id);
    crate::placement::lemma_strongest_preference(seq![this_cpu], this_cpu);
}

/// A task that wakes up returns to its last CPU whenever it may run there and
/// that CPU takes tasks and is idle.
pub proof fn a_waking_task_returns_to_an_idle_last_cpu(
    m: SystemModel,
    cpumask: AxCpuMask,
    last_cpu: usize,
    this_cpu: usize,
    selected: Option<RunQueueSelection>,
)
    requires
        m.wf(),
        m.wake_choice(cpumask, last_cpu, this_cpu, selected),
        cpumask.has(last_cpu),
        m.accepts(last_cpu, this_cpu),
        m.claimable(last_cpu),
    ensures
        selected == Some(RunQueueSelection { cpu_id: last_cpu, claimed_idle: true }),
{
    crate::placement::wake_preserves_an_idle_last_cpu(
        cpumask,
        this_cpu,
        last_cpu,
        m.next_idle_run_queue,
        m.next_run_queue,
        m.cpu_count(),
        m.ready_cpus(this_cpu),
        m.claimable_cpus(),
        m.loads(),
        selected,
    );
}

/// A task always finds a run queue as long as some CPU that it may run on takes
/// tasks, whether it is new, wakes up or migrates.
pub proof fn placement_succeeds_with_a_ready_cpu(
    m: SystemModel,
    cpumask: AxCpuMask,
    last_cpu: usize,
    this_cpu: usize,
    other: usize,
)
    requires
        m.wf(),
        cpumask.has(other),
        m.accepts(other, this_cpu),
    ensures
        !m.new_task_choice(cpumask, this_cpu, None),
        !m.wake_choice(cpumask, last_cpu, this_cpu, None),
        !m.migration_choice(cpumask, this_cpu, None),
{
    let ready = m.ready_cpus(this_cpu);
    assert(other < m.cpu_count() && cpumask.has(other) && ready(other));
    if m.new_task_choice(cpumask, this_cpu, None) {
        crate::placement::selection_fails_only_without_a_ready_cpu(
            cpumask,
            seq![this_cpu],
            m.next_idle_run_queue,
            m.next_run_queue,
            m.cpu_count(),
            ready,
            m.claimable_cpus(),
            m.loads(),
            None,
        );
    }
    if m.wake_choice(cpumask, last_cpu, this_cpu, None) {
        crate::placement::selection_fails_only_without_a_ready_cpu(
            cpumask,
            seq![last_cpu, this_cpu],
            m.next_idle_run_queue,
            m.next_run_queue,
            m.cpu_count(),
            ready,
            m.claimable_cpus(),
            m.loads(),
            None,
        );
    }
    if m.migration_choice(cpumask, this_cpu, None) {
        crate::placement::first_match_finds_any_match(
            cpumask,
            m.next_run_queue,
            m.cpu_count(),
            ready,
            None,
        );
    }
}

/// Migrations take turns: where every CPU is allowed and takes tasks, the next
/// migration goes to the CPU behind the one that took the last. The cursor is a
/// machine word; the one turn at which it starts over from zero is left out where
/// the word does not hold a whole number of rounds.
pub proof fn migrations_take_turns(
    m: SystemModel,
    cpumask: AxCpuMask,
    this_cpu: usize,
    taken: usize,
    next: usize,
)
    requires
        m.wf(),
        forall|c: usize| #[trigger]
            m.has_cpu(c) ==> cpumask.has(c) && m.accepts(c, this_cpu),
        m.migration_choice(cpumask, this_cpu, Some(taken)),
        m.cursor_advanced().migration_choice(cpumask, this_cpu, Some(next)),
        m.next_run_queue < usize::MAX || (usize::MAX + 1) % (m.cpu_count() as int) == 0,
    ensures
        next == (taken + 1) % (m.cpu_count() as int),
{
    let n = m.cursor_advanced();
    crate::model::lemma_unrelated(m, n);
    lemma_starts_at_the_cursor(m, cpumask, this_cpu, taken);
    assert forall|c: usize| #[trigger] n.has_cpu(c) implies cpumask.has(c) && n.accepts(
        c,
        this_cpu,
    ) by {
        assert(m.has_cpu(c));
    }
    lemma_starts_at_the_cursor(n, cpumask, this_cpu, next);
    lemma_next_turn(m.next_run_queue, m.cpu_count());
}

/// The position behind the one that a cursor stands for.
proof fn lemma_next_turn(cursor: usize, count: usize)
    requires
        count > 0,
        cursor < usize::MAX || (usize::MAX + 1) % (count as int) == 0,
    ensures
        cursor.wrapping_add(1) as int % (count as int) == (cursor as int % (count as int) + 1) % (
        count as int),
{
    let n = count as int;
    vstd::arithmetic::div_mod::lemma_add_mod_noop_right(1, cursor as int, n);
    if cursor == usize::MAX {
        vstd::arithmetic::div_mod::lemma_small_mod(0, count as nat);
    }
}

/// Where every CPU is allowed and takes tasks, the first one that the search
/// visits is taken.
proof fn lemma_starts_at_the_cursor(
    m: SystemModel,
    cpumask: AxCpuMask,
    this_cpu: usize,
    taken: usize,
)
    requires
        m.wf(),
        forall|c: usize| #[trigger]
            m.has_cpu(c) ==> cpumask.has(c) && m.accepts(c, this_cpu),
        m.migration_choice(cpumask, this_cpu, Some(taken)),
    ensures
        m.cpu_count() > 0,
        taken == m.next_run_queue as int % (m.cpu_count() as int),
{
    let count = m.cpu_count();
    let start = m.next_run_queue;
    let first = crate::placement::scan_cpu(start, 0, count);
    assert(first < count) by {
        vstd::arithmetic::div_mod::lemma_mod_bound(start as int, count as int);
    }
    assert(m.has_cpu(first));
}

/// A new task in a run queue adds one to the load of that CPU and nothing to the
/// load of any other.
pub proof fn a_placed_task_adds_to_the_load(m: SystemModel, c: usize, t: usize, other: usize)
    requires
        m.wf(),
        m.has_cpu(c),
        m.is_free(t),
        m.has_cpu(other),
    ensures
        m.placed(c, t).runnable_load(c) == m.runnable_load(c) + 1,
        other != c ==> m.placed(c, t).runnable_load(other) == m.runnable_load(other),
{
    crate::model::lemma_ready_len(m, c);
}

/// A CPU that a placement has reserved is not reserved by another one, and
/// counts as loaded by the task that is to come.
pub proof fn a_reserved_cpu_is_not_claimed_again(
    m: SystemModel,
    selection: RunQueueSelection,
)
    requires
        m.wf(),
        m.has_cpu(selection.cpu_id),
        selection.claimed_idle,
    ensures
        !m.claimed(selection).claimable(selection.cpu_id),
        m.claimed(selection).runnable_load(selection.cpu_id) == m.ready(selection.cpu_id).len() + 1,
{
    crate::model::lemma_ready_len(m, selection.cpu_id);
}

/// A placement whose wake-up fails, because the task is not blocked any more,
/// leaves the reserved CPU as it was: only the cursors have moved on.
pub proof fn a_failed_wake_returns_its_reservation(
    m: SystemModel,
    selection: RunQueueSelection,
    t: usize,
    resched: bool,
    this_cpu: usize,
)
    requires
        m.wf(),
        m.has_cpu(selection.cpu_id),
        selection.claimed_idle,
        m.claimable(selection.cpu_id),
        m.task(t).state != TaskState::Blocked,
    ensures
        m.cursors_advanced().claimed(selection).unblocked(
            selection.cpu_id,
            t,
            resched,
            this_cpu,
        ).unreserved(selection.cpu_id) == m.cursors_advanced(),
{
    let c = selection.cpu_id;
    let n = m.cursors_advanced();
    assert(n.claimed(selection).unreserved(c).cpus =~= n.cpus);
}

/// Requests to reschedule are coalesced: a remote CPU that was kicked is not
/// interrupted by another kick until the request is delivered; then it is again.
pub proof fn kicks_are_coalesced(m: SystemModel, c: usize, this_cpu: usize, other_cpu: usize)
    requires
        m.has_cpu(c),
        c != this_cpu,
        c != other_cpu,
    ensures
        m.kicked(c, this_cpu).kick_target(c, other_cpu) is None,
        m.kicked(c, this_cpu).kicked(c, other_cpu) == m.kicked(c, this_cpu),
        m.kicked(c, this_cpu).delivered(c).kick_target(c, other_cpu) == Some(c),
{
    let n = m.kicked(c, this_cpu);
    assert(n.kicked(c, other_cpu).cpus =~= n.cpus);
}

/// Yielding rotates the ready queue: the task at its head runs next, and the task
/// that yields goes to its end with a full time slice.
pub proof fn yielding_rotates_the_queue(m: SystemModel, c: usize, t: usize)
    requires
        m.wf(),
        m.runs(c, t),
        m.task(t).state == TaskState::Running,
        !m.task(t).idle(),
        m.ready(c).len() > 0,
    ensures
        ({
            let n = m.rotated(c, t, false);
            &&& n.cpu(c).current == Some(m.ready(c)[0].0)
            &&& n.ready(c) == m.ready(c).drop_first().push((t, MAX_TIME_SLICE as isize))
            &&& n.task(t).state == TaskState::Ready
            &&& n.task(m.ready(c)[0].0).state == TaskState::Running
        }),
{
    let head = m.ready(c)[0].0;
    assert(m.queued_at(c as int, 0, head));
    assert(m.has_task(head) && head != t);
    let put = m.put(c, t, TaskState::Running, false, c);
    let full = MAX_TIME_SLICE as isize;
    assert(put.ready(c) == m.ready(c).push((t, full)));
    assert(put.ready(c)[0] == m.ready(c)[0]);
    assert(put.ready(c).drop_first() =~= m.ready(c).drop_first().push((t, full)));
    assert(put.picked(c).ready(c) == put.ready(c).drop_first());
}

/// A task that yields while no other task is ready goes on running.
pub proof fn yielding_alone_goes_on(m: SystemModel, c: usize, t: usize)
    requires
        m.wf(),
        m.runs(c, t),
        m.task(t).state == TaskState::Running,
        !m.task(t).idle(),
        m.ready(c).len() == 0,
    ensures
        ({
            let n = m.rotated(c, t, false);
            &&& n.cpu(c).current == Some(t)
            &&& n.task(t).state == TaskState::Running
            &&& n.ready(c).len() == 0
            &&& m.context_switch(c, n) is None
        }),
{
    let full = MAX_TIME_SLICE as isize;
    let put = m.put(c, t, TaskState::Running, false, c);
    assert(put.ready(c) == m.ready(c).push((t, full)));
    assert(put.ready(c)[0] == (t, full));
}

/// A preempted task that has time left keeps it and is the next one to run; one
/// whose slice is used up goes last, as if it had yielded.
pub proof fn preemption_keeps_the_slice(m: SystemModel, c: usize, t: usize)
    requires
        m.wf(),
        m.runs(c, t),
        m.task(t).state == TaskState::Running,
        !m.task(t).idle(),
    ensures
        m.slice(t) is Some,
        m.slice(t).unwrap() > 0 ==> {
            let n = m.rotated(c, t, true);
            &&& n.cpu(c).current == Some(t)
            &&& n.slice(t) == m.slice(t)
            &&& n.ready(c) == m.ready(c)
        },
        m.slice(t).unwrap() <= 0 ==> m.rotated(c, t, true) == m.rotated(c, t, false),
{
    crate::model::lemma_unqueued(m, t);
    let ticks = m.slice(t).unwrap();
    let put = m.put(c, t, TaskState::Running, true, c);
    if ticks > 0 {
        assert(put.ready(c) == seq![(t, ticks)] + m.ready(c));
        assert(put.ready(c)[0] == (t, ticks));
        assert(put.ready(c).drop_first() =~= m.ready(c));
    }
}

/// A CPU whose ready queue is empty runs its idle task when its current task
/// blocks, and is idle from then on unless it was reserved meanwhile.
pub proof fn blocking_the_last_task_idles(m: SystemModel, c: usize, t: usize)
    requires
        m.wf(),
        m.runs(c, t),
        !m.task(t).idle(),
        m.ready(c).len() == 0,
    ensures
        ({
            let n = m.in_state(t, TaskState::Blocked).rescheduled(c);
            &&& n.cpu(c).current == m.cpu(c).idle
            &&& n.cpu(c).prev == Some(t)
            &&& m.cpu(c).activity == RUN_QUEUE_ACTIVITY_BUSY ==> n.cpu(c).activity
                == RUN_QUEUE_ACTIVITY_IDLE
            &&& m.cpu(c).activity == RUN_QUEUE_ACTIVITY_RESERVED ==> n.cpu(c).activity
                == RUN_QUEUE_ACTIVITY_RESERVED
        }),
{
    assert(m.cpus[c as int].info.initialized);
    assert(m.cpus[c as int].info.idle is Some);
    let idle = m.cpu(c).idle.unwrap();
    assert(m.task(idle).idle());
    assert(idle != t);
}

/// A task that is handed over to a migration task is free once its context is
/// saved: ready, in no queue and on no CPU, so that the migration task can put it
/// into the run queue that it selects.
pub proof fn a_migrating_task_becomes_free(m: SystemModel, c: usize, t: usize, migration: usize)
    requires
        m.wf(),
        m.runs(c, t),
        m.task(t).state == TaskState::Running,
        !m.task(t).idle(),
        m.cpu(c).prev is None,
        m.is_free(migration),
    ensures
        ({
            let n = m.handed_over(c, t, migration);
            &&& n.cpu(c).current == Some(migration)
            &&& n.cpu(c).prev == Some(t)
            &&& n.finished_switch(c).is_free(t)
            &&& n.finished_switch(c).task(t).cpumask == m.task(t).cpumask
        }),
{
    crate::model::lemma_unqueued(m, t);
    assert(m.holds(c as int, t));
    assert(m.task(t).on_cpu);
    assert(t != migration);
    assert(!m.task(t).wake_stashed);
}

/// A migrated task is the last one in the ready queue of its new CPU, with a full
/// time slice, and that CPU is asked to reschedule if it is a remote one.
pub proof fn a_migrated_task_is_delivered(m: SystemModel, c: usize, t: usize, this_cpu: usize)
    requires
        m.wf(),
        m.has_cpu(c),
        m.is_free(t),
    ensures
        ({
            let n = m.migrated(c, t, this_cpu);
            &&& n.ready(c) == m.ready(c).push((t, MAX_TIME_SLICE as isize))
            &&& n.task(t).cpu_id == c
            &&& c != this_cpu ==> n.cpu(c).reschedule_pending
        }),
{
}

/// A task that exits is left to the gc task of its CPU: it is the last one among
/// the CPU's exited tasks, and the CPU goes on with another task.
pub proof fn an_exited_task_is_left_to_the_gc(m: SystemModel, c: usize, t: usize)
    requires
        m.wf(),
        m.runs(c, t),
        m.task(t).state == TaskState::Running,
        !m.task(t).idle(),
    ensures
        ({
            let n = m.in_state(t, TaskState::Exited).with_exited(
                c,
                m.exited(c).push(t),
            ).rescheduled(c);
            &&& n.exited(c) == m.exited(c).push(t)
            &&& n.task(t).state == TaskState::Exited
            &&& n.cpu(c).current != Some(t)
            &&& n.cpu(c).prev == Some(t)
        }),
{
    assert(m.cpus[c as int].info.initialized);
    assert(m.cpus[c as int].info.idle is Some);
    let idle = m.cpu(c).idle.unwrap();
    assert(m.task(idle).idle() && idle != t);
    if m.ready(c).len() > 0 {
        let head = m.ready(c)[0].0;
        assert(m.queued_at(c as int, 0, head));
        assert(m.has_task(head) && head != t);
    }
}

/// A CPU that has been brought in takes tasks from itself at once, and has
/// exactly its gc task to run.
pub proof fn a_booted_cpu_takes_tasks(m: SystemModel, c: usize)
    requires
        m.wf(),
        m.is_offline(c),
        m.tasks.len() + 3 < usize::MAX,
    ensures
        m.booted(c).accepts(c, c),
        m.booted(c).ready(c) == seq![
            ((m.tasks.len() + 2) as usize, MAX_TIME_SLICE as isize),
        ],
        m.booted_secondary(c).accepts(c, c),
        m.booted_secondary(c).ready(c) == seq![
            ((m.tasks.len() + 1) as usize, MAX_TIME_SLICE as isize),
        ],
        m.booted_secondary(c).cpu(c).activity == RUN_QUEUE_ACTIVITY_IDLE,
{
    assert(m.ready(c) =~= Seq::empty());
}

/// The ticks left of a full slice after `n` ticks.
pub open spec fn slice_after(n: nat) -> isize
    decreases n,
{
    if n == 0 {
        MAX_TIME_SLICE as isize
    } else {
        crate::scheduler::slice_after_tick(slice_after((n - 1) as nat))
    }
}

/// A full slice lasts for exactly `MAX_TIME_SLICE` ticks: the last of them, and
/// none before it, finds the slice used up.
pub proof fn a_slice_lasts_its_ticks(n: nat)
    requires
        n < MAX_TIME_SLICE,
    ensures
        slice_after(n) == MAX_TIME_SLICE - n,
        slice_after(n) <= 1 <==> n + 1 == MAX_TIME_SLICE,
    decreases n,
{
    if n > 0 {
        a_slice_lasts_its_ticks((n - 1) as nat);
    }
}

} // verus!
