//! Dispatching: putting tasks into run queues, picking the next one, and the two
//! halves of a context switch.
use vstd::prelude::*;

use crate::activity::record_switch_with;
use crate::cpumask::AxCpuMask;
use crate::handshake::{drain_step, wake_step, OwnerPhase, WakerPhase};
use crate::model::SystemModel;
use crate::reschedule::mark_reschedule_pending;
use crate::system::{CpuInner, System};
use crate::task::{TaskInner, TaskState};

verus! {

/// A context switch that a CPU has to perform. When it has saved the context of
/// `prev`, it reports so by [`clear_prev_task_on_cpu`].
#[derive(Clone, Copy, Debug, PartialEq, Eq, Structural)]
pub struct ContextSwitch {
    pub prev: usize,
    pub next: usize,
    /// The state of `prev` just before the switch.
    pub prev_state: TaskState,
}

impl SystemModel {
    /// A request to reschedule is pending at CPU `c`, unless that is `this_cpu`.
    pub open spec fn kicked(self, c: usize, this_cpu: usize) -> Self {
        if c == this_cpu {
            self
        } else {
            self.with_cpu(c, CpuInner { reschedule_pending: true, ..self.cpu(c) })
        }
    }

    /// The CPU that an ordinary kick of CPU `c` interrupts.
    pub open spec fn kick_target(self, c: usize, this_cpu: usize) -> Option<usize> {
        if c == this_cpu || self.cpu(c).reschedule_pending {
            None
        } else {
            Some(c)
        }
    }

    /// Whether `this_cpu` wakes up the task that it runs itself, on its own run
    /// queue.
    pub open spec fn wakes_itself(self, c: usize, t: usize, this_cpu: usize) -> bool {
        c == this_cpu && self.cpu(this_cpu).current == Some(t)
    }

    /// Whether a wake-up of task `t` for the run queue of CPU `c` has to be left
    /// with the CPU that still has the task on it.
    pub open spec fn defers(self, c: usize, t: usize, from: TaskState, this_cpu: usize) -> bool {
        from == TaskState::Blocked && !self.wakes_itself(c, t, this_cpu) && self.task(t).on_cpu
    }

    /// Whether putting task `t`, if it is in state `from`, into the run queue of
    /// CPU `c` makes it join the queue right away.
    pub open spec fn joins(self, c: usize, t: usize, from: TaskState, this_cpu: usize) -> bool {
        self.task(t).state == from && !self.task(t).idle() && !self.defers(c, t, from, this_cpu)
    }

    /// The outcome of putting task `t`, if it is in state `from`, into the run
    /// queue of CPU `c`. Only its state changes if it is an idle task. If the
    /// wake-up is deferred it is noted for CPU `c`.
    pub open spec fn put(
        self,
        c: usize,
        t: usize,
        from: TaskState,
        preempt: bool,
        this_cpu: usize,
    ) -> Self {
        let info = TaskInner { state: TaskState::Ready, ..self.task(t) };
        if self.task(t).state != from {
            self
        } else if info.idle() {
            self.with_task(t, info)
        } else if self.defers(c, t, from, this_cpu) {
            self.with_task(t, TaskInner { cpu_id: c, wake_stashed: true, ..info })
        } else {
            self.with_task(t, TaskInner { cpu_id: c, ..info }).put_back(c, t, preempt)
        }
    }

    /// The task that CPU `c` runs next: the head of its ready queue, or else its
    /// idle task.
    pub open spec fn next_task(self, c: usize) -> usize {
        if self.ready(c).len() > 0 {
            self.ready(c)[0].0
        } else {
            self.cpu(c).idle.unwrap()
        }
    }

    /// CPU `c` takes its next task and switches to it.
    pub open spec fn rescheduled(self, c: usize) -> Self {
        self.picked(c).switched(c, self.next_task(c))
    }

    /// The context switch that takes CPU `c` from this state to the one after
    /// it, if that has another current task.
    pub open spec fn context_switch(self, c: usize, after: Self) -> Option<ContextSwitch> {
        let prev = self.cpu(c).current.unwrap();
        let next = after.cpu(c).current.unwrap();
        if prev == next {
            None
        } else {
            Some(ContextSwitch { prev, next, prev_state: after.task(prev).state })
        }
    }

    /// CPU `c` can leave its current task: the task has stopped running, and the
    /// switch to it is complete.
    pub open spec fn may_switch(self, c: usize) -> bool {
        &&& self.has_cpu(c)
        &&& self.cpu(c).initialized
        &&& self.cpu(c).prev is None
        &&& self.task(self.cpu(c).current.unwrap()).state != TaskState::Running
    }

    /// Whether the task that CPU `c` switched away from was woken up meanwhile.
    pub open spec fn has_deferred_wake(self, c: usize) -> bool {
        self.task(self.cpu(c).prev.unwrap()).wake_stashed
    }

    /// The CPU that is to take the task that CPU `c` switched away from.
    pub open spec fn deferred_target(self, c: usize) -> usize {
        self.task(self.cpu(c).prev.unwrap()).cpu_id
    }

    /// CPU `c` has saved the context of the task that it switched away from. If
    /// that task was woken up meanwhile it joins the run queue that the waker
    /// chose, and the CPU of that run queue is asked to reschedule.
    pub open spec fn finished_switch(self, c: usize) -> Self {
        let p = self.cpu(c).prev.unwrap();
        let target = self.deferred_target(c);
        let saved = self.saved(c);
        if !self.has_deferred_wake(c) {
            saved
        } else if target != c {
            saved.put_back(target, p, false).kicked(target, c)
        } else {
            let put = saved.put_back(target, p, false);
            let current = put.cpu(c).current.unwrap();
            put.with_task(
                current,
                TaskInner { force_resched_pending: true, ..put.task(current) },
            )
        }
    }
}

/// Asks CPU `cpu_id` to reschedule, unless it was already asked; reports whether
/// to interrupt it.
pub fn request_remote_reschedule(system: &mut System, cpu_id: usize) -> (send: bool)
    requires
        old(system).wf(),
        old(system)@.has_cpu(cpu_id),
    ensures
        final(system).wf(),
        final(system)@ == old(system)@.with_cpu(
            cpu_id,
            CpuInner { reschedule_pending: true, ..old(system)@.cpu(cpu_id) },
        ),
        send == !old(system)@.cpu(cpu_id).reschedule_pending,
{
    let mut info = system.cpu(cpu_id);
    let send = mark_reschedule_pending(&mut info.reschedule_pending);
    proof {
        crate::model::lemma_with_cpu(system@, cpu_id, info);
    }
    system.set_cpu(cpu_id, info);
    send
}

/// Asks CPU `cpu_id` to reschedule; it has to be interrupted whether or not it
/// was already asked.
pub fn force_remote_reschedule(system: &mut System, cpu_id: usize)
    requires
        old(system).wf(),
        old(system)@.has_cpu(cpu_id),
    ensures
        final(system).wf(),
        final(system)@ == old(system)@.with_cpu(
            cpu_id,
            CpuInner { reschedule_pending: true, ..old(system)@.cpu(cpu_id) },
        ),
{
    let mut info = system.cpu(cpu_id);
    info.reschedule_pending = true;
    proof {
        crate::model::lemma_with_cpu(system@, cpu_id, info);
    }
    system.set_cpu(cpu_id, info);
}

/// Notes that the request to reschedule was delivered to `this_cpu`.
pub fn clear_remote_reschedule_pending_for_current_cpu(system: &mut System, this_cpu: usize)
    requires
        old(system).wf(),
        old(system)@.has_cpu(this_cpu),
    ensures
        final(system).wf(),
        final(system)@ == old(system)@.with_cpu(
            this_cpu,
            CpuInner { reschedule_pending: false, ..old(system)@.cpu(this_cpu) },
        ),
{
    let mut info = system.cpu(this_cpu);
    info.reschedule_pending = false;
    proof {
        crate::model::lemma_with_cpu(system@, this_cpu, info);
    }
    system.set_cpu(this_cpu, info);
}

/// Asks CPU `cpu_id` to reschedule if it is a remote one; returns the CPU that
/// has to be interrupted for that, if any.
pub fn kick_remote_cpu(system: &mut System, cpu_id: usize, this_cpu: usize) -> (ipi: Option<usize>)
    requires
        old(system).wf(),
        old(system)@.has_cpu(cpu_id),
    ensures
        final(system).wf(),
        final(system)@ == old(system)@.kicked(cpu_id, this_cpu),
        ipi == old(system)@.kick_target(cpu_id, this_cpu),
{
    if cpu_id != this_cpu && request_remote_reschedule(system, cpu_id) {
        Some(cpu_id)
    } else {
        None
    }
}

/// Asks CPU `cpu_id` to reschedule if it is a remote one, without regard to a
/// request that is still pending; returns the CPU that has to be interrupted.
pub fn force_kick_remote_cpu(system: &mut System, cpu_id: usize, this_cpu: usize) -> (ipi: Option<
    usize,
>)
    requires
        old(system).wf(),
        old(system)@.has_cpu(cpu_id),
    ensures
        final(system).wf(),
        final(system)@ == old(system)@.kicked(cpu_id, this_cpu),
        ipi == if cpu_id == this_cpu {
            None
        } else {
            Some(cpu_id)
        },
{
    if cpu_id != this_cpu {
        force_remote_reschedule(system, cpu_id);
        Some(cpu_id)
    } else {
        None
    }
}

impl System {
    /// Puts task `t`, which is ready and in no queue, back into the run queue of
    /// CPU `c`.
    pub(crate) fn put_prev_task(&mut self, c: usize, t: usize, preempt: bool)
        requires
            old(self).wf(),
            old(self)@.has_cpu(c),
            old(self)@.has_task(t),
            old(self)@.slice(t) is Some,
            old(self)@.task(t).state == TaskState::Ready,
            !old(self)@.task(t).idle(),
            !old(self)@.task(t).wake_stashed,
            old(self)@.task(t).on_cpu ==> old(self)@.holds(c as int, t),
        ensures
            final(self).wf(),
            final(self)@ == old(self)@.put_back(c, t, preempt),
    {
        proof {
            crate::model::lemma_ready_len(self@, c);
            crate::model::lemma_enqueued(self@, c, t, preempt);
        }
        self.put_back_to_ready_queue(c, t, preempt);
    }

    /// Puts task `t` into the run queue of CPU `c`, as a ready task, if its state
    /// is `from`; an idle task only becomes ready. A task that keeps its slice,
    /// because of `preempt`, goes first; any other goes last with a new slice.
    ///
    /// A blocked task that is woken up may still be finishing its switch-out on
    /// another CPU. It must not join a queue before its context is saved, and
    /// the waker must not wait for that. So the waker leaves the wake-up with the
    /// task, and the CPU that has the task on it completes it in
    /// [`clear_prev_task_on_cpu`]. A task that `this_cpu` runs itself joins the
    /// queue of `this_cpu` right away, since this CPU finishes the switch before
    /// it picks the task.
    ///
    /// Returns whether the task joined the queue.
    pub fn put_task_with_state(
        &mut self,
        c: usize,
        t: usize,
        from: TaskState,
        preempt: bool,
        this_cpu: usize,
    ) -> (put: bool)
        requires
            old(self).wf(),
            old(self)@.has_cpu(c),
            old(self)@.has_cpu(this_cpu),
            old(self)@.has_task(t),
            from == TaskState::Blocked || (from == TaskState::Running && old(self)@.cpu(c).current
                == Some(t)),
        ensures
            final(self).wf(),
            final(self)@ == old(self)@.put(c, t, from, preempt, this_cpu),
            put == old(self)@.joins(c, t, from, this_cpu),
    {
        let mut info = self.task(t);
        let matched = info.transition_state(from, TaskState::Ready);
        if !matched {
            return false;
        }
        proof {
            crate::model::lemma_unqueued(self@, t);
        }
        if info.is_idle() {
            proof {
                crate::model::lemma_with_task(self@, t, info);
            }
            self.set_task(t, info);
            return false;
        }
        let waking_current_task = from == TaskState::Blocked && c == this_cpu
            && self.cpu(this_cpu).current == Some(t);
        let may_defer = from == TaskState::Blocked && !waking_current_task;
        let mut phase = if may_defer {
            WakerPhase::Checking
        } else {
            WakerPhase::Enqueueing
        };
        // The CPU that is to take the task, for whoever completes the wake-up.
        info.cpu_id = c;
        proof {
            crate::model::lemma_with_task(self@, t, info);
        }
        self.set_task(t, info);
        let ghost placed = self@;
        while phase != WakerPhase::Enqueueing && phase != WakerPhase::Done
            invariant
                self.wf(),
                placed.has_task(t),
                placed.task(t).state == TaskState::Ready,
                !placed.task(t).idle(),
                !placed.task(t).wake_stashed,
                placed.slice(t) is Some,
                placed.has_cpu(placed.task(t).cpu_id),
                self@ == placed.with_task(
                    t,
                    TaskInner {
                        wake_stashed: phase == WakerPhase::Rechecking || (phase == WakerPhase::Done),
                        ..placed.task(t)
                    },
                ),
                phase == WakerPhase::Stashing || phase == WakerPhase::Rechecking || phase
                    == WakerPhase::Done ==> placed.task(t).on_cpu,
                phase != WakerPhase::Reclaiming,
                phase == WakerPhase::Enqueueing ==> !placed.task(t).on_cpu || !may_defer,
                phase != WakerPhase::Enqueueing ==> may_defer,
            ensures
                phase == WakerPhase::Enqueueing || phase == WakerPhase::Done,
            decreases crate::handshake::waker_steps_left(phase),
        {
            let mut step = self.task(t);
            phase = wake_step(phase, &mut step);
            proof {
                crate::model::lemma_with_task(self@, t, step);
            }
            self.set_task(t, step);
        }
        if phase == WakerPhase::Done {
            return false;
        }
        assert(self@ == placed);
        assert(self@.holds(c as int, t) <== old(self)@.holds(c as int, t));
        self.put_prev_task(c, t, preempt);
        true
    }

    /// Core reschedule subroutine: picks the next task of CPU `c` and switches to
    /// it. Returns the context switch that CPU `c` has to perform, if any.
    pub fn resched(&mut self, c: usize) -> (switch: Option<ContextSwitch>)
        requires
            old(self).wf(),
            old(self)@.may_switch(c),
        ensures
            final(self).wf(),
            final(self)@ == old(self)@.rescheduled(c),
            switch == old(self)@.context_switch(c, final(self)@),
    {
        proof {
            let m = self@;
            assert(m.cpus[c as int].info.initialized);
            crate::model::lemma_picked(m, c);
            assert(m.cpus[c as int].info.idle is Some);
            let idle = m.cpu(c).idle.unwrap();
            crate::model::lemma_unqueued(m, idle);
            assert(m.holds(c as int, m.cpu(c).current.unwrap()));
            assert(m.holds(c as int, m.ready(c)[0].0) ==> m.picked(c).holds(
                c as int,
                m.ready(c)[0].0,
            ));
            if m.task(idle).on_cpu {
                let d = choose|d: int| m.holds(d, idle);
                assert(m.holds(d, idle));
                assert(m.cpus[d].info.idle == m.cpus[c as int].info.idle);
            }
        }
        let next = match self.pick_next_task(c) {
            Some(next) => next,
            None => self.idle_task(c),
        };
        self.switch_to(c, next)
    }

    /// The idle task of CPU `c`.
    pub fn idle_task(&self, c: usize) -> (idle: usize)
        requires
            self.wf(),
            self@.has_cpu(c),
            self@.cpu(c).initialized,
        ensures
            Some(idle) == self@.cpu(c).idle,
            self@.has_task(idle),
    {
        assert(self@.cpus[c as int].info.initialized);
        self.cpu(c).idle.unwrap()
    }

    /// The task that CPU `c` runs.
    pub fn current_task(&self, c: usize) -> (current: usize)
        requires
            self.wf(),
            self@.has_cpu(c),
            self@.cpu(c).initialized,
        ensures
            Some(current) == self@.cpu(c).current,
            self@.has_task(current),
    {
        assert(self@.cpus[c as int].info.initialized);
        assert(self@.holds(c as int, self@.cpu(c).current.unwrap()));
        self.cpu(c).current.unwrap()
    }

    /// Makes task `next` the current task of CPU `c`. Returns the context switch
    /// that CPU `c` has to perform, or `None` if it goes on with the same task.
    pub fn switch_to(&mut self, c: usize, next: usize) -> (switch: Option<ContextSwitch>)
        requires
            old(self).wf(),
            old(self)@.may_switch(c),
            old(self)@.has_task(next),
            old(self)@.slice(next) is Some,
            !old(self)@.task(next).wake_stashed,
            old(self)@.task(next).on_cpu ==> old(self)@.holds(c as int, next),
            old(self)@.task(next).idle() ==> old(self)@.cpu(c).idle == Some(next),
        ensures
            final(self).wf(),
            final(self)@ == old(self)@.switched(c, next),
            switch == old(self)@.context_switch(c, final(self)@),
    {
        proof {
            crate::model::lemma_switched(self@, c, next);
        }
        let prev = self.current_task(c);
        let prev_state = self.task(prev).state;
        let mut info = self.task(next);
        info.preempt_pending = false;
        info.state = TaskState::Running;
        let mut cpu = self.cpu(c);
        record_switch_with(&mut cpu.activity, info.is_idle());
        if prev == next {
            self.set_task(next, info);
            self.set_cpu(c, cpu);
            return None;
        }
        // Claim the task as running before switching to it, such that any
        // running task has this set.
        info.on_cpu = true;
        cpu.prev = Some(prev);
        cpu.current = Some(next);
        self.set_task(next, info);
        self.set_cpu(c, cpu);
        Some(ContextSwitch { prev, next, prev_state })
    }
}

impl System {
    /// Notes whether task `t` is to be preempted as soon as that is allowed.
    pub fn set_preempt_pending(&mut self, t: usize, pending: bool)
        requires
            old(self).wf(),
            old(self)@.has_task(t),
        ensures
            final(self).wf(),
            final(self)@ == old(self)@.with_task(
                t,
                TaskInner { preempt_pending: pending, ..old(self)@.task(t) },
            ),
    {
        let mut info = self.task(t);
        info.preempt_pending = pending;
        proof {
            lemma_flags(self@, t, info);
        }
        self.set_task(t, info);
    }

    /// Notes whether task `t` is to give way as soon as that is allowed.
    pub fn set_force_resched_pending(&mut self, t: usize, pending: bool)
        requires
            old(self).wf(),
            old(self)@.has_task(t),
        ensures
            final(self).wf(),
            final(self)@ == old(self)@.with_task(
                t,
                TaskInner { force_resched_pending: pending, ..old(self)@.task(t) },
            ),
    {
        let mut info = self.task(t);
        info.force_resched_pending = pending;
        proof {
            lemma_flags(self@, t, info);
        }
        self.set_task(t, info);
    }
}

impl System {
    /// Sets the CPUs that task `t` may run on. An idle task stays with its CPU.
    pub fn set_cpumask(&mut self, t: usize, cpumask: AxCpuMask)
        requires
            old(self).wf(),
            old(self)@.has_task(t),
            !old(self)@.task(t).idle(),
        ensures
            final(self).wf(),
            final(self)@ == old(self)@.with_task(
                t,
                TaskInner { cpumask, ..old(self)@.task(t) },
            ),
    {
        let mut info = self.task(t);
        info.cpumask = cpumask;
        proof {
            lemma_flags(self@, t, info);
        }
        self.set_task(t, info);
    }

    /// Notes whether task `t` has an entry in a wait queue.
    pub fn set_in_wait_queue(&mut self, t: usize, in_wait_queue: bool)
        requires
            old(self).wf(),
            old(self)@.has_task(t),
        ensures
            final(self).wf(),
            final(self)@ == old(self)@.with_task(
                t,
                TaskInner { in_wait_queue, ..old(self)@.task(t) },
            ),
    {
        let mut info = self.task(t);
        info.in_wait_queue = in_wait_queue;
        proof {
            lemma_flags(self@, t, info);
        }
        self.set_task(t, info);
    }

    /// Sets how many guards of task `t` keep preemption disabled.
    pub fn set_preempt_disable_count(&mut self, t: usize, count: usize)
        requires
            old(self).wf(),
            old(self)@.has_task(t),
        ensures
            final(self).wf(),
            final(self)@ == old(self)@.with_task(
                t,
                TaskInner { preempt_disable_count: count, ..old(self)@.task(t) },
            ),
    {
        let mut info = self.task(t);
        info.preempt_disable_count = count;
        proof {
            lemma_flags(self@, t, info);
        }
        self.set_task(t, info);
    }

    /// Notes whether CPU `c` takes inter-processor interrupts.
    pub fn set_ipi_ready(&mut self, c: usize, ipi_ready: bool)
        requires
            old(self).wf(),
            old(self)@.has_cpu(c),
        ensures
            final(self).wf(),
            final(self)@ == old(self)@.with_cpu(c, CpuInner { ipi_ready, ..old(self)@.cpu(c) }),
    {
        let mut info = self.cpu(c);
        info.ipi_ready = ipi_ready;
        proof {
            assert(self@.cpus[c as int].info.initialized ==> info.idle is Some
                && info.current is Some);
            crate::model::lemma_with_cpu(self@, c, info);
        }
        self.set_cpu(c, info);
    }
}

/// Notes that `this_cpu` has saved the context of the task that it switched away
/// from, then completes a wake-up that was deferred while the task was still on
/// this CPU. Returns the CPU that has to be interrupted for that, if any.
pub fn clear_prev_task_on_cpu(system: &mut System, this_cpu: usize) -> (ipi: Option<usize>)
    requires
        old(system).wf(),
        old(system)@.has_cpu(this_cpu),
        old(system)@.cpu(this_cpu).initialized,
        old(system)@.cpu(this_cpu).prev is Some,
    ensures
        final(system).wf(),
        final(system)@ == old(system)@.finished_switch(this_cpu),
        ipi == if old(system)@.has_deferred_wake(this_cpu) {
            old(system)@.kick_target(old(system)@.deferred_target(this_cpu), this_cpu)
        } else {
            None
        },
{
    let woken = take_prev_task(system, this_cpu);
    let prev = match woken {
        Some(prev) => prev,
        None => {
            return None;
        },
    };
    let target = system.task(prev).cpu_id;
    system.put_prev_task(target, prev, false);
    if target != this_cpu {
        assert(system@.cpu(target) == old(system)@.cpu(target));
        kick_remote_cpu(system, target, this_cpu)
    } else {
        // The task joined the queue of this very CPU, which no interrupt will
        // tell of it: the current task has to give way by itself.
        let current = system.current_task(this_cpu);
        system.set_force_resched_pending(current, true);
        None
    }
}

/// Publishes that the context of the task that `this_cpu` switched away from is
/// saved, and only then takes the wake-up that may have been left with it.
/// Returns the task if there was one.
fn take_prev_task(system: &mut System, this_cpu: usize) -> (woken: Option<usize>)
    requires
        old(system).wf(),
        old(system)@.has_cpu(this_cpu),
        old(system)@.cpu(this_cpu).prev is Some,
    ensures
        final(system).wf(),
        final(system)@ == old(system)@.saved(this_cpu),
        match woken {
            Some(t) => {
                &&& old(system)@.has_deferred_wake(this_cpu)
                &&& Some(t) == old(system)@.cpu(this_cpu).prev
                &&& final(system)@.has_task(t)
                &&& final(system)@.task(t).state == TaskState::Ready
                &&& !final(system)@.task(t).idle()
                &&& !final(system)@.task(t).on_cpu
                &&& !final(system)@.task(t).wake_stashed
                &&& final(system)@.slice(t) is Some
                &&& final(system)@.has_cpu(final(system)@.task(t).cpu_id)
                &&& final(system)@.task(t).cpu_id == old(system)@.deferred_target(this_cpu)
            },
            None => !old(system)@.has_deferred_wake(this_cpu),
        },
{
    let ghost m = system@;
    proof {
        crate::model::lemma_saved(m, this_cpu);
    }
    let mut cpu = system.cpu(this_cpu);
    let prev = cpu.prev.unwrap();
    cpu.prev = None;
    system.set_cpu(this_cpu, cpu);
    let mut info = system.task(prev);
    let phase = drain_step(OwnerPhase::Publishing, &mut info);
    let phase = drain_step(phase, &mut info);
    assert(info == TaskInner { on_cpu: false, wake_stashed: false, ..m.task(prev) });
    system.set_task(prev, info);
    assert(m.has_task(prev));
    if phase == OwnerPhase::Enqueueing {
        Some(prev)
    } else {
        None
    }
}

/// What a task notes for later, apart from where it is, may change.
pub(crate) proof fn lemma_flags(m: SystemModel, t: usize, info: TaskInner)
    requires
        m.wf(),
        m.has_task(t),
        info.role == m.task(t).role,
        info.state == m.task(t).state,
        info.cpumask == m.task(t).cpumask || !info.idle(),
        info.cpu_id == m.task(t).cpu_id,
        info.on_cpu == m.task(t).on_cpu,
        info.wake_stashed == m.task(t).wake_stashed,
    ensures
        m.with_task(t, info).wf(),
{
    if m.slice(t) is None {
        let (c, i) = choose|c: int, i: int| m.queued_at(c, i, t);
        assert(m.queued_at(c, i, t));
    }
    crate::model::lemma_with_task(m, t, info);
}

} // verus!
