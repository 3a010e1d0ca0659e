//! The hand-over of a wake-up between the CPU that wakes a task and the CPU that
//! still has the task on it.
//!
//! Both run at the same time. Each of their accesses to the task is one step;
//! the steps of the two interleave in any order. `System::put_task_with_state`
//! performs the steps of the waker, `clear_prev_task_on_cpu` those of the CPU
//! that has the task on it.
use vstd::prelude::*;

use crate::task::TaskInner;

verus! {

/// What the waker does next.
#[derive(Clone, Copy, Debug, PartialEq, Eq, Structural)]
pub enum WakerPhase {
    /// Look whether the task is still on a CPU.
    Checking,
    /// Leave the wake-up with the task.
    Stashing,
    /// Look again whether the task is still on a CPU.
    Rechecking,
    /// Take the wake-up back.
    Reclaiming,
    /// Put the task into a run queue.
    Enqueueing,
    Done,
}

/// What the CPU that switches away from the task does next.
#[derive(Clone, Copy, Debug, PartialEq, Eq, Structural)]
pub enum OwnerPhase {
    /// Report that the context is saved.
    Publishing,
    /// Take the wake-up that was left with the task.
    Draining,
    /// Put the task into a run queue.
    Enqueueing,
    Done,
}

/// What one step of the waker makes of its phase and of the task.
pub open spec fn waker_move(phase: WakerPhase, task: TaskInner) -> (WakerPhase, TaskInner) {
    match phase {
        WakerPhase::Checking => if task.on_cpu {
            (WakerPhase::Stashing, task)
        } else {
            (WakerPhase::Enqueueing, task)
        },
        WakerPhase::Stashing => (
            WakerPhase::Rechecking,
            TaskInner { wake_stashed: true, ..task },
        ),
        WakerPhase::Rechecking => if task.on_cpu {
            (WakerPhase::Done, task)
        } else {
            (WakerPhase::Reclaiming, task)
        },
        WakerPhase::Reclaiming => (
            if task.wake_stashed {
                WakerPhase::Enqueueing
            } else {
                WakerPhase::Done
            },
            TaskInner { wake_stashed: false, ..task },
        ),
        WakerPhase::Enqueueing | WakerPhase::Done => (WakerPhase::Done, task),
    }
}

/// What one step of the other side makes of its phase and of the task.
pub open spec fn owner_move(phase: OwnerPhase, task: TaskInner) -> (OwnerPhase, TaskInner) {
    match phase {
        OwnerPhase::Publishing => (OwnerPhase::Draining, TaskInner { on_cpu: false, ..task }),
        OwnerPhase::Draining => (
            if task.wake_stashed {
                OwnerPhase::Enqueueing
            } else {
                OwnerPhase::Done
            },
            TaskInner { wake_stashed: false, ..task },
        ),
        OwnerPhase::Enqueueing | OwnerPhase::Done => (OwnerPhase::Done, task),
    }
}

/// Performs the waker's access to the task in `phase`; returns its next phase.
/// In phase `Enqueueing` the caller has to put the task into a run queue.
pub fn wake_step(phase: WakerPhase, task: &mut TaskInner) -> (next: WakerPhase)
    ensures
        (next, *final(task)) == waker_move(phase, *old(task)),
{
    match phase {
        WakerPhase::Checking => if task.on_cpu {
            WakerPhase::Stashing
        } else {
            WakerPhase::Enqueueing
        },
        WakerPhase::Stashing => {
            task.stash_wake();
            WakerPhase::Rechecking
        },
        // Still on its CPU: that CPU takes the wake-up after its switch.
        WakerPhase::Rechecking => if task.on_cpu {
            WakerPhase::Done
        } else {
            WakerPhase::Reclaiming
        },
        // The other side may already have passed its drain point. Whichever
        // side takes the wake-up puts the task into a run queue.
        WakerPhase::Reclaiming => if task.take_wake() {
            WakerPhase::Enqueueing
        } else {
            WakerPhase::Done
        },
        WakerPhase::Enqueueing | WakerPhase::Done => WakerPhase::Done,
    }
}

/// Performs the access to the task in `phase` of the CPU that switches away from
/// it; returns that CPU's next phase. In phase `Enqueueing` the caller has to put
/// the task into a run queue.
pub fn drain_step(phase: OwnerPhase, task: &mut TaskInner) -> (next: OwnerPhase)
    ensures
        (next, *final(task)) == owner_move(phase, *old(task)),
{
    match phase {
        OwnerPhase::Publishing => {
            task.on_cpu = false;
            OwnerPhase::Draining
        },
        OwnerPhase::Draining => if task.take_wake() {
            OwnerPhase::Enqueueing
        } else {
            OwnerPhase::Done
        },
        OwnerPhase::Enqueueing | OwnerPhase::Done => OwnerPhase::Done,
    }
}

/// The task and the progress of the two sides.
pub struct Handshake {
    pub task: TaskInner,
    pub waker: WakerPhase,
    pub owner: OwnerPhase,
    /// How often the task was put into a run queue.
    pub enqueued: nat,
    /// Whether it was put into a run queue before its context was saved.
    pub too_early: bool,
}

impl Handshake {
    /// The task is still on its CPU, and nobody has left a wake-up with it.
    pub open spec fn start(task: TaskInner) -> Self {
        Handshake {
            task,
            waker: WakerPhase::Checking,
            owner: OwnerPhase::Publishing,
            enqueued: 0,
            too_early: false,
        }
    }

    /// The task joins a run queue.
    pub open spec fn enqueue(self) -> Self {
        Handshake {
            enqueued: self.enqueued + 1,
            too_early: self.too_early || self.task.on_cpu,
            ..self
        }
    }

    /// The next step of the waker.
    pub open spec fn waker_step(self) -> Self {
        let (waker, task) = waker_move(self.waker, self.task);
        if self.waker is Enqueueing {
            Handshake { waker, ..self.enqueue() }
        } else {
            Handshake { waker, task, ..self }
        }
    }

    /// The next step of the CPU that switches away from the task.
    pub open spec fn owner_step(self) -> Self {
        let (owner, task) = owner_move(self.owner, self.task);
        if self.owner is Enqueueing {
            Handshake { owner, ..self.enqueue() }
        } else {
            Handshake { owner, task, ..self }
        }
    }

    /// The state after the steps of `schedule`, each of which is the waker's
    /// where it is `true`.
    pub open spec fn after(self, schedule: Seq<bool>) -> Self
        decreases schedule.len(),
    {
        if schedule.len() == 0 {
            self
        } else {
            let before = self.after(schedule.drop_last());
            if schedule.last() {
                before.waker_step()
            } else {
                before.owner_step()
            }
        }
    }

    /// Whether both sides are done.
    pub open spec fn complete(self) -> bool {
        self.waker is Done && self.owner is Done
    }

    /// The number of sides that are sure to put the task into a run queue.
    spec fn committed(self) -> nat {
        self.enqueued + (if self.waker is Enqueueing {
            1nat
        } else {
            0nat
        }) + (if self.owner is Enqueueing {
            1nat
        } else {
            0nat
        })
    }

    /// What every step keeps: the wake-up is in one place only. It is still with
    /// the waker, or with the task, or one side is sure to complete it.
    spec fn inv(self) -> bool {
        &&& self.task.on_cpu == (self.owner is Publishing)
        &&& !self.too_early
        &&& self.waker is Enqueueing ==> !self.task.on_cpu
        &&& self.committed() + (if self.task.wake_stashed {
            1nat
        } else {
            0nat
        }) == (if self.waker is Checking || self.waker is Stashing {
            0nat
        } else {
            1nat
        })
        &&& self.task.wake_stashed ==> self.waker is Rechecking || self.waker is Reclaiming || (
        self.waker is Done && !(self.owner is Done))
        &&& self.waker is Done && self.task.wake_stashed ==> self.owner is Publishing
            || self.owner is Draining
    }
}

proof fn lemma_after(task: TaskInner, schedule: Seq<bool>)
    requires
        task.on_cpu,
        !task.wake_stashed,
    ensures
        Handshake::start(task).after(schedule).inv(),
    decreases schedule.len(),
{
    if schedule.len() > 0 {
        lemma_after(task, schedule.drop_last());
    }
}

/// However the two sides interleave, a task never joins a run queue before its
/// context is saved, and never joins one twice.
pub proof fn wake_waits_for_the_saved_context(task: TaskInner, schedule: Seq<bool>)
    requires
        task.on_cpu,
        !task.wake_stashed,
    ensures
        !Handshake::start(task).after(schedule).too_early,
        Handshake::start(task).after(schedule).enqueued <= 1,
{
    lemma_after(task, schedule);
}

/// However the two sides interleave, once both are done the task has joined a
/// run queue exactly once, and no wake-up is left with it.
pub proof fn wake_completes_exactly_once(task: TaskInner, schedule: Seq<bool>)
    requires
        task.on_cpu,
        !task.wake_stashed,
        Handshake::start(task).after(schedule).complete(),
    ensures
        Handshake::start(task).after(schedule).enqueued == 1,
        !Handshake::start(task).after(schedule).task.wake_stashed,
{
    lemma_after(task, schedule);
}

/// The most steps that the waker has left.
pub open spec fn waker_steps_left(phase: WakerPhase) -> nat {
    match phase {
        WakerPhase::Checking => 5,
        WakerPhase::Stashing => 4,
        WakerPhase::Rechecking => 3,
        WakerPhase::Reclaiming => 2,
        WakerPhase::Enqueueing => 1,
        WakerPhase::Done => 0,
    }
}

/// The most steps that the other side has left.
pub open spec fn owner_steps_left(phase: OwnerPhase) -> nat {
    match phase {
        OwnerPhase::Publishing => 3,
        OwnerPhase::Draining => 2,
        OwnerPhase::Enqueueing => 1,
        OwnerPhase::Done => 0,
    }
}

/// Neither side ever waits for the other: each of its steps brings it closer to
/// its end, whatever the other side has done so far.
pub proof fn neither_side_waits(handshake: Handshake)
    ensures
        !(handshake.waker is Done) ==> waker_steps_left(handshake.waker_step().waker)
            < waker_steps_left(handshake.waker),
        !(handshake.owner is Done) ==> owner_steps_left(handshake.owner_step().owner)
            < owner_steps_left(handshake.owner),
        handshake.waker_step().owner == handshake.owner,
        handshake.owner_step().waker == handshake.waker,
{
}

} // verus!
