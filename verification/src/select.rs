//! Placement on the actual run queues.
use vstd::prelude::*;

use crate::activity::{
    release_idle_run_queue_reservation_with, reserve_idle_run_queue_with, RUN_QUEUE_ACTIVITY_IDLE,
    RUN_QUEUE_ACTIVITY_RESERVED,
};
use crate::cpumask::AxCpuMask;
use crate::model::SystemModel;
use crate::placement::{
    find_run_queue_index, select_new_task_run_queue_index_with, select_wake_run_queue_index_with,
    RunQueueSelection,
};
use crate::system::{CpuInner, System};

verus! {

impl SystemModel {
    /// The number of CPUs.
    pub open spec fn cpu_count(self) -> usize {
        self.cpus.len() as usize
    }

    /// Whether the run queue of CPU `c` takes tasks from `this_cpu`: it is
    /// initialized, and the CPU can be interrupted if it is a remote one.
    pub open spec fn accepts(self, c: usize, this_cpu: usize) -> bool {
        self.has_cpu(c) && self.cpu(c).initialized && (c == this_cpu || self.cpu(c).ipi_ready)
    }

    /// Whether CPU `c` is idle, with nothing queued and nobody's reservation.
    pub open spec fn claimable(self, c: usize) -> bool {
        self.ready(c).len() == 0 && self.cpu(c).activity == RUN_QUEUE_ACTIVITY_IDLE
    }

    /// The number of tasks that CPU `c` has to run: those in its ready queue, and
    /// one more unless it is idle.
    pub open spec fn runnable_load(self, c: usize) -> usize {
        (self.ready(c).len() + (if self.cpu(c).activity == RUN_QUEUE_ACTIVITY_IDLE {
            0int
        } else {
            1int
        })) as usize
    }

    pub open spec fn ready_cpus(self, this_cpu: usize) -> spec_fn(usize) -> bool {
        |c: usize| self.accepts(c, this_cpu)
    }

    pub open spec fn claimable_cpus(self) -> spec_fn(usize) -> bool {
        |c: usize| self.claimable(c)
    }

    pub open spec fn loads(self) -> spec_fn(usize) -> usize {
        |c: usize| self.runnable_load(c)
    }

    /// `found` is where a migrating task goes, seen from `this_cpu`.
    pub open spec fn migration_choice(
        self,
        cpumask: AxCpuMask,
        this_cpu: usize,
        found: Option<usize>,
    ) -> bool {
        crate::placement::first_match(
            cpumask,
            self.next_run_queue,
            self.cpu_count(),
            crate::placement::exactly(self.ready_cpus(this_cpu)),
            found,
        )
    }

    /// `selected` is where a new task goes, seen from `this_cpu`.
    pub open spec fn new_task_choice(
        self,
        cpumask: AxCpuMask,
        this_cpu: usize,
        selected: Option<RunQueueSelection>,
    ) -> bool {
        crate::placement::idle_or_least_loaded(
            cpumask,
            seq![this_cpu],
            self.next_idle_run_queue,
            self.next_run_queue,
            self.cpu_count(),
            crate::placement::exactly(self.ready_cpus(this_cpu)),
            crate::placement::exactly(self.claimable_cpus()),
            crate::placement::exact_load(self.loads()),
            selected,
        )
    }

    /// `selected` is where a task that wakes up goes, seen from `this_cpu`.
    pub open spec fn wake_choice(
        self,
        cpumask: AxCpuMask,
        last_cpu: usize,
        this_cpu: usize,
        selected: Option<RunQueueSelection>,
    ) -> bool {
        crate::placement::last_or_idle_or_least_loaded(
            cpumask,
            this_cpu,
            last_cpu,
            self.next_idle_run_queue,
            self.next_run_queue,
            self.cpu_count(),
            crate::placement::exactly(self.ready_cpus(this_cpu)),
            crate::placement::exactly(self.claimable_cpus()),
            crate::placement::exact_load(self.loads()),
            selected,
        )
    }

    /// The selected CPU is allowed and takes tasks, and is idle if it is claimed.
    pub open spec fn is_eligible(
        self,
        cpumask: AxCpuMask,
        this_cpu: usize,
        selection: RunQueueSelection,
    ) -> bool {
        &&& cpumask.has(selection.cpu_id)
        &&& self.accepts(selection.cpu_id, this_cpu)
        &&& selection.claimed_idle ==> self.claimable(selection.cpu_id)
    }

    /// The cursor for load ties and migrations moves on.
    pub open spec fn cursor_advanced(self) -> Self {
        SystemModel { next_run_queue: self.next_run_queue.wrapping_add(1), ..self }
    }

    /// Both cursors move on.
    pub open spec fn cursors_advanced(self) -> Self {
        SystemModel {
            next_idle_run_queue: self.next_idle_run_queue.wrapping_add(1),
            next_run_queue: self.next_run_queue.wrapping_add(1),
            ..self
        }
    }

    /// CPU `c` carries the activity hint `activity`.
    pub open spec fn with_activity(self, c: usize, activity: u8) -> Self {
        self.with_cpu(c, CpuInner { activity, ..self.cpu(c) })
    }

    /// The selected CPU is reserved if the selection claims it.
    pub open spec fn claimed(self, selection: RunQueueSelection) -> Self {
        if selection.claimed_idle {
            self.with_activity(selection.cpu_id, RUN_QUEUE_ACTIVITY_RESERVED)
        } else {
            self
        }
    }

    /// A reservation of CPU `c` that is still there is returned.
    pub open spec fn unreserved(self, c: usize) -> Self {
        self.with_activity(
            c,
            crate::activity::moved(
                self.cpu(c).activity,
                RUN_QUEUE_ACTIVITY_RESERVED,
                RUN_QUEUE_ACTIVITY_IDLE,
            ),
        )
    }
}

/// The number of CPUs.
pub fn online_cpu_count(system: &System) -> (count: usize)
    ensures
        count == system@.cpus.len(),
{
    system.cpu_count()
}

/// Whether the run queue of CPU `cpu_id` takes tasks from `this_cpu`.
pub fn run_queue_accepts_tasks(system: &System, cpu_id: usize, this_cpu: usize) -> (accepts: bool)
    ensures
        accepts == system@.accepts(cpu_id, this_cpu),
{
    if cpu_id >= online_cpu_count(system) || !system.cpu(cpu_id).initialized {
        return false;
    }
    cpu_id == this_cpu || system.cpu(cpu_id).ipi_ready
}

/// The number of tasks that CPU `cpu_id` has to run.
pub fn run_queue_runnable_load(system: &System, cpu_id: usize) -> (load: usize)
    requires
        system.wf(),
        system@.has_cpu(cpu_id),
    ensures
        load == system@.runnable_load(cpu_id),
        load == system@.ready(cpu_id).len() + (if system@.cpu(cpu_id).activity
            == RUN_QUEUE_ACTIVITY_IDLE {
            0int
        } else {
            1int
        }),
{
    proof {
        crate::model::lemma_ready_len(system@, cpu_id);
    }
    let ready_tasks = system.ready_tasks(cpu_id);
    if system.cpu(cpu_id).activity != RUN_QUEUE_ACTIVITY_IDLE {
        ready_tasks + 1
    } else {
        ready_tasks
    }
}

/// Whether CPU `cpu_id` could be reserved.
fn is_claimable(system: &System, cpu_id: usize) -> (claimable: bool)
    requires
        system.wf(),
        system@.has_cpu(cpu_id),
    ensures
        claimable == system@.claimable(cpu_id),
{
    system.ready_tasks(cpu_id) == 0 && system.cpu(cpu_id).activity == RUN_QUEUE_ACTIVITY_IDLE
}

/// Reserves CPU `cpu_id` if it is idle and has nothing queued; reports whether it
/// did.
pub fn try_claim_idle_run_queue(system: &mut System, cpu_id: usize) -> (claimed: bool)
    requires
        old(system).wf(),
        old(system)@.has_cpu(cpu_id),
    ensures
        final(system).wf(),
        claimed == old(system)@.claimable(cpu_id),
        final(system)@ == old(system)@.claimed(RunQueueSelection { cpu_id, claimed_idle: claimed }),
{
    if system.ready_tasks(cpu_id) != 0 {
        return false;
    }
    let mut info = system.cpu(cpu_id);
    let claimed = reserve_idle_run_queue_with(&mut info.activity);
    proof {
        crate::model::lemma_with_cpu(system@, cpu_id, info);
        crate::model::lemma_same_cpu(system@, cpu_id);
    }
    system.set_cpu(cpu_id, info);
    claimed
}

/// Returns the reservation of CPU `cpu_id` if it is still there.
pub fn release_idle_run_queue_reservation(system: &mut System, cpu_id: usize)
    requires
        old(system).wf(),
        old(system)@.has_cpu(cpu_id),
    ensures
        final(system).wf(),
        final(system)@ == old(system)@.unreserved(cpu_id),
{
    let mut info = system.cpu(cpu_id);
    release_idle_run_queue_reservation_with(&mut info.activity);
    proof {
        crate::model::lemma_with_cpu(system@, cpu_id, info);
    }
    system.set_cpu(cpu_id, info);
}

/// Finds the run queue for a task that migrates because its affinity changed.
pub fn find_migration_run_queue_index(system: &System, cpumask: AxCpuMask, this_cpu: usize) -> (found:
    Option<usize>)
    requires
        system.wf(),
        exists|cpu_id: usize| cpumask.has(cpu_id),
    ensures
        system@.migration_choice(cpumask, this_cpu, found),
        found is None <==> system@.migration_choice(cpumask, this_cpu, None),
        found matches Some(cpu_id) ==> system@.accepts(cpu_id, this_cpu) && cpumask.has(cpu_id),
{
    let ghost m = system@;
    let accepts = |cpu_id: usize| -> (accepts: bool)
        ensures
            accepts == system@.accepts(cpu_id, this_cpu),
        { run_queue_accepts_tasks(system, cpu_id, this_cpu) };
    let found = find_run_queue_index(
        cpumask,
        system.next_run_queue(),
        online_cpu_count(system),
        accepts,
    );
    proof {
        let exact = crate::placement::exactly(m.ready_cpus(this_cpu));
        crate::placement::lemma_first_match_weakened(
            cpumask,
            m.next_run_queue,
            m.cpu_count(),
            |cpu_id: usize, answer: bool| crate::placement::answers(&accepts, cpu_id, answer),
            exact,
            found,
        );
        crate::placement::first_match_is_eligible(
            cpumask,
            m.next_run_queue,
            m.cpu_count(),
            exact,
            found,
        );
        if m.migration_choice(cpumask, this_cpu, None) {
            crate::placement::first_match_is_unique(
                cpumask,
                m.next_run_queue,
                m.cpu_count(),
                m.ready_cpus(this_cpu),
                found,
                None,
            );
        }
    }
    found
}

/// Finds the run queue for a new task.
pub fn find_new_task_run_queue_index(system: &System, cpumask: AxCpuMask, this_cpu: usize) -> (selected:
    Option<RunQueueSelection>)
    requires
        system.wf(),
        exists|cpu_id: usize| cpumask.has(cpu_id),
    ensures
        system@.new_task_choice(cpumask, this_cpu, selected),
        selected is None <==> system@.new_task_choice(cpumask, this_cpu, None),
        selected matches Some(selection) ==> system@.is_eligible(cpumask, this_cpu, selection),
{
    let ghost m = system@;
    let is_ready = |cpu_id: usize| -> (ready: bool)
        ensures
            ready == system@.accepts(cpu_id, this_cpu),
        { run_queue_accepts_tasks(system, cpu_id, this_cpu) };
    let claim_idle = |cpu_id: usize| -> (claimable: bool)
        requires
            system.wf(),
            system@.has_cpu(cpu_id),
        ensures
            claimable == system@.claimable(cpu_id),
        { is_claimable(system, cpu_id) };
    let runnable_load = |cpu_id: usize| -> (load: usize)
        requires
            system.wf(),
            system@.has_cpu(cpu_id),
        ensures
            load == system@.runnable_load(cpu_id),
        { run_queue_runnable_load(system, cpu_id) };
    let selected = select_new_task_run_queue_index_with(
        cpumask,
        this_cpu,
        system.next_idle_run_queue(),
        system.next_run_queue(),
        online_cpu_count(system),
        is_ready,
        claim_idle,
        runnable_load,
    );
    proof {
        crate::placement::lemma_selection_weakened(
            cpumask,
            seq![this_cpu],
            m.next_idle_run_queue,
            m.next_run_queue,
            m.cpu_count(),
            |cpu_id: usize, answer: bool| crate::placement::answers(&is_ready, cpu_id, answer),
            |cpu_id: usize, answer: bool| crate::placement::answers(&claim_idle, cpu_id, answer),
            |cpu_id: usize, amount: usize|
                crate::placement::answers(&runnable_load, cpu_id, amount),
            crate::placement::exactly(m.ready_cpus(this_cpu)),
            crate::placement::exactly(m.claimable_cpus()),
            crate::placement::exact_load(m.loads()),
            selected,
        );
        crate::placement::selection_is_eligible(
            cpumask,
            seq![this_cpu],
            m.next_idle_run_queue,
            m.next_run_queue,
            m.cpu_count(),
            crate::placement::exactly(m.ready_cpus(this_cpu)),
            crate::placement::exactly(m.claimable_cpus()),
            crate::placement::exact_load(m.loads()),
            selected,
        );
        if m.new_task_choice(cpumask, this_cpu, None) {
            crate::placement::selection_is_unique(
                cpumask,
                seq![this_cpu],
                m.next_idle_run_queue,
                m.next_run_queue,
                m.cpu_count(),
                m.ready_cpus(this_cpu),
                m.claimable_cpus(),
                m.loads(),
                selected,
                None,
            );
        }
    }
    selected
}

/// Finds the run queue for a task that wakes up and ran on `last_cpu` before.
pub fn find_wake_run_queue_index(
    system: &System,
    cpumask: AxCpuMask,
    last_cpu: usize,
    this_cpu: usize,
) -> (selected: Option<RunQueueSelection>)
    requires
        system.wf(),
        exists|cpu_id: usize| cpumask.has(cpu_id),
    ensures
        system@.wake_choice(cpumask, last_cpu, this_cpu, selected),
        selected is None <==> system@.wake_choice(cpumask, last_cpu, this_cpu, None),
        selected matches Some(selection) ==> system@.is_eligible(cpumask, this_cpu, selection),
{
    let ghost m = system@;
    let is_ready = |cpu_id: usize| -> (ready: bool)
        ensures
            ready == system@.accepts(cpu_id, this_cpu),
        { run_queue_accepts_tasks(system, cpu_id, this_cpu) };
    let claim_idle = |cpu_id: usize| -> (claimable: bool)
        requires
            system.wf(),
            system@.has_cpu(cpu_id),
        ensures
            claimable == system@.claimable(cpu_id),
        { is_claimable(system, cpu_id) };
    let runnable_load = |cpu_id: usize| -> (load: usize)
        requires
            system.wf(),
            system@.has_cpu(cpu_id),
        ensures
            load == system@.runnable_load(cpu_id),
        { run_queue_runnable_load(system, cpu_id) };
    let selected = select_wake_run_queue_index_with(
        cpumask,
        this_cpu,
        last_cpu,
        system.next_idle_run_queue(),
        system.next_run_queue(),
        online_cpu_count(system),
        is_ready,
        claim_idle,
        runnable_load,
    );
    proof {
        crate::placement::lemma_wake_selection_weakened(
            cpumask,
            this_cpu,
            last_cpu,
            m.next_idle_run_queue,
            m.next_run_queue,
            m.cpu_count(),
            |cpu_id: usize, answer: bool| crate::placement::answers(&is_ready, cpu_id, answer),
            |cpu_id: usize, answer: bool| crate::placement::answers(&claim_idle, cpu_id, answer),
            |cpu_id: usize, amount: usize|
                crate::placement::answers(&runnable_load, cpu_id, amount),
            crate::placement::exactly(m.ready_cpus(this_cpu)),
            crate::placement::exactly(m.claimable_cpus()),
            crate::placement::exact_load(m.loads()),
            selected,
        );
        crate::placement::wake_selection_is_eligible(
            cpumask,
            this_cpu,
            last_cpu,
            m.next_idle_run_queue,
            m.next_run_queue,
            m.cpu_count(),
            crate::placement::exactly(m.ready_cpus(this_cpu)),
            crate::placement::exactly(m.claimable_cpus()),
            crate::placement::exact_load(m.loads()),
            selected,
        );
        if m.wake_choice(cpumask, last_cpu, this_cpu, None) {
            crate::placement::wake_selection_is_unique(
                cpumask,
                this_cpu,
                last_cpu,
                m.next_idle_run_queue,
                m.next_run_queue,
                m.cpu_count(),
                m.ready_cpus(this_cpu),
                m.claimable_cpus(),
                m.loads(),
                selected,
                None,
            );
        }
    }
    selected
}

/// Selects the run queue for a task that migrates, and moves the cursor on.
pub fn select_run_queue_index(system: &mut System, cpumask: AxCpuMask, this_cpu: usize) -> (index:
    usize)
    requires
        old(system).wf(),
        exists|cpu_id: usize| cpumask.has(cpu_id),
        !old(system)@.migration_choice(cpumask, this_cpu, None),
    ensures
        final(system).wf(),
        final(system)@ == old(system)@.cursor_advanced(),
        old(system)@.migration_choice(cpumask, this_cpu, Some(index)),
        old(system)@.accepts(index, this_cpu),
        cpumask.has(index),
{
    let found = find_migration_run_queue_index(system, cpumask, this_cpu);
    proof {
        crate::model::lemma_unrelated(system@, system@.cursor_advanced());
    }
    system.advance_cursor();
    found.unwrap()
}

/// Selects the run queue for a new task, moves both cursors on, and reserves the
/// CPU if it is idle.
pub fn select_new_task_run_queue_index(
    system: &mut System,
    cpumask: AxCpuMask,
    this_cpu: usize,
) -> (selection: RunQueueSelection)
    requires
        old(system).wf(),
        exists|cpu_id: usize| cpumask.has(cpu_id),
        !old(system)@.new_task_choice(cpumask, this_cpu, None),
    ensures
        final(system).wf(),
        final(system)@ == old(system)@.cursors_advanced().claimed(selection),
        old(system)@.new_task_choice(cpumask, this_cpu, Some(selection)),
        old(system)@.is_eligible(cpumask, this_cpu, selection),
{
    let selection = find_new_task_run_queue_index(system, cpumask, this_cpu).unwrap();
    commit_selection(system, selection);
    selection
}

/// Moves both cursors on, and reserves the selected CPU if it is idle.
pub(crate) fn commit_selection(system: &mut System, selection: RunQueueSelection)
    requires
        old(system).wf(),
        old(system)@.has_cpu(selection.cpu_id),
        selection.claimed_idle ==> old(system)@.claimable(selection.cpu_id),
    ensures
        final(system).wf(),
        final(system)@ == old(system)@.cursors_advanced().claimed(selection),
{
    proof {
        crate::model::lemma_unrelated(system@, system@.cursors_advanced());
    }
    system.advance_idle_cursor();
    system.advance_cursor();
    if selection.claimed_idle {
        try_claim_idle_run_queue(system, selection.cpu_id);
    }
}

} // verus!
