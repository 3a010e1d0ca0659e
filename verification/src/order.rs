//! The order in which placement prefers CPUs.
use vstd::prelude::*;

use crate::activity::RUN_QUEUE_ACTIVITY_IDLE;
use crate::cpumask::AxCpuMask;
use crate::model::SystemModel;
use crate::placement::RunQueueSelection;

verus! {

/// How many steps CPU `cpu_id` is behind the start of a circular scan over
/// `cpu_count` CPUs.
pub open spec fn steps_from(start_cpu: usize, cpu_id: usize, cpu_count: usize) -> int {
    let first = start_cpu as int % (cpu_count as int);
    if cpu_id >= first {
        cpu_id - first
    } else {
        cpu_id - first + cpu_count
    }
}

proof fn lemma_steps(start_cpu: usize, offset: int, cpu_count: usize)
    requires
        0 <= offset < cpu_count,
    ensures
        steps_from(
            start_cpu,
            crate::placement::scan_cpu(start_cpu, offset, cpu_count),
            cpu_count,
        ) == offset,
        crate::placement::scan_cpu(start_cpu, offset, cpu_count) < cpu_count,
{
    crate::placement::lemma_round_position(start_cpu as int, offset, cpu_count as int);
    vstd::arithmetic::div_mod::lemma_mod_bound(start_cpu as int, cpu_count as int);
}

/// A search takes the match that is nearest behind its start: no allowed CPU that
/// matches is fewer steps away.
pub proof fn a_search_takes_the_nearest_match(
    cpumask: AxCpuMask,
    start_cpu: usize,
    cpu_count: usize,
    holds: spec_fn(usize) -> bool,
    found: usize,
    other: usize,
)
    requires
        crate::placement::first_match(
            cpumask,
            start_cpu,
            cpu_count,
            crate::placement::exactly(holds),
            Some(found),
        ),
        other < cpu_count,
        cpumask.has(other),
        holds(other),
    ensures
        found < cpu_count,
        cpumask.has(found),
        holds(found),
        steps_from(start_cpu, found, cpu_count) <= steps_from(start_cpu, other, cpu_count),
{
    let asked = crate::placement::exactly(holds);
    let offset = choose|offset: int|
        #![trigger crate::placement::scan_cpu(start_cpu, offset, cpu_count)]
        0 <= offset < cpu_count && found == crate::placement::scan_cpu(
            start_cpu,
            offset,
            cpu_count,
        ) && cpumask.has(found) && asked(found, true) && crate::placement::refused_before(
            cpumask,
            start_cpu,
            cpu_count,
            asked,
            offset,
        );
    lemma_steps(start_cpu, offset, cpu_count);
    crate::placement::scan_visits_each_cpu_once(start_cpu, cpu_count, other);
    let there = choose|there: int|
        0 <= there < cpu_count && #[trigger] crate::placement::scan_cpu(
            start_cpu,
            there,
            cpu_count,
        ) == other;
    lemma_steps(start_cpu, there, cpu_count);
    if there < offset {
        assert(asked(other, false));
    }
}

/// Of the allowed and ready CPUs of equal load and equal preference, the one that
/// is nearest behind the start of the scan is chosen.
pub proof fn equal_loads_go_to_the_nearest(
    cpumask: AxCpuMask,
    preferred_cpus: Seq<usize>,
    start_cpu: usize,
    cpu_count: usize,
    ready: spec_fn(usize) -> bool,
    load: spec_fn(usize) -> usize,
    chosen: usize,
    other: usize,
)
    requires
        crate::placement::least_loaded(
            cpumask,
            preferred_cpus,
            start_cpu,
            cpu_count,
            crate::placement::exactly(ready),
            crate::placement::exact_load(load),
            Some(chosen),
        ),
        other < cpu_count,
        cpumask.has(other),
        ready(other),
        load(other) == load(chosen),
        crate::placement::preference(preferred_cpus, other) == crate::placement::preference(
            preferred_cpus,
            chosen,
        ),
    ensures
        steps_from(start_cpu, chosen, cpu_count) <= steps_from(start_cpu, other, cpu_count),
{
    let seen = choose|seen: Seq<Option<usize>>|
        seen.len() == cpu_count && crate::placement::is_observation(
            cpumask,
            start_cpu,
            cpu_count,
            crate::placement::exactly(ready),
            crate::placement::exact_load(load),
            seen,
        ) && #[trigger] crate::placement::best_of(
            preferred_cpus,
            start_cpu,
            cpu_count,
            seen,
            Some(chosen),
        );
    let best = choose|best: int|
        #![trigger crate::placement::scan_cpu(start_cpu, best, cpu_count)]
        chosen == crate::placement::scan_cpu(start_cpu, best, cpu_count)
            && crate::placement::is_best_visit(
            preferred_cpus,
            start_cpu,
            cpu_count,
            seen,
            best,
        );
    lemma_steps(start_cpu, best, cpu_count);
    crate::placement::scan_visits_each_cpu_once(start_cpu, cpu_count, other);
    let there = choose|there: int|
        0 <= there < cpu_count && #[trigger] crate::placement::scan_cpu(
            start_cpu,
            there,
            cpu_count,
        ) == other;
    lemma_steps(start_cpu, there, cpu_count);
    assert(crate::placement::observed_load(
        cpumask,
        start_cpu,
        cpu_count,
        crate::placement::exactly(ready),
        crate::placement::exact_load(load),
        there,
        seen[there],
    ));
    assert(crate::placement::observed_load(
        cpumask,
        start_cpu,
        cpu_count,
        crate::placement::exactly(ready),
        crate::placement::exact_load(load),
        best,
        seen[best],
    ));
    if there < best {
        assert(seen[there] is Some);
        assert(crate::placement::outranks(
            preferred_cpus,
            start_cpu,
            cpu_count,
            seen,
            best,
            there,
        ));
    }
}

/// A CPU ranks by its first place in a list of preferences, and behind the whole
/// list if it is not in it.
pub proof fn preference_is_the_first_place(preferred_cpus: Seq<usize>, cpu_id: usize, place: int)
    requires
        0 <= place <= preferred_cpus.len(),
        place < preferred_cpus.len() ==> preferred_cpus[place] == cpu_id,
        forall|i: int| 0 <= i < place ==> preferred_cpus[i] != cpu_id,
    ensures
        crate::placement::preference(preferred_cpus, cpu_id) == place,
{
    preferred_cpus.index_of_first_ensures(cpu_id);
    if place < preferred_cpus.len() {
        assert(preferred_cpus.contains(preferred_cpus[place]));
    }
}

/// A run queue takes tasks exactly if its CPU is there, it is initialized, and its
/// CPU is the one that asks or takes interrupts.
pub proof fn when_a_run_queue_takes_tasks(m: SystemModel, c: usize, this_cpu: usize)
    ensures
        m.accepts(c, this_cpu) <==> c < m.cpus.len() && m.cpus[c as int].info.initialized && (c
            == this_cpu || m.cpus[c as int].info.ipi_ready),
{
}

/// A CPU can be claimed exactly if it is idle and nothing is queued.
pub proof fn when_a_cpu_can_be_claimed(m: SystemModel, c: usize)
    requires
        c < m.cpus.len(),
    ensures
        m.claimable(c) <==> m.cpus[c as int].ready.len() == 0 && m.cpus[c as int].info.activity
            == RUN_QUEUE_ACTIVITY_IDLE,
{
}

/// The load of a CPU is what is queued there, and one more unless it is idle.
pub proof fn what_the_load_of_a_cpu_is(m: SystemModel, c: usize)
    requires
        m.wf(),
        c < m.cpus.len(),
    ensures
        m.cpu_count() == m.cpus.len(),
        m.cpus[c as int].info.activity == RUN_QUEUE_ACTIVITY_IDLE ==> m.runnable_load(c)
            == m.cpus[c as int].ready.len(),
        m.cpus[c as int].info.activity != RUN_QUEUE_ACTIVITY_IDLE ==> m.runnable_load(c)
            == m.cpus[c as int].ready.len() + 1,
{
    assert(m.has_cpu(c));
    crate::model::lemma_ready_len(m, c);
}

/// A migrating task goes to the CPU that it may run on, that takes tasks, and
/// that is nearest behind the cursor for migrations.
pub proof fn a_migration_takes_the_nearest_cpu(
    m: SystemModel,
    cpumask: AxCpuMask,
    this_cpu: usize,
    found: usize,
    other: usize,
)
    requires
        m.wf(),
        m.migration_choice(cpumask, this_cpu, Some(found)),
        cpumask.has(other),
        m.accepts(other, this_cpu),
    ensures
        cpumask.has(found),
        m.accepts(found, this_cpu),
        steps_from(m.next_run_queue, found, m.cpu_count()) <= steps_from(
            m.next_run_queue,
            other,
            m.cpu_count(),
        ),
{
    let ready = m.ready_cpus(this_cpu);
    assert(ready(other));
    a_search_takes_the_nearest_match(
        cpumask,
        m.next_run_queue,
        m.cpu_count(),
        ready,
        found,
        other,
    );
}

/// Of all allowed and ready CPUs, a placement takes an idle one, the nearest
/// behind the start of the idle scan, if there is one. Else it takes one with the
/// smallest load; of these the most preferred; of these the nearest behind the
/// start of the other scan.
pub proof fn a_selection_outranks_every_other(
    cpumask: AxCpuMask,
    preferred_cpus: Seq<usize>,
    idle_start_cpu: usize,
    fallback_start_cpu: usize,
    cpu_count: usize,
    ready: spec_fn(usize) -> bool,
    idle: spec_fn(usize) -> bool,
    load: spec_fn(usize) -> usize,
    selection: RunQueueSelection,
    other: usize,
)
    requires
        crate::placement::idle_or_least_loaded(
            cpumask,
            preferred_cpus,
            idle_start_cpu,
            fallback_start_cpu,
            cpu_count,
            crate::placement::exactly(ready),
            crate::placement::exactly(idle),
            crate::placement::exact_load(load),
            Some(selection),
        ),
        other < cpu_count,
        cpumask.has(other),
        ready(other),
    ensures
        selection.cpu_id < cpu_count,
        cpumask.has(selection.cpu_id),
        ready(selection.cpu_id),
        selection.claimed_idle ==> idle(selection.cpu_id),
        idle(other) ==> selection.claimed_idle,
        idle(other) ==> steps_from(idle_start_cpu, selection.cpu_id, cpu_count) <= steps_from(
            idle_start_cpu,
            other,
            cpu_count,
        ),
        !selection.claimed_idle ==> {
            let a = crate::placement::preference(preferred_cpus, selection.cpu_id);
            let b = crate::placement::preference(preferred_cpus, other);
            &&& load(selection.cpu_id) <= load(other)
            &&& load(selection.cpu_id) == load(other) ==> a <= b && (a == b ==> steps_from(
                fallback_start_cpu,
                selection.cpu_id,
                cpu_count,
            ) <= steps_from(fallback_start_cpu, other, cpu_count))
        },
{
    crate::placement::selection_is_eligible(
        cpumask,
        preferred_cpus,
        idle_start_cpu,
        fallback_start_cpu,
        cpu_count,
        crate::placement::exactly(ready),
        crate::placement::exactly(idle),
        crate::placement::exact_load(load),
        Some(selection),
    );
    crate::placement::selection_uses_an_available_idle_cpu(
        cpumask,
        preferred_cpus,
        idle_start_cpu,
        fallback_start_cpu,
        cpu_count,
        ready,
        idle,
        load,
        Some(selection),
    );
    crate::placement::selection_balances_load(
        cpumask,
        preferred_cpus,
        idle_start_cpu,
        fallback_start_cpu,
        cpu_count,
        ready,
        idle,
        load,
        Some(selection),
    );
    if idle(other) {
        let reserved = |cpu_id: usize, answer: bool|
            crate::placement::reserves(
                crate::placement::exactly(ready),
                crate::placement::exactly(idle),
                cpu_id,
                answer,
            );
        let both = |cpu_id: usize| ready(cpu_id) && idle(cpu_id);
        crate::placement::lemma_first_match_weakened(
            cpumask,
            idle_start_cpu,
            cpu_count,
            reserved,
            crate::placement::exactly(both),
            Some(selection.cpu_id),
        );
        a_search_takes_the_nearest_match(
            cpumask,
            idle_start_cpu,
            cpu_count,
            both,
            selection.cpu_id,
            other,
        );
    }
    if !selection.claimed_idle && load(other) == load(selection.cpu_id)
        && crate::placement::preference(preferred_cpus, selection.cpu_id)
        == crate::placement::preference(preferred_cpus, other) {
        equal_loads_go_to_the_nearest(
            cpumask,
            preferred_cpus,
            fallback_start_cpu,
            cpu_count,
            ready,
            load,
            selection.cpu_id,
            other,
        );
    }
}

/// A waking task's placement takes the last CPU if that is allowed, ready and
/// idle. Else it goes like any placement that prefers the last CPU, then the
/// waker's, on a tie.
pub proof fn a_wake_selection_outranks_every_other(
    cpumask: AxCpuMask,
    current_cpu: usize,
    last_cpu: usize,
    idle_start_cpu: usize,
    fallback_start_cpu: usize,
    cpu_count: usize,
    ready: spec_fn(usize) -> bool,
    idle: spec_fn(usize) -> bool,
    load: spec_fn(usize) -> usize,
    selection: RunQueueSelection,
    other: usize,
)
    requires
        crate::placement::last_or_idle_or_least_loaded(
            cpumask,
            current_cpu,
            last_cpu,
            idle_start_cpu,
            fallback_start_cpu,
            cpu_count,
            crate::placement::exactly(ready),
            crate::placement::exactly(idle),
            crate::placement::exact_load(load),
            Some(selection),
        ),
        other < cpu_count,
        cpumask.has(other),
        ready(other),
    ensures
        selection.cpu_id < cpu_count,
        cpumask.has(selection.cpu_id),
        ready(selection.cpu_id),
        selection.claimed_idle ==> idle(selection.cpu_id),
        idle(other) && other == last_cpu ==> selection == (RunQueueSelection {
            cpu_id: last_cpu,
            claimed_idle: true,
        }),
        idle(other) ==> selection.claimed_idle && (selection.cpu_id == last_cpu || steps_from(
            idle_start_cpu,
            selection.cpu_id,
            cpu_count,
        ) <= steps_from(idle_start_cpu, other, cpu_count)),
        !selection.claimed_idle ==> load(selection.cpu_id) <= load(other),
        !selection.claimed_idle && load(selection.cpu_id) == load(other) ==> {
            &&& other == last_cpu ==> selection.cpu_id == last_cpu
            &&& other == current_cpu ==> selection.cpu_id == last_cpu || selection.cpu_id
                == current_cpu
            &&& selection.cpu_id != last_cpu && selection.cpu_id != current_cpu ==> steps_from(
                fallback_start_cpu,
                selection.cpu_id,
                cpu_count,
            ) <= steps_from(fallback_start_cpu, other, cpu_count)
        },
{
    let list = seq![last_cpu, current_cpu];
    crate::placement::wake_selection_is_eligible(
        cpumask,
        current_cpu,
        last_cpu,
        idle_start_cpu,
        fallback_start_cpu,
        cpu_count,
        crate::placement::exactly(ready),
        crate::placement::exactly(idle),
        crate::placement::exact_load(load),
        Some(selection),
    );
    let ranks = |cpu_id: usize|
        if cpu_id == last_cpu {
            0int
        } else if cpu_id == current_cpu {
            1
        } else {
            2
        };
    preference_is_the_first_place(list, other, ranks(other));
    preference_is_the_first_place(list, selection.cpu_id, ranks(selection.cpu_id));
    if last_cpu < cpu_count && cpumask.has(last_cpu) && ready(last_cpu) && idle(last_cpu) {
        crate::placement::wake_preserves_an_idle_last_cpu(
            cpumask,
            current_cpu,
            last_cpu,
            idle_start_cpu,
            fallback_start_cpu,
            cpu_count,
            ready,
            idle,
            load,
            Some(selection),
        );
    } else {
        a_selection_outranks_every_other(
            cpumask,
            list,
            idle_start_cpu,
            fallback_start_cpu,
            cpu_count,
            ready,
            idle,
            load,
            selection,
            other,
        );
    }
}

/// Of all CPUs that a new task may run on and that take tasks, it goes to an idle
/// one, the nearest behind the cursor for idle CPUs, if there is one. Else it goes
/// to one with the smallest load: its creator's on a tie, and the nearest behind
/// the other cursor if that is not among them.
pub proof fn a_new_task_takes_the_best_cpu(
    m: SystemModel,
    cpumask: AxCpuMask,
    this_cpu: usize,
    selection: RunQueueSelection,
    other: usize,
)
    requires
        m.wf(),
        m.new_task_choice(cpumask, this_cpu, Some(selection)),
        cpumask.has(other),
        m.accepts(other, this_cpu),
    ensures
        cpumask.has(selection.cpu_id),
        m.accepts(selection.cpu_id, this_cpu),
        selection.claimed_idle ==> m.claimable(selection.cpu_id),
        m.claimable(other) ==> selection.claimed_idle && steps_from(
            m.next_idle_run_queue,
            selection.cpu_id,
            m.cpu_count(),
        ) <= steps_from(m.next_idle_run_queue, other, m.cpu_count()),
        !selection.claimed_idle ==> m.runnable_load(selection.cpu_id) <= m.runnable_load(other),
        !selection.claimed_idle && m.runnable_load(selection.cpu_id) == m.runnable_load(other) ==> {
            &&& other == this_cpu ==> selection.cpu_id == this_cpu
            &&& selection.cpu_id != this_cpu ==> steps_from(
                m.next_run_queue,
                selection.cpu_id,
                m.cpu_count(),
            ) <= steps_from(m.next_run_queue, other, m.cpu_count())
        },
{
    let list = seq![this_cpu];
    let ready = m.ready_cpus(this_cpu);
    let idle = m.claimable_cpus();
    let load = m.loads();
    assert(ready(other) && idle(other) == m.claimable(other));
    assert(load(other) == m.runnable_load(other));
    assert(load(selection.cpu_id) == m.runnable_load(selection.cpu_id));
    a_selection_outranks_every_other(
        cpumask,
        list,
        m.next_idle_run_queue,
        m.next_run_queue,
        m.cpu_count(),
        ready,
        idle,
        load,
        selection,
        other,
    );
    preference_is_the_first_place(
        list,
        other,
        if other == this_cpu {
            0
        } else {
            1
        },
    );
    preference_is_the_first_place(
        list,
        selection.cpu_id,
        if selection.cpu_id == this_cpu {
            0
        } else {
            1
        },
    );
}

/// Of all CPUs that a waking task may run on and that take tasks, it goes to its
/// last one if that is idle, or else to the idle one that is the nearest behind
/// the cursor for idle CPUs. If none is idle it goes to one with the smallest
/// load: its last one on a tie, else the waker's, else the nearest behind the
/// other cursor.
pub proof fn a_waking_task_takes_the_best_cpu(
    m: SystemModel,
    cpumask: AxCpuMask,
    last_cpu: usize,
    this_cpu: usize,
    selection: RunQueueSelection,
    other: usize,
)
    requires
        m.wf(),
        m.wake_choice(cpumask, last_cpu, this_cpu, Some(selection)),
        cpumask.has(other),
        m.accepts(other, this_cpu),
    ensures
        cpumask.has(selection.cpu_id),
        m.accepts(selection.cpu_id, this_cpu),
        selection.claimed_idle ==> m.claimable(selection.cpu_id),
        m.claimable(other) && other == last_cpu ==> selection == (RunQueueSelection {
            cpu_id: last_cpu,
            claimed_idle: true,
        }),
        m.claimable(other) ==> selection.claimed_idle && (selection.cpu_id == last_cpu
            || steps_from(m.next_idle_run_queue, selection.cpu_id, m.cpu_count()) <= steps_from(
            m.next_idle_run_queue,
            other,
            m.cpu_count(),
        )),
        !selection.claimed_idle ==> m.runnable_load(selection.cpu_id) <= m.runnable_load(other),
        !selection.claimed_idle && m.runnable_load(selection.cpu_id) == m.runnable_load(other) ==> {
            &&& other == last_cpu ==> selection.cpu_id == last_cpu
            &&& other == this_cpu ==> selection.cpu_id == last_cpu || selection.cpu_id == this_cpu
            &&& selection.cpu_id != last_cpu && selection.cpu_id != this_cpu ==> steps_from(
                m.next_run_queue,
                selection.cpu_id,
                m.cpu_count(),
            ) <= steps_from(m.next_run_queue, other, m.cpu_count())
        },
{
    let ready = m.ready_cpus(this_cpu);
    let idle = m.claimable_cpus();
    let load = m.loads();
    assert(ready(other) && idle(other) == m.claimable(other));
    assert(load(other) == m.runnable_load(other));
    assert(load(selection.cpu_id) == m.runnable_load(selection.cpu_id));
    a_wake_selection_outranks_every_other(
        cpumask,
        this_cpu,
        last_cpu,
        m.next_idle_run_queue,
        m.next_run_queue,
        m.cpu_count(),
        ready,
        idle,
        load,
        selection,
        other,
    );
}

} // verus!
