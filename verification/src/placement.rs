//! Placement policy: which CPU's run queue takes a task.
use vstd::prelude::*;

use crate::cpumask::AxCpuMask;

verus! {

/// The outcome of a placement decision.
#[derive(Clone, Copy, Debug, PartialEq, Eq, Structural)]
pub struct RunQueueSelection {
    /// The CPU whose run queue takes the task.
    pub cpu_id: usize,
    /// Whether the decision reserved an idle CPU.
    pub claimed_idle: bool,
}

/// The CPU that a circular scan over `cpu_count` CPUs, which starts anywhere,
/// visits at `offset`.
pub open spec fn scan_cpu(start_cpu: usize, offset: int, cpu_count: usize) -> usize {
    ((start_cpu + offset) % (cpu_count as int)) as usize
}

/// Whether calling `f` on `cpu_id` may give `answer`.
pub open spec fn answers<A, F: FnMut(usize) -> A>(f: &F, cpu_id: usize, answer: A) -> bool {
    call_ensures(*f, (cpu_id,), answer)
}

/// `found` is the first allowed CPU of the scan that gave a positive answer,
/// every allowed CPU before it having given a negative one; `None` if all of
/// them did. `asked` relates a CPU to the answers that it may give.
pub open spec fn first_match(
    cpumask: AxCpuMask,
    start_cpu: usize,
    cpu_count: usize,
    asked: spec_fn(usize, bool) -> bool,
    found: Option<usize>,
) -> bool {
    match found {
        Some(cpu_id) => exists|offset: int|
            #![trigger scan_cpu(start_cpu, offset, cpu_count)]
            0 <= offset < cpu_count && cpu_id == scan_cpu(start_cpu, offset, cpu_count)
                && cpumask.has(cpu_id) && asked(cpu_id, true) && refused_before(
                cpumask,
                start_cpu,
                cpu_count,
                asked,
                offset,
            ),
        None => refused_before(cpumask, start_cpu, cpu_count, asked, cpu_count as int),
    }
}

/// Every allowed CPU that the scan visits before `end` gave a negative answer.
pub open spec fn refused_before(
    cpumask: AxCpuMask,
    start_cpu: usize,
    cpu_count: usize,
    asked: spec_fn(usize, bool) -> bool,
    end: int,
) -> bool {
    forall|offset: int|
        #![trigger scan_cpu(start_cpu, offset, cpu_count)]
        0 <= offset < end && cpumask.has(scan_cpu(start_cpu, offset, cpu_count)) ==> asked(
            scan_cpu(start_cpu, offset, cpu_count),
            false,
        )
}

/// The CPU that the scan visits at `offset`, without leaving the machine word.
fn scan_position(start_cpu: usize, offset: usize, cpu_count: usize) -> (cpu_id: usize)
    requires
        offset < cpu_count,
    ensures
        cpu_id == scan_cpu(start_cpu, offset as int, cpu_count),
        cpu_id < cpu_count,
{
    proof {
        lemma_round_position(start_cpu as int, offset as int, cpu_count as int);
    }
    let first = start_cpu % cpu_count;
    if offset < cpu_count - first {
        first + offset
    } else {
        offset - (cpu_count - first)
    }
}

/// Finds the first matching CPU while scanning a bounded circular CPU range.
///
/// `start_cpu` is only a scan offset. It must never be treated as a placement
/// preference, because a creator CPU often launches an entire worker burst.
#[verifier::loop_isolation(false)]
pub fn find_run_queue_index<M: FnMut(usize) -> bool>(
    cpumask: AxCpuMask,
    start_cpu: usize,
    cpu_count: usize,
    mut matches: M,
) -> (found: Option<usize>)
    requires
        exists|cpu_id: usize| cpumask.has(cpu_id),
        forall|cpu_id: usize| cpu_id < cpu_count && cpumask.has(cpu_id) ==> call_requires(
            matches,
            (cpu_id,),
        ),
    ensures
        first_match(
            cpumask,
            start_cpu,
            cpu_count,
            |cpu_id: usize, answer: bool| answers(&matches, cpu_id, answer),
            found,
        ),
{
    let ghost asked = |cpu_id: usize, answer: bool| answers(&matches, cpu_id, answer);
    if cpu_count == 0 {
        return None;
    }
    let mut offset: usize = 0;
    while offset < cpu_count
        invariant
            offset <= cpu_count,
            cpu_count > 0,
            forall|cpu_id: usize| cpu_id < cpu_count && cpumask.has(cpu_id) ==> call_requires(
                matches,
                (cpu_id,),
            ),
            forall|cpu_id: usize, answer: bool| call_ensures(matches, (cpu_id,), answer) ==> #[trigger] asked(cpu_id, answer),
            refused_before(cpumask, start_cpu, cpu_count, asked, offset as int),
        decreases cpu_count - offset,
    {
        let cpu_id = scan_position(start_cpu, offset, cpu_count);
        if cpumask.get(cpu_id) && matches(cpu_id) {
            assert(asked(cpu_id, true));
            return Some(cpu_id);
        }
        assert(cpumask.has(cpu_id) ==> asked(cpu_id, false));
        offset = offset + 1;
    }
    None
}

/// The rank of `cpu_id` in a list ordered from strongest to weakest
/// preference; a CPU that the list does not name ranks behind all that it does.
pub open spec fn preference(preferred_cpus: Seq<usize>, cpu_id: usize) -> int {
    match preferred_cpus.index_of_first(cpu_id) {
        Some(rank) => rank,
        None => preferred_cpus.len() as int,
    }
}

/// What a scan learnt at `offset`: the load of an allowed and ready CPU, or
/// `None` where the CPU is not allowed or was not ready.
pub open spec fn observed_load(
    cpumask: AxCpuMask,
    start_cpu: usize,
    cpu_count: usize,
    ready: spec_fn(usize, bool) -> bool,
    load: spec_fn(usize, usize) -> bool,
    offset: int,
    seen: Option<usize>,
) -> bool {
    let cpu_id = scan_cpu(start_cpu, offset, cpu_count);
    match seen {
        Some(amount) => cpumask.has(cpu_id) && ready(cpu_id, true) && load(cpu_id, amount),
        None => !cpumask.has(cpu_id) || ready(cpu_id, false),
    }
}

/// Whether the scan prefers what it saw at `a` to what it saw at `b`: the
/// smaller load, then the stronger preference, then the earlier visit.
pub open spec fn outranks(
    preferred_cpus: Seq<usize>,
    start_cpu: usize,
    cpu_count: usize,
    seen: Seq<Option<usize>>,
    a: int,
    b: int,
) -> bool {
    let load_a = seen[a].unwrap();
    let load_b = seen[b].unwrap();
    let rank_a = preference(preferred_cpus, scan_cpu(start_cpu, a, cpu_count));
    let rank_b = preference(preferred_cpus, scan_cpu(start_cpu, b, cpu_count));
    load_a < load_b || (load_a == load_b && (rank_a < rank_b || (rank_a == rank_b && a < b)))
}

/// The visit at `best` outranks every other visit that saw a load.
pub open spec fn is_best_visit(
    preferred_cpus: Seq<usize>,
    start_cpu: usize,
    cpu_count: usize,
    seen: Seq<Option<usize>>,
    best: int,
) -> bool {
    &&& 0 <= best < seen.len()
    &&& seen[best] is Some
    &&& forall|other: int|
        0 <= other < seen.len() && other != best && (#[trigger] seen[other]) is Some ==> outranks(
            preferred_cpus,
            start_cpu,
            cpu_count,
            seen,
            best,
            other,
        )
}

/// `chosen` is the CPU of the best visit, or `None` if no visit saw a load.
pub open spec fn best_of(
    preferred_cpus: Seq<usize>,
    start_cpu: usize,
    cpu_count: usize,
    seen: Seq<Option<usize>>,
    chosen: Option<usize>,
) -> bool {
    match chosen {
        Some(cpu_id) => exists|best: int|
            #![trigger scan_cpu(start_cpu, best, cpu_count)]
            cpu_id == scan_cpu(start_cpu, best, cpu_count) && is_best_visit(
                preferred_cpus,
                start_cpu,
                cpu_count,
                seen,
                best,
            ),
        None => forall|offset: int| 0 <= offset < seen.len() ==> (#[trigger] seen[offset]) is None,
    }
}

/// `seen` holds what a scan learnt at each of its offsets.
pub open spec fn is_observation(
    cpumask: AxCpuMask,
    start_cpu: usize,
    cpu_count: usize,
    ready: spec_fn(usize, bool) -> bool,
    load: spec_fn(usize, usize) -> bool,
    seen: Seq<Option<usize>>,
) -> bool {
    forall|offset: int|
        0 <= offset < seen.len() ==> observed_load(
            cpumask,
            start_cpu,
            cpu_count,
            ready,
            load,
            offset,
            #[trigger] seen[offset],
        )
}

/// `chosen` is the least loaded allowed CPU that was ready, with equal loads
/// decided by preference and equal preferences by the scan order; `None` if no
/// allowed CPU was ready. `ready` and `load` relate a CPU to the answers that
/// it may give.
pub open spec fn least_loaded(
    cpumask: AxCpuMask,
    preferred_cpus: Seq<usize>,
    start_cpu: usize,
    cpu_count: usize,
    ready: spec_fn(usize, bool) -> bool,
    load: spec_fn(usize, usize) -> bool,
    chosen: Option<usize>,
) -> bool {
    exists|seen: Seq<Option<usize>>|
        seen.len() == cpu_count && is_observation(
            cpumask,
            start_cpu,
            cpu_count,
            ready,
            load,
            seen,
        ) && #[trigger] best_of(preferred_cpus, start_cpu, cpu_count, seen, chosen)
}

/// The rank of `cpu_id` in `preferred_cpus`.
fn preference_of(preferred_cpus: &[usize], cpu_id: usize) -> (rank: usize)
    ensures
        rank == preference(preferred_cpus@, cpu_id),
{
    proof {
        preferred_cpus@.index_of_first_ensures(cpu_id);
    }
    let mut rank: usize = 0;
    while rank < preferred_cpus.len()
        invariant
            rank <= preferred_cpus.len(),
            forall|i: int| 0 <= i < rank ==> preferred_cpus@[i] != cpu_id,
        decreases preferred_cpus.len() - rank,
    {
        if preferred_cpus[rank] == cpu_id {
            proof {
                preferred_cpus@.index_of_first_ensures(cpu_id);
            }
            return rank;
        }
        rank = rank + 1;
    }
    assert(!preferred_cpus@.contains(cpu_id));
    rank
}

/// Selects the least loaded eligible CPU with deterministic locality ties.
///
/// `preferred_cpus` is ordered from strongest to weakest preference. It only
/// breaks equal-load ties; it never overrides a less loaded run queue.
#[verifier::loop_isolation(false)]
pub fn select_least_loaded_run_queue_index_with<
    R: FnMut(usize) -> bool,
    L: FnMut(usize) -> usize,
>(
    cpumask: AxCpuMask,
    preferred_cpus: &[usize],
    start_cpu: usize,
    cpu_count: usize,
    mut is_ready: R,
    mut runnable_load: L,
) -> (chosen: Option<usize>)
    requires
        exists|cpu_id: usize| cpumask.has(cpu_id),
        preferred_cpus.len() < usize::MAX,
        forall|cpu_id: usize| cpu_id < cpu_count && cpumask.has(cpu_id) ==> call_requires(
            is_ready,
            (cpu_id,),
        ),
        forall|cpu_id: usize|
            cpu_id < cpu_count && cpumask.has(cpu_id) && answers(&is_ready, cpu_id, true)
                ==> call_requires(runnable_load, (cpu_id,)),
    ensures
        least_loaded(
            cpumask,
            preferred_cpus@,
            start_cpu,
            cpu_count,
            |cpu_id: usize, answer: bool| answers(&is_ready, cpu_id, answer),
            |cpu_id: usize, amount: usize| answers(&runnable_load, cpu_id, amount),
            chosen,
        ),
{
    let ghost ready = |cpu_id: usize, answer: bool| answers(&is_ready, cpu_id, answer);
    let ghost load = |cpu_id: usize, amount: usize| answers(&runnable_load, cpu_id, amount);
    let ghost mut seen: Seq<Option<usize>> = Seq::empty();
    let ghost mut best: int = 0;

    let mut best_cpu: Option<usize> = None;
    let mut best_load: usize = usize::MAX;
    let mut best_preference: usize = usize::MAX;
    let mut offset: usize = 0;
    while offset < cpu_count
        invariant
            offset <= cpu_count,
            seen.len() == offset,
            is_observation(cpumask, start_cpu, cpu_count, ready, load, seen),
            forall|cpu_id: usize| cpu_id < cpu_count && cpumask.has(cpu_id) ==> call_requires(
                is_ready,
                (cpu_id,),
            ),
            forall|cpu_id: usize|
                cpu_id < cpu_count && cpumask.has(cpu_id) && #[trigger] ready(cpu_id, true)
                    ==> call_requires(runnable_load, (cpu_id,)),
            forall|cpu_id: usize, answer: bool|
                call_ensures(is_ready, (cpu_id,), answer) ==> #[trigger] ready(cpu_id, answer),
            forall|cpu_id: usize, amount: usize|
                call_ensures(runnable_load, (cpu_id,), amount) ==> #[trigger] load(cpu_id, amount),
            match best_cpu {
                Some(cpu_id) => {
                    &&& is_best_visit(preferred_cpus@, start_cpu, cpu_count, seen, best)
                    &&& cpu_id == scan_cpu(start_cpu, best, cpu_count)
                    &&& best_load == seen[best].unwrap()
                    &&& best_preference == preference(preferred_cpus@, cpu_id)
                },
                None => {
                    &&& best_load == usize::MAX
                    &&& best_preference == usize::MAX
                    &&& forall|i: int| 0 <= i < seen.len() ==> (#[trigger] seen[i]) is None
                },
            },
        decreases cpu_count - offset,
    {
        let cpu_id = scan_position(start_cpu, offset, cpu_count);
        let ghost before = seen;
        if !cpumask.get(cpu_id) || !is_ready(cpu_id) {
            proof {
                seen = seen.push(None);
                assert(observed_load(
                    cpumask,
                    start_cpu,
                    cpu_count,
                    ready,
                    load,
                    offset as int,
                    None,
                ));
            }
        } else {
            assert(ready(cpu_id, true));
            let amount: usize = runnable_load(cpu_id);
            assert(load(cpu_id, amount));
            let rank = preference_of(preferred_cpus, cpu_id);
            proof {
                preferred_cpus@.index_of_first_ensures(cpu_id);
                seen = seen.push(Some(amount));
            }
            if amount < best_load || (amount == best_load && rank < best_preference) {
                best_cpu = Some(cpu_id);
                best_load = amount;
                best_preference = rank;
                proof {
                    best = offset as int;
                }
            }
        }
        assert forall|i: int| 0 <= i < seen.len() implies observed_load(
            cpumask,
            start_cpu,
            cpu_count,
            ready,
            load,
            i,
            #[trigger] seen[i],
        ) by {
            if i < before.len() {
                assert(seen[i] == before[i]);
            }
        }
        assert forall|i: int| 0 <= i < before.len() implies (#[trigger] seen[i]) == before[i] by {}
        offset = offset + 1;
    }
    assert(best_of(preferred_cpus@, start_cpu, cpu_count, seen, best_cpu));
    best_cpu
}

/// The answers that an attempt to reserve an idle CPU may give: it succeeds on
/// a ready CPU that could be claimed, and fails on one that was not ready or
/// could not be claimed.
pub open spec fn reserves(
    ready: spec_fn(usize, bool) -> bool,
    claim: spec_fn(usize, bool) -> bool,
    cpu_id: usize,
    answer: bool,
) -> bool {
    if answer {
        ready(cpu_id, true) && claim(cpu_id, true)
    } else {
        ready(cpu_id, false) || (ready(cpu_id, true) && claim(cpu_id, false))
    }
}

/// The first idle CPU that could be reserved, or else the least loaded one.
pub open spec fn idle_or_least_loaded(
    cpumask: AxCpuMask,
    preferred_cpus: Seq<usize>,
    idle_start_cpu: usize,
    fallback_start_cpu: usize,
    cpu_count: usize,
    ready: spec_fn(usize, bool) -> bool,
    claim: spec_fn(usize, bool) -> bool,
    load: spec_fn(usize, usize) -> bool,
    selected: Option<RunQueueSelection>,
) -> bool {
    let reserved = |cpu_id: usize, answer: bool| reserves(ready, claim, cpu_id, answer);
    match selected {
        Some(RunQueueSelection { cpu_id, claimed_idle: true }) => first_match(
            cpumask,
            idle_start_cpu,
            cpu_count,
            reserved,
            Some(cpu_id),
        ),
        Some(RunQueueSelection { cpu_id, claimed_idle: false }) => first_match(
            cpumask,
            idle_start_cpu,
            cpu_count,
            reserved,
            None,
        ) && least_loaded(
            cpumask,
            preferred_cpus,
            fallback_start_cpu,
            cpu_count,
            ready,
            load,
            Some(cpu_id),
        ),
        None => first_match(cpumask, idle_start_cpu, cpu_count, reserved, None) && least_loaded(
            cpumask,
            preferred_cpus,
            fallback_start_cpu,
            cpu_count,
            ready,
            load,
            None,
        ),
    }
}

/// The task's last CPU if it is idle and could be reserved, or else any idle
/// CPU, or else the least loaded one.
pub open spec fn last_or_idle_or_least_loaded(
    cpumask: AxCpuMask,
    current_cpu: usize,
    last_cpu: usize,
    idle_start_cpu: usize,
    fallback_start_cpu: usize,
    cpu_count: usize,
    ready: spec_fn(usize, bool) -> bool,
    claim: spec_fn(usize, bool) -> bool,
    load: spec_fn(usize, usize) -> bool,
    selected: Option<RunQueueSelection>,
) -> bool {
    let eligible = last_cpu < cpu_count && cpumask.has(last_cpu);
    ||| eligible && reserves(ready, claim, last_cpu, true) && selected == Some(
        RunQueueSelection { cpu_id: last_cpu, claimed_idle: true },
    )
    ||| (eligible ==> reserves(ready, claim, last_cpu, false)) && idle_or_least_loaded(
        cpumask,
        seq![last_cpu, current_cpu],
        idle_start_cpu,
        fallback_start_cpu,
        cpu_count,
        ready,
        claim,
        load,
        selected,
    )
}

/// Reserves the first idle CPU of the scan, or else picks the least loaded CPU.
#[verifier::loop_isolation(false)]
fn select_idle_or_least_loaded<
    R: FnMut(usize) -> bool,
    C: FnMut(usize) -> bool,
    L: FnMut(usize) -> usize,
>(
    cpumask: AxCpuMask,
    preferred_cpus: &[usize],
    idle_start_cpu: usize,
    fallback_start_cpu: usize,
    cpu_count: usize,
    mut is_ready: R,
    mut claim_idle: C,
    runnable_load: L,
) -> (selected: Option<RunQueueSelection>)
    requires
        exists|cpu_id: usize| cpumask.has(cpu_id),
        preferred_cpus.len() < usize::MAX,
        forall|cpu_id: usize|
            cpu_id < cpu_count && cpumask.has(cpu_id) ==> call_requires(is_ready, (cpu_id,)),
        forall|cpu_id: usize|
            cpu_id < cpu_count && cpumask.has(cpu_id) && answers(&is_ready, cpu_id, true)
                ==> call_requires(claim_idle, (cpu_id,)) && call_requires(
                runnable_load,
                (cpu_id,),
            ),
    ensures
        idle_or_least_loaded(
            cpumask,
            preferred_cpus@,
            idle_start_cpu,
            fallback_start_cpu,
            cpu_count,
            |cpu_id: usize, answer: bool| answers(&is_ready, cpu_id, answer),
            |cpu_id: usize, answer: bool| answers(&claim_idle, cpu_id, answer),
            |cpu_id: usize, amount: usize| answers(&runnable_load, cpu_id, amount),
            selected,
        ),
{
    let ghost ready = |cpu_id: usize, answer: bool| answers(&is_ready, cpu_id, answer);
    let ghost claim = |cpu_id: usize, answer: bool| answers(&claim_idle, cpu_id, answer);
    let ghost reserved = |cpu_id: usize, answer: bool| reserves(ready, claim, cpu_id, answer);
    let mut offset: usize = 0;
    while offset < cpu_count
        invariant
            offset <= cpu_count,
            forall|cpu_id: usize|
                cpu_id < cpu_count && cpumask.has(cpu_id) ==> call_requires(is_ready, (cpu_id,)),
            forall|cpu_id: usize|
                cpu_id < cpu_count && cpumask.has(cpu_id) && #[trigger] ready(cpu_id, true)
                    ==> call_requires(claim_idle, (cpu_id,)),
            forall|cpu_id: usize, answer: bool|
                call_ensures(is_ready, (cpu_id,), answer) ==> #[trigger] ready(cpu_id, answer),
            forall|cpu_id: usize, answer: bool|
                call_ensures(claim_idle, (cpu_id,), answer) ==> #[trigger] claim(cpu_id, answer),
            refused_before(cpumask, idle_start_cpu, cpu_count, reserved, offset as int),
        decreases cpu_count - offset,
    {
        let cpu_id = scan_position(idle_start_cpu, offset, cpu_count);
        if cpumask.get(cpu_id) {
            if is_ready(cpu_id) {
                assert(ready(cpu_id, true));
                if claim_idle(cpu_id) {
                    assert(claim(cpu_id, true));
                    assert(reserved(cpu_id, true));
                    return Some(RunQueueSelection { cpu_id, claimed_idle: true });
                }
                assert(claim(cpu_id, false));
            } else {
                assert(ready(cpu_id, false));
            }
            assert(reserved(cpu_id, false));
        }
        offset = offset + 1;
    }
    assert forall|cpu_id: usize, answer: bool| #[trigger]
        answers(&is_ready, cpu_id, answer) implies ready(cpu_id, answer) by {}
    match select_least_loaded_run_queue_index_with(
        cpumask,
        preferred_cpus,
        fallback_start_cpu,
        cpu_count,
        is_ready,
        runnable_load,
    ) {
        Some(cpu_id) => Some(RunQueueSelection { cpu_id, claimed_idle: false }),
        None => None,
    }
}

/// Selects a CPU for a newly created task.
///
/// The decision is independent from the per-CPU storage, so that it can be
/// exercised with any number of CPUs. A fork burst commonly leaves the creator
/// blocked after launching its workers: `current_cpu` is preferred on an
/// equal-load tie so that the final worker does not collide with an already
/// claimed remote CPU and leave the creator idle.
pub fn select_new_task_run_queue_index_with<
    R: FnMut(usize) -> bool,
    C: FnMut(usize) -> bool,
    L: FnMut(usize) -> usize,
>(
    cpumask: AxCpuMask,
    current_cpu: usize,
    idle_start_cpu: usize,
    fallback_start_cpu: usize,
    cpu_count: usize,
    is_ready: R,
    claim_idle: C,
    runnable_load: L,
) -> (selected: Option<RunQueueSelection>)
    requires
        exists|cpu_id: usize| cpumask.has(cpu_id),
        forall|cpu_id: usize|
            cpu_id < cpu_count && cpumask.has(cpu_id) ==> call_requires(is_ready, (cpu_id,)),
        forall|cpu_id: usize|
            cpu_id < cpu_count && cpumask.has(cpu_id) && answers(&is_ready, cpu_id, true)
                ==> call_requires(claim_idle, (cpu_id,)) && call_requires(
                runnable_load,
                (cpu_id,),
            ),
    ensures
        idle_or_least_loaded(
            cpumask,
            seq![current_cpu],
            idle_start_cpu,
            fallback_start_cpu,
            cpu_count,
            |cpu_id: usize, answer: bool| answers(&is_ready, cpu_id, answer),
            |cpu_id: usize, answer: bool| answers(&claim_idle, cpu_id, answer),
            |cpu_id: usize, amount: usize| answers(&runnable_load, cpu_id, amount),
            selected,
        ),
{
    let preferred_cpus = [current_cpu];
    assert(preferred_cpus@ =~= seq![current_cpu]);
    select_idle_or_least_loaded(
        cpumask,
        &preferred_cpus,
        idle_start_cpu,
        fallback_start_cpu,
        cpu_count,
        is_ready,
        claim_idle,
        runnable_load,
    )
}

/// Selects a CPU for a task that wakes up.
///
/// An idle `last_cpu` is reclaimed first, then any other idle CPU; only then
/// are loads compared, with `last_cpu` and `current_cpu` breaking ties.
pub fn select_wake_run_queue_index_with<
    R: FnMut(usize) -> bool,
    C: FnMut(usize) -> bool,
    L: FnMut(usize) -> usize,
>(
    cpumask: AxCpuMask,
    current_cpu: usize,
    last_cpu: usize,
    idle_start_cpu: usize,
    fallback_start_cpu: usize,
    cpu_count: usize,
    mut is_ready: R,
    mut claim_idle: C,
    runnable_load: L,
) -> (selected: Option<RunQueueSelection>)
    requires
        exists|cpu_id: usize| cpumask.has(cpu_id),
        forall|cpu_id: usize|
            cpu_id < cpu_count && cpumask.has(cpu_id) ==> call_requires(is_ready, (cpu_id,)),
        forall|cpu_id: usize|
            cpu_id < cpu_count && cpumask.has(cpu_id) && answers(&is_ready, cpu_id, true)
                ==> call_requires(claim_idle, (cpu_id,)) && call_requires(
                runnable_load,
                (cpu_id,),
            ),
    ensures
        last_or_idle_or_least_loaded(
            cpumask,
            current_cpu,
            last_cpu,
            idle_start_cpu,
            fallback_start_cpu,
            cpu_count,
            |cpu_id: usize, answer: bool| answers(&is_ready, cpu_id, answer),
            |cpu_id: usize, answer: bool| answers(&claim_idle, cpu_id, answer),
            |cpu_id: usize, amount: usize| answers(&runnable_load, cpu_id, amount),
            selected,
        ),
{
    if last_cpu < cpu_count && cpumask.get(last_cpu) && is_ready(last_cpu) && claim_idle(last_cpu) {
        return Some(RunQueueSelection { cpu_id: last_cpu, claimed_idle: true });
    }
    let preferred_cpus = [last_cpu, current_cpu];
    assert(preferred_cpus@ =~= seq![last_cpu, current_cpu]);
    select_idle_or_least_loaded(
        cpumask,
        &preferred_cpus,
        idle_start_cpu,
        fallback_start_cpu,
        cpu_count,
        is_ready,
        claim_idle,
        runnable_load,
    )
}

/// The answers of a CPU that are fixed by `holds`.
pub open spec fn exactly(holds: spec_fn(usize) -> bool) -> spec_fn(usize, bool) -> bool {
    |cpu_id: usize, answer: bool| answer == holds(cpu_id)
}

/// The loads of a CPU that are fixed by `amount`.
pub open spec fn exact_load(amount: spec_fn(usize) -> usize) -> spec_fn(usize, usize) -> bool {
    |cpu_id: usize, answer: usize| answer == amount(cpu_id)
}

/// Within a round, `start_cpu + offset` wraps around the CPU count at most once.
pub(crate) proof fn lemma_round_position(start_cpu: int, offset: int, count: int)
    requires
        0 <= start_cpu,
        0 <= offset < count,
    ensures
        (start_cpu + offset) % count == if start_cpu % count + offset < count {
            start_cpu % count + offset
        } else {
            start_cpu % count + offset - count
        },
{
    vstd::arithmetic::div_mod::lemma_fundamental_div_mod(start_cpu, count);
    let q = start_cpu / count;
    let r = start_cpu % count;
    assert(start_cpu + offset == count * q + (r + offset));
    vstd::arithmetic::div_mod::lemma_mod_multiples_vanish(q, r + offset, count);
    if r + offset < count {
        vstd::arithmetic::div_mod::lemma_small_mod((r + offset) as nat, count as nat);
    } else {
        vstd::arithmetic::div_mod::lemma_mod_add_multiples_vanish(r + offset - count, count);
        vstd::arithmetic::div_mod::lemma_small_mod((r + offset - count) as nat, count as nat);
    }
}

/// A scan visits every CPU, each at exactly one offset, wherever it starts.
pub proof fn scan_visits_each_cpu_once(start_cpu: usize, cpu_count: usize, cpu_id: usize)
    requires
        cpu_id < cpu_count,
    ensures
        exists|offset: int|
            0 <= offset < cpu_count && #[trigger] scan_cpu(start_cpu, offset, cpu_count) == cpu_id,
        forall|a: int, b: int|
            0 <= a < cpu_count && 0 <= b < cpu_count && #[trigger] scan_cpu(
                start_cpu,
                a,
                cpu_count,
            ) == cpu_id && #[trigger] scan_cpu(start_cpu, b, cpu_count) == cpu_id ==> a == b,
{
    let count = cpu_count as int;
    let first = start_cpu as int % count;
    let offset = if cpu_id >= first {
        cpu_id - first
    } else {
        cpu_id - first + count
    };
    lemma_round_position(start_cpu as int, offset, count);
    assert(scan_cpu(start_cpu, offset, cpu_count) == cpu_id);
    assert forall|a: int, b: int|
        0 <= a < cpu_count && 0 <= b < cpu_count && #[trigger] scan_cpu(start_cpu, a, cpu_count)
            == cpu_id && #[trigger] scan_cpu(start_cpu, b, cpu_count) == cpu_id implies a == b by {
        lemma_round_position(start_cpu as int, a, count);
        lemma_round_position(start_cpu as int, b, count);
    }
}

/// A search ends at an allowed CPU within the range that gave a positive answer.
pub proof fn first_match_is_eligible(
    cpumask: AxCpuMask,
    start_cpu: usize,
    cpu_count: usize,
    asked: spec_fn(usize, bool) -> bool,
    found: Option<usize>,
)
    requires
        first_match(cpumask, start_cpu, cpu_count, asked, found),
    ensures
        found matches Some(cpu_id) ==> cpu_id < cpu_count && cpumask.has(cpu_id) && asked(
            cpu_id,
            true,
        ),
{
}

/// Where the answers are fixed, a search comes back empty if and only if no
/// allowed CPU matches, wherever it starts.
pub proof fn first_match_finds_any_match(
    cpumask: AxCpuMask,
    start_cpu: usize,
    cpu_count: usize,
    holds: spec_fn(usize) -> bool,
    found: Option<usize>,
)
    requires
        first_match(cpumask, start_cpu, cpu_count, exactly(holds), found),
    ensures
        found is None <==> (forall|cpu_id: usize|
            cpu_id < cpu_count && #[trigger] cpumask.has(cpu_id) ==> !holds(cpu_id)),
{
    if found is None {
        assert forall|cpu_id: usize| cpu_id < cpu_count && #[trigger] cpumask.has(cpu_id) implies !holds(
            cpu_id,
        ) by {
            scan_visits_each_cpu_once(start_cpu, cpu_count, cpu_id);
        }
    } else {
        first_match_is_eligible(cpumask, start_cpu, cpu_count, exactly(holds), found);
    }
}

/// Where no CPU may give both answers, a search has one outcome.
proof fn lemma_first_match_unique(
    cpumask: AxCpuMask,
    start_cpu: usize,
    cpu_count: usize,
    asked: spec_fn(usize, bool) -> bool,
    a: Option<usize>,
    b: Option<usize>,
)
    requires
        forall|cpu_id: usize| !(#[trigger] asked(cpu_id, true) && asked(cpu_id, false)),
        first_match(cpumask, start_cpu, cpu_count, asked, a),
        first_match(cpumask, start_cpu, cpu_count, asked, b),
    ensures
        a == b,
{
}

/// A search that went by `asked` also went by whatever `asked` implies.
pub(crate) proof fn lemma_first_match_weakened(
    cpumask: AxCpuMask,
    start_cpu: usize,
    cpu_count: usize,
    asked: spec_fn(usize, bool) -> bool,
    weaker: spec_fn(usize, bool) -> bool,
    found: Option<usize>,
)
    requires
        first_match(cpumask, start_cpu, cpu_count, asked, found),
        forall|cpu_id: usize, answer: bool| #[trigger]
            asked(cpu_id, answer) ==> weaker(cpu_id, answer),
    ensures
        first_match(cpumask, start_cpu, cpu_count, weaker, found),
{
    if let Some(cpu_id) = found {
        let offset = choose|offset: int|
            #![trigger scan_cpu(start_cpu, offset, cpu_count)]
            0 <= offset < cpu_count && cpu_id == scan_cpu(start_cpu, offset, cpu_count)
                && cpumask.has(cpu_id) && asked(cpu_id, true) && refused_before(
                cpumask,
                start_cpu,
                cpu_count,
                asked,
                offset,
            );
        assert(refused_before(cpumask, start_cpu, cpu_count, weaker, offset));
        assert(scan_cpu(start_cpu, offset, cpu_count) == cpu_id);
    }
}

/// A comparison of loads that went by `ready` and `load` also went by whatever
/// these imply.
proof fn lemma_least_loaded_weakened(
    cpumask: AxCpuMask,
    preferred_cpus: Seq<usize>,
    start_cpu: usize,
    cpu_count: usize,
    ready: spec_fn(usize, bool) -> bool,
    load: spec_fn(usize, usize) -> bool,
    weaker_ready: spec_fn(usize, bool) -> bool,
    weaker_load: spec_fn(usize, usize) -> bool,
    chosen: Option<usize>,
)
    requires
        least_loaded(cpumask, preferred_cpus, start_cpu, cpu_count, ready, load, chosen),
        forall|cpu_id: usize, answer: bool| #[trigger]
            ready(cpu_id, answer) ==> weaker_ready(cpu_id, answer),
        forall|cpu_id: usize, amount: usize| #[trigger]
            load(cpu_id, amount) ==> weaker_load(cpu_id, amount),
    ensures
        least_loaded(
            cpumask,
            preferred_cpus,
            start_cpu,
            cpu_count,
            weaker_ready,
            weaker_load,
            chosen,
        ),
{
    let seen = choose|seen: Seq<Option<usize>>|
        seen.len() == cpu_count && is_observation(
            cpumask,
            start_cpu,
            cpu_count,
            ready,
            load,
            seen,
        ) && #[trigger] best_of(preferred_cpus, start_cpu, cpu_count, seen, chosen);
    assert forall|offset: int| 0 <= offset < seen.len() implies observed_load(
        cpumask,
        start_cpu,
        cpu_count,
        weaker_ready,
        weaker_load,
        offset,
        #[trigger] seen[offset],
    ) by {
        assert(observed_load(cpumask, start_cpu, cpu_count, ready, load, offset, seen[offset]));
    }
    assert(best_of(preferred_cpus, start_cpu, cpu_count, seen, chosen));
}

/// A selection that went by `ready`, `claim` and `load` also went by whatever
/// these imply.
pub(crate) proof fn lemma_selection_weakened(
    cpumask: AxCpuMask,
    preferred_cpus: Seq<usize>,
    idle_start_cpu: usize,
    fallback_start_cpu: usize,
    cpu_count: usize,
    ready: spec_fn(usize, bool) -> bool,
    claim: spec_fn(usize, bool) -> bool,
    load: spec_fn(usize, usize) -> bool,
    weaker_ready: spec_fn(usize, bool) -> bool,
    weaker_claim: spec_fn(usize, bool) -> bool,
    weaker_load: spec_fn(usize, usize) -> bool,
    selected: Option<RunQueueSelection>,
)
    requires
        idle_or_least_loaded(
            cpumask,
            preferred_cpus,
            idle_start_cpu,
            fallback_start_cpu,
            cpu_count,
            ready,
            claim,
            load,
            selected,
        ),
        forall|cpu_id: usize, answer: bool| #[trigger]
            ready(cpu_id, answer) ==> weaker_ready(cpu_id, answer),
        forall|cpu_id: usize, answer: bool| #[trigger]
            claim(cpu_id, answer) ==> weaker_claim(cpu_id, answer),
        forall|cpu_id: usize, amount: usize| #[trigger]
            load(cpu_id, amount) ==> weaker_load(cpu_id, amount),
    ensures
        idle_or_least_loaded(
            cpumask,
            preferred_cpus,
            idle_start_cpu,
            fallback_start_cpu,
            cpu_count,
            weaker_ready,
            weaker_claim,
            weaker_load,
            selected,
        ),
{
    let reserved = |cpu_id: usize, answer: bool| reserves(ready, claim, cpu_id, answer);
    let weaker = |cpu_id: usize, answer: bool|
        reserves(weaker_ready, weaker_claim, cpu_id, answer);
    let (found, chosen) = match selected {
        Some(RunQueueSelection { cpu_id, claimed_idle: true }) => (Some(cpu_id), None),
        Some(RunQueueSelection { cpu_id, claimed_idle: false }) => (None, Some(cpu_id)),
        None => (None, None),
    };
    lemma_first_match_weakened(
        cpumask,
        idle_start_cpu,
        cpu_count,
        reserved,
        weaker,
        found,
    );
    if found is None {
        lemma_least_loaded_weakened(
            cpumask,
            preferred_cpus,
            fallback_start_cpu,
            cpu_count,
            ready,
            load,
            weaker_ready,
            weaker_load,
            chosen,
        );
    }
}

/// The same of the placement of a waking task.
pub(crate) proof fn lemma_wake_selection_weakened(
    cpumask: AxCpuMask,
    current_cpu: usize,
    last_cpu: usize,
    idle_start_cpu: usize,
    fallback_start_cpu: usize,
    cpu_count: usize,
    ready: spec_fn(usize, bool) -> bool,
    claim: spec_fn(usize, bool) -> bool,
    load: spec_fn(usize, usize) -> bool,
    weaker_ready: spec_fn(usize, bool) -> bool,
    weaker_claim: spec_fn(usize, bool) -> bool,
    weaker_load: spec_fn(usize, usize) -> bool,
    selected: Option<RunQueueSelection>,
)
    requires
        last_or_idle_or_least_loaded(
            cpumask,
            current_cpu,
            last_cpu,
            idle_start_cpu,
            fallback_start_cpu,
            cpu_count,
            ready,
            claim,
            load,
            selected,
        ),
        forall|cpu_id: usize, answer: bool| #[trigger]
            ready(cpu_id, answer) ==> weaker_ready(cpu_id, answer),
        forall|cpu_id: usize, answer: bool| #[trigger]
            claim(cpu_id, answer) ==> weaker_claim(cpu_id, answer),
        forall|cpu_id: usize, amount: usize| #[trigger]
            load(cpu_id, amount) ==> weaker_load(cpu_id, amount),
    ensures
        last_or_idle_or_least_loaded(
            cpumask,
            current_cpu,
            last_cpu,
            idle_start_cpu,
            fallback_start_cpu,
            cpu_count,
            weaker_ready,
            weaker_claim,
            weaker_load,
            selected,
        ),
{
    let eligible = last_cpu < cpu_count && cpumask.has(last_cpu);
    if !(eligible && reserves(ready, claim, last_cpu, true) && selected == Some(
        RunQueueSelection { cpu_id: last_cpu, claimed_idle: true },
    )) {
        lemma_selection_weakened(
            cpumask,
            seq![last_cpu, current_cpu],
            idle_start_cpu,
            fallback_start_cpu,
            cpu_count,
            ready,
            claim,
            load,
            weaker_ready,
            weaker_claim,
            weaker_load,
            selected,
        );
    }
}

/// Where the answers are fixed, a placement has one outcome.
pub proof fn selection_is_unique(
    cpumask: AxCpuMask,
    preferred_cpus: Seq<usize>,
    idle_start_cpu: usize,
    fallback_start_cpu: usize,
    cpu_count: usize,
    ready: spec_fn(usize) -> bool,
    idle: spec_fn(usize) -> bool,
    load: spec_fn(usize) -> usize,
    a: Option<RunQueueSelection>,
    b: Option<RunQueueSelection>,
)
    requires
        idle_or_least_loaded(
            cpumask,
            preferred_cpus,
            idle_start_cpu,
            fallback_start_cpu,
            cpu_count,
            exactly(ready),
            exactly(idle),
            exact_load(load),
            a,
        ),
        idle_or_least_loaded(
            cpumask,
            preferred_cpus,
            idle_start_cpu,
            fallback_start_cpu,
            cpu_count,
            exactly(ready),
            exactly(idle),
            exact_load(load),
            b,
        ),
    ensures
        a == b,
{
    let reserved = |cpu_id: usize, answer: bool|
        reserves(exactly(ready), exactly(idle), cpu_id, answer);
    let (found_a, chosen_a) = match a {
        Some(RunQueueSelection { cpu_id, claimed_idle: true }) => (Some(cpu_id), None),
        Some(RunQueueSelection { cpu_id, claimed_idle: false }) => (None, Some(cpu_id)),
        None => (None, None),
    };
    let (found_b, chosen_b) = match b {
        Some(RunQueueSelection { cpu_id, claimed_idle: true }) => (Some(cpu_id), None),
        Some(RunQueueSelection { cpu_id, claimed_idle: false }) => (None, Some(cpu_id)),
        None => (None, None),
    };
    lemma_first_match_unique(
        cpumask,
        idle_start_cpu,
        cpu_count,
        reserved,
        found_a,
        found_b,
    );
    if found_a is None {
        least_loaded_is_unique(
            cpumask,
            preferred_cpus,
            fallback_start_cpu,
            cpu_count,
            ready,
            load,
            chosen_a,
            chosen_b,
        );
    }
}

/// Where the answers are fixed, the placement of a waking task has one outcome.
pub proof fn wake_selection_is_unique(
    cpumask: AxCpuMask,
    current_cpu: usize,
    last_cpu: usize,
    idle_start_cpu: usize,
    fallback_start_cpu: usize,
    cpu_count: usize,
    ready: spec_fn(usize) -> bool,
    idle: spec_fn(usize) -> bool,
    load: spec_fn(usize) -> usize,
    a: Option<RunQueueSelection>,
    b: Option<RunQueueSelection>,
)
    requires
        last_or_idle_or_least_loaded(
            cpumask,
            current_cpu,
            last_cpu,
            idle_start_cpu,
            fallback_start_cpu,
            cpu_count,
            exactly(ready),
            exactly(idle),
            exact_load(load),
            a,
        ),
        last_or_idle_or_least_loaded(
            cpumask,
            current_cpu,
            last_cpu,
            idle_start_cpu,
            fallback_start_cpu,
            cpu_count,
            exactly(ready),
            exactly(idle),
            exact_load(load),
            b,
        ),
    ensures
        a == b,
{
    let eligible = last_cpu < cpu_count && cpumask.has(last_cpu);
    if !(eligible && reserves(exactly(ready), exactly(idle), last_cpu, true)) {
        selection_is_unique(
            cpumask,
            seq![last_cpu, current_cpu],
            idle_start_cpu,
            fallback_start_cpu,
            cpu_count,
            ready,
            idle,
            load,
            a,
            b,
        );
    }
}

/// Where the answers are fixed, a search has one outcome.
pub proof fn first_match_is_unique(
    cpumask: AxCpuMask,
    start_cpu: usize,
    cpu_count: usize,
    holds: spec_fn(usize) -> bool,
    a: Option<usize>,
    b: Option<usize>,
)
    requires
        first_match(cpumask, start_cpu, cpu_count, exactly(holds), a),
        first_match(cpumask, start_cpu, cpu_count, exactly(holds), b),
    ensures
        a == b,
{
}

/// The least loaded CPU is allowed, within the range and was ready.
pub proof fn least_loaded_is_eligible(
    cpumask: AxCpuMask,
    preferred_cpus: Seq<usize>,
    start_cpu: usize,
    cpu_count: usize,
    ready: spec_fn(usize, bool) -> bool,
    load: spec_fn(usize, usize) -> bool,
    chosen: Option<usize>,
)
    requires
        least_loaded(cpumask, preferred_cpus, start_cpu, cpu_count, ready, load, chosen),
    ensures
        chosen matches Some(cpu_id) ==> cpu_id < cpu_count && cpumask.has(cpu_id) && ready(
            cpu_id,
            true,
        ),
{
    let seen = choose|seen: Seq<Option<usize>>|
        seen.len() == cpu_count && is_observation(
            cpumask,
            start_cpu,
            cpu_count,
            ready,
            load,
            seen,
        ) && #[trigger] best_of(preferred_cpus, start_cpu, cpu_count, seen, chosen);
    if let Some(cpu_id) = chosen {
        let best = choose|best: int|
            #![trigger scan_cpu(start_cpu, best, cpu_count)]
            cpu_id == scan_cpu(start_cpu, best, cpu_count) && is_best_visit(
                preferred_cpus,
                start_cpu,
                cpu_count,
                seen,
                best,
            );
        assert(observed_load(cpumask, start_cpu, cpu_count, ready, load, best, seen[best]));
    }
}

/// Where the answers are fixed and the scan makes a full round, no ready and
/// allowed CPU carries less load than the chosen one, and one that carries the
/// same load is not preferred to it; there is no choice if and only if no
/// allowed CPU is ready. So a preference only ever decides between equal loads.
pub proof fn least_loaded_is_minimal(
    cpumask: AxCpuMask,
    preferred_cpus: Seq<usize>,
    start_cpu: usize,
    cpu_count: usize,
    ready: spec_fn(usize) -> bool,
    load: spec_fn(usize) -> usize,
    chosen: Option<usize>,
)
    requires
        least_loaded(
            cpumask,
            preferred_cpus,
            start_cpu,
            cpu_count,
            exactly(ready),
            exact_load(load),
            chosen,
        ),
    ensures
        chosen matches Some(cpu_id) ==> forall|other: usize|
            other < cpu_count && #[trigger] cpumask.has(other) && ready(other) ==> load(cpu_id)
                <= load(other) && (load(cpu_id) == load(other) ==> preference(
                preferred_cpus,
                cpu_id,
            ) <= preference(preferred_cpus, other)),
        chosen is None <==> (forall|other: usize|
            other < cpu_count && #[trigger] cpumask.has(other) ==> !ready(other)),
{
    let seen = choose|seen: Seq<Option<usize>>|
        seen.len() == cpu_count && is_observation(
            cpumask,
            start_cpu,
            cpu_count,
            exactly(ready),
            exact_load(load),
            seen,
        ) && #[trigger] best_of(preferred_cpus, start_cpu, cpu_count, seen, chosen);
    least_loaded_is_eligible(
        cpumask,
        preferred_cpus,
        start_cpu,
        cpu_count,
        exactly(ready),
        exact_load(load),
        chosen,
    );
    assert forall|other: usize|
        other < cpu_count && #[trigger] cpumask.has(other) && ready(other) implies exists|offset: int|

        0 <= offset < cpu_count && #[trigger] scan_cpu(start_cpu, offset, cpu_count) == other
            && seen[offset] == Some(load(other)) by {
        scan_visits_each_cpu_once(start_cpu, cpu_count, other);
        let offset = choose|offset: int|
            0 <= offset < cpu_count && #[trigger] scan_cpu(start_cpu, offset, cpu_count) == other;
        assert(observed_load(
            cpumask,
            start_cpu,
            cpu_count,
            exactly(ready),
            exact_load(load),
            offset,
            seen[offset],
        ));
    }
    if let Some(cpu_id) = chosen {
        let best = choose|best: int|
            #![trigger scan_cpu(start_cpu, best, cpu_count)]
            cpu_id == scan_cpu(start_cpu, best, cpu_count) && is_best_visit(
                preferred_cpus,
                start_cpu,
                cpu_count,
                seen,
                best,
            );
        assert(observed_load(
            cpumask,
            start_cpu,
            cpu_count,
            exactly(ready),
            exact_load(load),
            best,
            seen[best],
        ));
        assert forall|other: usize|
            other < cpu_count && #[trigger] cpumask.has(other) && ready(other) implies load(cpu_id)
            <= load(other) && (load(cpu_id) == load(other) ==> preference(preferred_cpus, cpu_id)
            <= preference(preferred_cpus, other)) by {
            let offset = choose|offset: int|
                0 <= offset < cpu_count && #[trigger] scan_cpu(start_cpu, offset, cpu_count)
                    == other && seen[offset] == Some(load(other));
            if offset != best {
                assert(seen[offset] is Some);
            }
        }
    }
}

/// Where the answers are fixed, the least loaded CPU is unique.
pub proof fn least_loaded_is_unique(
    cpumask: AxCpuMask,
    preferred_cpus: Seq<usize>,
    start_cpu: usize,
    cpu_count: usize,
    ready: spec_fn(usize) -> bool,
    load: spec_fn(usize) -> usize,
    a: Option<usize>,
    b: Option<usize>,
)
    requires
        least_loaded(
            cpumask,
            preferred_cpus,
            start_cpu,
            cpu_count,
            exactly(ready),
            exact_load(load),
            a,
        ),
        least_loaded(
            cpumask,
            preferred_cpus,
            start_cpu,
            cpu_count,
            exactly(ready),
            exact_load(load),
            b,
        ),
    ensures
        a == b,
{
    let seen_a = choose|seen: Seq<Option<usize>>|
        seen.len() == cpu_count && is_observation(
            cpumask,
            start_cpu,
            cpu_count,
            exactly(ready),
            exact_load(load),
            seen,
        ) && #[trigger] best_of(preferred_cpus, start_cpu, cpu_count, seen, a);
    let seen_b = choose|seen: Seq<Option<usize>>|
        seen.len() == cpu_count && is_observation(
            cpumask,
            start_cpu,
            cpu_count,
            exactly(ready),
            exact_load(load),
            seen,
        ) && #[trigger] best_of(preferred_cpus, start_cpu, cpu_count, seen, b);
    assert(seen_a =~= seen_b) by {
        assert forall|offset: int| 0 <= offset < cpu_count implies seen_a[offset]
            == seen_b[offset] by {
            assert(observed_load(
                cpumask,
                start_cpu,
                cpu_count,
                exactly(ready),
                exact_load(load),
                offset,
                seen_a[offset],
            ));
            assert(observed_load(
                cpumask,
                start_cpu,
                cpu_count,
                exactly(ready),
                exact_load(load),
                offset,
                seen_b[offset],
            ));
        }
    }
}

/// A placement respects the affinity mask: the selected CPU is allowed, within
/// the range and was ready, and a CPU reported as claimed was claimed.
pub proof fn selection_is_eligible(
    cpumask: AxCpuMask,
    preferred_cpus: Seq<usize>,
    idle_start_cpu: usize,
    fallback_start_cpu: usize,
    cpu_count: usize,
    ready: spec_fn(usize, bool) -> bool,
    claim: spec_fn(usize, bool) -> bool,
    load: spec_fn(usize, usize) -> bool,
    selected: Option<RunQueueSelection>,
)
    requires
        idle_or_least_loaded(
            cpumask,
            preferred_cpus,
            idle_start_cpu,
            fallback_start_cpu,
            cpu_count,
            ready,
            claim,
            load,
            selected,
        ),
    ensures
        selected matches Some(selection) ==> {
            &&& selection.cpu_id < cpu_count
            &&& cpumask.has(selection.cpu_id)
            &&& ready(selection.cpu_id, true)
            &&& selection.claimed_idle ==> claim(selection.cpu_id, true)
        },
{
    if let Some(selection) = selected {
        let reserved = |cpu_id: usize, answer: bool| reserves(ready, claim, cpu_id, answer);
        if selection.claimed_idle {
            first_match_is_eligible(
                cpumask,
                idle_start_cpu,
                cpu_count,
                reserved,
                Some(selection.cpu_id),
            );
        } else {
            least_loaded_is_eligible(
                cpumask,
                preferred_cpus,
                fallback_start_cpu,
                cpu_count,
                ready,
                load,
                Some(selection.cpu_id),
            );
        }
    }
}

/// The same of a wake-up, whose first candidate is the task's last CPU.
pub proof fn wake_selection_is_eligible(
    cpumask: AxCpuMask,
    current_cpu: usize,
    last_cpu: usize,
    idle_start_cpu: usize,
    fallback_start_cpu: usize,
    cpu_count: usize,
    ready: spec_fn(usize, bool) -> bool,
    claim: spec_fn(usize, bool) -> bool,
    load: spec_fn(usize, usize) -> bool,
    selected: Option<RunQueueSelection>,
)
    requires
        last_or_idle_or_least_loaded(
            cpumask,
            current_cpu,
            last_cpu,
            idle_start_cpu,
            fallback_start_cpu,
            cpu_count,
            ready,
            claim,
            load,
            selected,
        ),
    ensures
        selected matches Some(selection) ==> {
            &&& selection.cpu_id < cpu_count
            &&& cpumask.has(selection.cpu_id)
            &&& ready(selection.cpu_id, true)
            &&& selection.claimed_idle ==> claim(selection.cpu_id, true)
        },
{
    let eligible = last_cpu < cpu_count && cpumask.has(last_cpu);
    let last = Some(RunQueueSelection { cpu_id: last_cpu, claimed_idle: true });
    if !(eligible && reserves(ready, claim, last_cpu, true) && selected == last) {
        selection_is_eligible(
            cpumask,
            seq![last_cpu, current_cpu],
            idle_start_cpu,
            fallback_start_cpu,
            cpu_count,
            ready,
            claim,
            load,
            selected,
        );
    }
}

/// An idle CPU is used whenever one is available: where the answers are fixed,
/// a placement reserves a CPU if and only if some allowed CPU is ready and idle.
pub proof fn selection_uses_an_available_idle_cpu(
    cpumask: AxCpuMask,
    preferred_cpus: Seq<usize>,
    idle_start_cpu: usize,
    fallback_start_cpu: usize,
    cpu_count: usize,
    ready: spec_fn(usize) -> bool,
    idle: spec_fn(usize) -> bool,
    load: spec_fn(usize) -> usize,
    selected: Option<RunQueueSelection>,
)
    requires
        idle_or_least_loaded(
            cpumask,
            preferred_cpus,
            idle_start_cpu,
            fallback_start_cpu,
            cpu_count,
            exactly(ready),
            exactly(idle),
            exact_load(load),
            selected,
        ),
    ensures
        (exists|cpu_id: usize|
            cpu_id < cpu_count && #[trigger] cpumask.has(cpu_id) && ready(cpu_id) && idle(cpu_id))
            <==> (selected is Some && selected.unwrap().claimed_idle),
        selected matches Some(selection) ==> selection.claimed_idle ==> idle(selection.cpu_id),
{
    let reserved = |cpu_id: usize, answer: bool|
        reserves(exactly(ready), exactly(idle), cpu_id, answer);
    let holds = |cpu_id: usize| ready(cpu_id) && idle(cpu_id);
    assert(reserved =~= exactly(holds));
    let found = match selected {
        Some(RunQueueSelection { cpu_id, claimed_idle: true }) => Some(cpu_id),
        _ => None,
    };
    assert(first_match(cpumask, idle_start_cpu, cpu_count, exactly(holds), found));
    first_match_finds_any_match(cpumask, idle_start_cpu, cpu_count, holds, found);
    first_match_is_eligible(cpumask, idle_start_cpu, cpu_count, exactly(holds), found);
}

/// Load is balanced when no CPU is idle: where the answers are fixed, a
/// selection that reserved nothing carries the smallest load of all allowed and
/// ready CPUs, and the preferred one among those of equal load.
pub proof fn selection_balances_load(
    cpumask: AxCpuMask,
    preferred_cpus: Seq<usize>,
    idle_start_cpu: usize,
    fallback_start_cpu: usize,
    cpu_count: usize,
    ready: spec_fn(usize) -> bool,
    idle: spec_fn(usize) -> bool,
    load: spec_fn(usize) -> usize,
    selected: Option<RunQueueSelection>,
)
    requires
        idle_or_least_loaded(
            cpumask,
            preferred_cpus,
            idle_start_cpu,
            fallback_start_cpu,
            cpu_count,
            exactly(ready),
            exactly(idle),
            exact_load(load),
            selected,
        ),
    ensures
        selected matches Some(selection) ==> !selection.claimed_idle ==> forall|other: usize|
            other < cpu_count && #[trigger] cpumask.has(other) && ready(other) ==> load(
                selection.cpu_id,
            ) <= load(other) && (load(selection.cpu_id) == load(other) ==> preference(
                preferred_cpus,
                selection.cpu_id,
            ) <= preference(preferred_cpus, other)),
{
    if let Some(selection) = selected {
        if !selection.claimed_idle {
            least_loaded_is_minimal(
                cpumask,
                preferred_cpus,
                fallback_start_cpu,
                cpu_count,
                ready,
                load,
                Some(selection.cpu_id),
            );
        }
    }
}

/// A placement fails only where no allowed CPU is ready.
pub proof fn selection_fails_only_without_a_ready_cpu(
    cpumask: AxCpuMask,
    preferred_cpus: Seq<usize>,
    idle_start_cpu: usize,
    fallback_start_cpu: usize,
    cpu_count: usize,
    ready: spec_fn(usize) -> bool,
    idle: spec_fn(usize) -> bool,
    load: spec_fn(usize) -> usize,
    selected: Option<RunQueueSelection>,
)
    requires
        idle_or_least_loaded(
            cpumask,
            preferred_cpus,
            idle_start_cpu,
            fallback_start_cpu,
            cpu_count,
            exactly(ready),
            exactly(idle),
            exact_load(load),
            selected,
        ),
    ensures
        selected is None ==> (forall|cpu_id: usize|
            cpu_id < cpu_count && #[trigger] cpumask.has(cpu_id) ==> !ready(cpu_id)),
        (forall|cpu_id: usize|
            cpu_id < cpu_count && #[trigger] cpumask.has(cpu_id) ==> !ready(cpu_id))
            ==> selected is None,
{
    selection_is_eligible(
        cpumask,
        preferred_cpus,
        idle_start_cpu,
        fallback_start_cpu,
        cpu_count,
        exactly(ready),
        exactly(idle),
        exact_load(load),
        selected,
    );
    if selected is None {
        least_loaded_is_minimal(
            cpumask,
            preferred_cpus,
            fallback_start_cpu,
            cpu_count,
            ready,
            load,
            None,
        );
    }
}

/// The load of each CPU after a burst over CPUs of the load `base`: one more for
/// each of the tasks that it took.
pub open spec fn burst_load(base: usize, taken: Seq<usize>) -> spec_fn(usize) -> usize {
    |cpu_id: usize| (base + taken.to_multiset().count(cpu_id)) as usize
}

/// A burst of tasks spreads over equally loaded CPUs: no CPU takes a second task
/// while some other allowed and ready CPU has taken none.
pub proof fn burst_spreads(
    cpumask: AxCpuMask,
    preferred_cpus: Seq<usize>,
    idle_start_cpu: usize,
    fallback_start_cpu: usize,
    cpu_count: usize,
    ready: spec_fn(usize) -> bool,
    idle: spec_fn(usize) -> bool,
    base: usize,
    taken: Seq<usize>,
    cpu_id: usize,
    unused: usize,
)
    requires
        base + taken.len() <= usize::MAX,
        idle_or_least_loaded(
            cpumask,
            preferred_cpus,
            idle_start_cpu,
            fallback_start_cpu,
            cpu_count,
            exactly(ready),
            exactly(idle),
            exact_load(burst_load(base, taken)),
            Some(RunQueueSelection { cpu_id, claimed_idle: false }),
        ),
        unused < cpu_count,
        cpumask.has(unused),
        ready(unused),
        !taken.contains(unused),
    ensures
        !taken.contains(cpu_id),
{
    broadcast use vstd::seq_lib::group_to_multiset_ensures;

    let load = burst_load(base, taken);
    selection_balances_load(
        cpumask,
        preferred_cpus,
        idle_start_cpu,
        fallback_start_cpu,
        cpu_count,
        ready,
        idle,
        load,
        Some(RunQueueSelection { cpu_id, claimed_idle: false }),
    );
    assert(load(cpu_id) <= load(unused));
    assert(taken.to_multiset().count(unused) == 0);
    assert(taken.to_multiset().count(cpu_id) <= taken.to_multiset().len());
}

/// The strongest preference ranks first and no other CPU shares its rank.
pub(crate) proof fn lemma_strongest_preference(preferred_cpus: Seq<usize>, cpu_id: usize)
    requires
        preferred_cpus.len() > 0,
    ensures
        preference(preferred_cpus, preferred_cpus[0]) == 0,
        preference(preferred_cpus, cpu_id) <= 0 ==> cpu_id == preferred_cpus[0],
{
    preferred_cpus.index_of_first_ensures(preferred_cpus[0]);
    preferred_cpus.index_of_first_ensures(cpu_id);
    assert(preferred_cpus.contains(preferred_cpus[0]));
}

/// When no CPU is idle, an eligible CPU at the head of the preference list is
/// selected unless some other eligible CPU carries strictly less load.
pub proof fn selection_prefers_the_first_choice_on_a_tie(
    cpumask: AxCpuMask,
    preferred_cpus: Seq<usize>,
    idle_start_cpu: usize,
    fallback_start_cpu: usize,
    cpu_count: usize,
    ready: spec_fn(usize) -> bool,
    idle: spec_fn(usize) -> bool,
    load: spec_fn(usize) -> usize,
    selected: Option<RunQueueSelection>,
)
    requires
        preferred_cpus.len() > 0,
        preferred_cpus[0] < cpu_count,
        cpumask.has(preferred_cpus[0]),
        ready(preferred_cpus[0]),
        forall|cpu_id: usize|
            cpu_id < cpu_count && #[trigger] cpumask.has(cpu_id) && ready(cpu_id) ==> !idle(cpu_id)
                && load(preferred_cpus[0]) <= load(cpu_id),
        idle_or_least_loaded(
            cpumask,
            preferred_cpus,
            idle_start_cpu,
            fallback_start_cpu,
            cpu_count,
            exactly(ready),
            exactly(idle),
            exact_load(load),
            selected,
        ),
    ensures
        selected == Some(RunQueueSelection { cpu_id: preferred_cpus[0], claimed_idle: false }),
{
    selection_is_eligible(
        cpumask,
        preferred_cpus,
        idle_start_cpu,
        fallback_start_cpu,
        cpu_count,
        exactly(ready),
        exactly(idle),
        exact_load(load),
        selected,
    );
    selection_fails_only_without_a_ready_cpu(
        cpumask,
        preferred_cpus,
        idle_start_cpu,
        fallback_start_cpu,
        cpu_count,
        ready,
        idle,
        load,
        selected,
    );
    selection_balances_load(
        cpumask,
        preferred_cpus,
        idle_start_cpu,
        fallback_start_cpu,
        cpu_count,
        ready,
        idle,
        load,
        selected,
    );
    let selection = selected.unwrap();
    assert(cpumask.has(selection.cpu_id));
    lemma_strongest_preference(preferred_cpus, selection.cpu_id);
}

/// A waking task returns to its last CPU whenever that CPU is allowed, ready
/// and idle.
pub proof fn wake_preserves_an_idle_last_cpu(
    cpumask: AxCpuMask,
    current_cpu: usize,
    last_cpu: usize,
    idle_start_cpu: usize,
    fallback_start_cpu: usize,
    cpu_count: usize,
    ready: spec_fn(usize) -> bool,
    idle: spec_fn(usize) -> bool,
    load: spec_fn(usize) -> usize,
    selected: Option<RunQueueSelection>,
)
    requires
        last_cpu < cpu_count,
        cpumask.has(last_cpu),
        ready(last_cpu),
        idle(last_cpu),
        last_or_idle_or_least_loaded(
            cpumask,
            current_cpu,
            last_cpu,
            idle_start_cpu,
            fallback_start_cpu,
            cpu_count,
            exactly(ready),
            exactly(idle),
            exact_load(load),
            selected,
        ),
    ensures
        selected == Some(RunQueueSelection { cpu_id: last_cpu, claimed_idle: true }),
{
}

/// A waking task whose last CPU cannot be reserved is placed as a new task is,
/// with its last CPU and then the waker's CPU breaking ties.
pub proof fn wake_falls_back_to_balancing(
    cpumask: AxCpuMask,
    current_cpu: usize,
    last_cpu: usize,
    idle_start_cpu: usize,
    fallback_start_cpu: usize,
    cpu_count: usize,
    ready: spec_fn(usize) -> bool,
    idle: spec_fn(usize) -> bool,
    load: spec_fn(usize) -> usize,
    selected: Option<RunQueueSelection>,
)
    requires
        last_cpu < cpu_count && cpumask.has(last_cpu) ==> !ready(last_cpu) || !idle(last_cpu),
        last_or_idle_or_least_loaded(
            cpumask,
            current_cpu,
            last_cpu,
            idle_start_cpu,
            fallback_start_cpu,
            cpu_count,
            exactly(ready),
            exactly(idle),
            exact_load(load),
            selected,
        ),
    ensures
        idle_or_least_loaded(
            cpumask,
            seq![last_cpu, current_cpu],
            idle_start_cpu,
            fallback_start_cpu,
            cpu_count,
            exactly(ready),
            exactly(idle),
            exact_load(load),
            selected,
        ),
{
}

} // verus!
