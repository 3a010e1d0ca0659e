//! Collecting exited tasks.
use vstd::prelude::*;

use crate::system::System;

verus! {

/// The tasks among the first `n` of `exited` that somebody else still holds, in
/// their order; `counts` says how many hold each of them.
pub open spec fn still_held(exited: Seq<usize>, counts: Seq<usize>, n: int) -> Seq<usize>
    decreases n,
{
    if n <= 0 {
        Seq::empty()
    } else if counts[n - 1] == 1 {
        still_held(exited, counts, n - 1)
    } else {
        still_held(exited, counts, n - 1).push(exited[n - 1])
    }
}

/// The tasks among the first `n` of `exited` that nobody else holds, in their
/// order.
pub open spec fn unheld(exited: Seq<usize>, counts: Seq<usize>, n: int) -> Seq<usize>
    decreases n,
{
    if n <= 0 {
        Seq::empty()
    } else if counts[n - 1] == 1 {
        unheld(exited, counts, n - 1).push(exited[n - 1])
    } else {
        unheld(exited, counts, n - 1)
    }
}

/// `counts` are answers that `strong_count` may give for each of `exited`.
pub open spec fn are_counts<F: Fn(usize) -> usize>(
    strong_count: &F,
    exited: Seq<usize>,
    counts: Seq<usize>,
) -> bool {
    counts.len() == exited.len() && forall|i: int|
        0 <= i < counts.len() ==> crate::placement::answers(
            strong_count,
            exited[i],
            #[trigger] counts[i],
        )
}

/// One round of the gc task of CPU `this_cpu`: looks once at each task that has
/// exited there. A task that nobody else holds, as `strong_count` says, is
/// returned, to be dropped. The others stay, in their order: the switch away from
/// them is not complete, or somebody still waits for them.
pub fn gc_round<F: Fn(usize) -> usize>(
    system: &mut System,
    this_cpu: usize,
    strong_count: F,
) -> (dropped: Vec<usize>)
    requires
        old(system).wf(),
        old(system)@.has_cpu(this_cpu),
        forall|i: int|
            0 <= i < old(system)@.exited(this_cpu).len() ==> call_requires(
                strong_count,
                (#[trigger] old(system)@.exited(this_cpu)[i],),
            ),
    ensures
        final(system).wf(),
        exists|counts: Seq<usize>| #[trigger]
            are_counts(&strong_count, old(system)@.exited(this_cpu), counts) && dropped@ == unheld(
                old(system)@.exited(this_cpu),
                counts,
                counts.len() as int,
            ) && final(system)@ == old(system)@.with_exited(
                this_cpu,
                still_held(old(system)@.exited(this_cpu), counts, counts.len() as int),
            ),
{
    let ghost m = system@;
    let ghost exited = m.exited(this_cpu);
    let ghost mut counts: Seq<usize> = Seq::empty();
    let n = system.exited_tasks(this_cpu);
    let mut dropped: Vec<usize> = Vec::new();
    let mut i: usize = 0;
    assert(exited.skip(0) + still_held(exited, counts, 0) =~= exited);
    assert(m.with_exited(this_cpu, exited).cpus =~= m.cpus);
    while i < n
        invariant
            m.wf(),
            m.has_cpu(this_cpu),
            exited == m.exited(this_cpu),
            n == exited.len(),
            i <= n,
            counts.len() == i,
            forall|j: int|
                0 <= j < exited.len() ==> call_requires(strong_count, (#[trigger] exited[j],)),
            forall|j: int|
                0 <= j < i ==> crate::placement::answers(
                    &strong_count,
                    exited[j],
                    #[trigger] counts[j],
                ),
            system.inv(),
            system@ == m.with_exited(
                this_cpu,
                exited.skip(i as int) + still_held(exited, counts, i as int),
            ),
            dropped@ == unheld(exited, counts, i as int),
        decreases n - i,
    {
        let ghost kept = still_held(exited, counts, i as int);
        let popped = system.pop_exited(this_cpu);
        assert(exited.skip(i as int)[0] == exited[i as int]);
        assert((exited.skip(i as int) + kept).drop_first() =~= exited.skip(i + 1) + kept);
        if let Some(t) = popped {
            let count = strong_count(t);
            let ghost before = counts;
            proof {
                counts = counts.push(count);
                lemma_prefix(exited, before, counts, i as int);
            }
            if count == 1 {
                dropped.push(t);
            } else {
                system.push_exited(this_cpu, t);
                assert((exited.skip(i + 1) + kept).push(t) =~= exited.skip(i + 1) + kept.push(t));
            }
            assert(system@.cpus =~= m.with_exited(
                this_cpu,
                exited.skip(i + 1) + still_held(exited, counts, i + 1),
            ).cpus);
        }
        i = i + 1;
    }
    proof {
        let kept = still_held(exited, counts, n as int);
        assert(exited.skip(n as int) + kept =~= kept);
        crate::model::lemma_unrelated(m, system@);
        assert(are_counts(&strong_count, exited, counts));
    }
    dropped
}

/// Only the counts of the tasks that were looked at matter.
proof fn lemma_prefix(exited: Seq<usize>, a: Seq<usize>, b: Seq<usize>, n: int)
    requires
        n <= a.len(),
        n <= b.len(),
        forall|i: int| 0 <= i < n ==> a[i] == b[i],
    ensures
        still_held(exited, a, n) == still_held(exited, b, n),
        unheld(exited, a, n) == unheld(exited, b, n),
    decreases n,
{
    if n > 0 {
        lemma_prefix(exited, a, b, n - 1);
    }
}

/// A round loses no task and drops none twice: the tasks that are dropped and
/// those that stay are together the ones that had exited.
pub proof fn gc_loses_nothing(exited: Seq<usize>, counts: Seq<usize>, n: int)
    requires
        0 <= n <= exited.len(),
    ensures
        unheld(exited, counts, n).to_multiset().add(still_held(exited, counts, n).to_multiset())
            == exited.take(n).to_multiset(),
    decreases n,
{
    broadcast use vstd::seq_lib::group_to_multiset_ensures;

    if n > 0 {
        gc_loses_nothing(exited, counts, n - 1);
        assert(exited.take(n) =~= exited.take(n - 1).push(exited[n - 1]));
        let dropped = unheld(exited, counts, n - 1);
        let kept = still_held(exited, counts, n - 1);
        if counts[n - 1] == 1 {
            assert(dropped.push(exited[n - 1]).to_multiset().add(kept.to_multiset())
                =~= dropped.to_multiset().add(kept.to_multiset()).insert(exited[n - 1]));
        } else {
            assert(dropped.to_multiset().add(kept.push(exited[n - 1]).to_multiset())
                =~= dropped.to_multiset().add(kept.to_multiset()).insert(exited[n - 1]));
        }
    } else {
        assert(exited.take(0) =~= Seq::empty());
        assert(unheld(exited, counts, n).to_multiset().add(
            still_held(exited, counts, n).to_multiset(),
        ) =~= exited.take(n).to_multiset());
    }
}

/// A round never drops a task that somebody else holds: whatever is dropped was
/// seen with a count of one.
pub proof fn gc_drops_only_unheld_tasks(exited: Seq<usize>, counts: Seq<usize>, n: int, t: usize)
    requires
        0 <= n <= exited.len(),
        n <= counts.len(),
        unheld(exited, counts, n).contains(t),
    ensures
        exists|i: int| 0 <= i < n && exited[i] == t && counts[i] == 1,
    decreases n,
{
    if n > 0 {
        let before = unheld(exited, counts, n - 1);
        if before.contains(t) {
            gc_drops_only_unheld_tasks(exited, counts, n - 1, t);
            let i = choose|i: int| 0 <= i < n - 1 && exited[i] == t && counts[i] == 1;
            assert(0 <= i < n && exited[i] == t && counts[i] == 1);
        } else {
            let all = unheld(exited, counts, n);
            let k = choose|k: int| 0 <= k < all.len() && all[k] == t;
            assert(counts[n - 1] == 1);
            assert(k == before.len());
            assert(exited[n - 1] == t);
        }
    }
}

/// A round settles every task that it looks at by the count that it saw: one that
/// nobody else holds is dropped, any other one stays.
pub proof fn gc_settles_every_task(exited: Seq<usize>, counts: Seq<usize>, n: int, i: int)
    requires
        0 <= i < n <= exited.len(),
        n <= counts.len(),
    ensures
        counts[i] == 1 ==> unheld(exited, counts, n).contains(exited[i]),
        counts[i] != 1 ==> still_held(exited, counts, n).contains(exited[i]),
    decreases n,
{
    let dropped = unheld(exited, counts, n - 1);
    let kept = still_held(exited, counts, n - 1);
    let t = exited[n - 1];
    assert(dropped.push(t)[dropped.len() as int] == t);
    assert(kept.push(t)[kept.len() as int] == t);
    if i < n - 1 {
        gc_settles_every_task(exited, counts, n - 1, i);
        if counts[i] == 1 {
            let k = choose|k: int| 0 <= k < dropped.len() && dropped[k] == exited[i];
            assert(dropped.push(t)[k] == exited[i]);
        } else {
            let k = choose|k: int| 0 <= k < kept.len() && kept[k] == exited[i];
            assert(kept.push(t)[k] == exited[i]);
        }
    }
}

/// A round keeps only tasks that somebody else holds, and both the tasks that stay
/// and those that are dropped are in the order in which they had exited.
pub proof fn gc_keeps_the_order(exited: Seq<usize>, counts: Seq<usize>, n: int) -> (places: (
    Seq<int>,
    Seq<int>,
))
    requires
        0 <= n <= exited.len(),
        n <= counts.len(),
    ensures
        places.0.len() == still_held(exited, counts, n).len(),
        places.1.len() == unheld(exited, counts, n).len(),
        forall|k: int|
            0 <= k < places.0.len() ==> 0 <= #[trigger] places.0[k] < n && counts[places.0[k]] != 1
                && still_held(exited, counts, n)[k] == exited[places.0[k]],
        forall|k: int|
            0 <= k < places.1.len() ==> 0 <= #[trigger] places.1[k] < n && counts[places.1[k]] == 1
                && unheld(exited, counts, n)[k] == exited[places.1[k]],
        forall|j: int, k: int| 0 <= j < k < places.0.len() ==> places.0[j] < places.0[k],
        forall|j: int, k: int| 0 <= j < k < places.1.len() ==> places.1[j] < places.1[k],
    decreases n,
{
    if n > 0 {
        let (kept, dropped) = gc_keeps_the_order(exited, counts, n - 1);
        if counts[n - 1] == 1 {
            (kept, dropped.push(n - 1))
        } else {
            (kept.push(n - 1), dropped)
        }
    } else {
        (Seq::empty(), Seq::empty())
    }
}

} // verus!
