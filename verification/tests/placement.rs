use run_queue::activity::{
    release_idle_run_queue_reservation_with, RUN_QUEUE_ACTIVITY_BUSY, RUN_QUEUE_ACTIVITY_IDLE,
    RUN_QUEUE_ACTIVITY_RESERVED,
};
use run_queue::placement::{
    find_run_queue_index, select_least_loaded_run_queue_index_with,
    select_new_task_run_queue_index_with, select_wake_run_queue_index_with, RunQueueSelection,
};
use run_queue::{AxCpuMask, CPU_CAPACITY};

fn placement_test_cpu_count() -> usize {
    CPU_CAPACITY.min(4)
}

fn mask_of(cpus: &[usize]) -> AxCpuMask {
    let mut mask = AxCpuMask::new();
    for cpu_id in cpus {
        mask.set(*cpu_id, true);
    }
    mask
}

#[test]
fn wake_placement_releases_a_failed_idle_reservation() {
    let mut activity = RUN_QUEUE_ACTIVITY_RESERVED;

    assert!(release_idle_run_queue_reservation_with(&mut activity));
    assert_eq!(activity, RUN_QUEUE_ACTIVITY_IDLE);

    activity = RUN_QUEUE_ACTIVITY_BUSY;
    assert!(!release_idle_run_queue_reservation_with(&mut activity));
    assert_eq!(activity, RUN_QUEUE_ACTIVITY_BUSY);
}

#[test]
fn new_task_placement_uses_an_available_idle_cpu() {
    let cpu_count = placement_test_cpu_count();
    if cpu_count < 2 {
        return;
    }

    let mut cpumask = AxCpuMask::new();
    for cpu_id in 0..cpu_count {
        cpumask.set(cpu_id, true);
    }
    let idle_cpu = cpu_count - 1;

    let selected = select_new_task_run_queue_index_with(
        cpumask,
        0,
        0,
        0,
        cpu_count,
        |_| true,
        |cpu_id| cpu_id == idle_cpu,
        |_| 0,
    )
    .unwrap();

    assert_eq!(
        selected.cpu_id, idle_cpu,
        "a new task must use an available idle CPU instead of pinning to its creator",
    );
}

#[test]
fn new_task_placement_balances_load_when_no_cpu_is_idle() {
    let cpu_count = placement_test_cpu_count();
    if cpu_count < 2 {
        return;
    }

    let mut cpumask = AxCpuMask::new();
    for cpu_id in 0..cpu_count {
        cpumask.set(cpu_id, true);
    }

    let mut selected_cpus = AxCpuMask::new();
    let mut runnable_load = [0usize; CPU_CAPACITY];
    for fallback_start_cpu in 0..cpu_count {
        let cpu_id = select_new_task_run_queue_index_with(
            cpumask,
            0,
            0,
            fallback_start_cpu,
            cpu_count,
            |_| true,
            |_| false,
            |cpu_id| runnable_load[cpu_id],
        )
        .unwrap()
        .cpu_id;
        selected_cpus.set(cpu_id, true);
        runnable_load[cpu_id] += 1;
    }

    assert_eq!(
        selected_cpus, cpumask,
        "a worker burst must spread across all allowed CPUs when none is idle",
    );
}

#[test]
fn new_task_placement_uses_creator_after_remote_idle_slots_are_claimed() {
    let cpu_count = placement_test_cpu_count();
    if cpu_count < 2 {
        return;
    }

    let mut cpumask = AxCpuMask::new();
    for cpu_id in 0..cpu_count {
        cpumask.set(cpu_id, true);
    }

    let selected = select_new_task_run_queue_index_with(
        cpumask,
        0,
        1,
        1,
        cpu_count,
        |_| true,
        |_| false,
        |_| 1,
    );

    assert_eq!(
        selected.map(|selection| selection.cpu_id),
        Some(0),
        "after remote idle slots are claimed, the next worker must use its creator CPU",
    );
}

#[test]
fn new_task_placement_skips_unready_run_queues() {
    let cpu_count = placement_test_cpu_count();
    if cpu_count < 2 {
        return;
    }

    let mut cpumask = AxCpuMask::new();
    for cpu_id in 0..cpu_count {
        cpumask.set(cpu_id, true);
    }

    let selected = select_new_task_run_queue_index_with(
        cpumask,
        0,
        0,
        1,
        cpu_count,
        |cpu_id| cpu_id == 0,
        |_| false,
        |_| 0,
    );

    assert_eq!(
        selected.map(|selection| selection.cpu_id),
        Some(0),
        "early boot must not choose a secondary CPU before its run queue is ready",
    );
}

#[test]
fn wake_placement_preserves_the_task_last_cpu() {
    let cpu_count = placement_test_cpu_count();
    if cpu_count < 2 {
        return;
    }

    let mut cpumask = AxCpuMask::new();
    for cpu_id in 0..cpu_count {
        cpumask.set(cpu_id, true);
    }
    let last_cpu = cpu_count - 1;

    let selected = select_wake_run_queue_index_with(
        cpumask,
        0,
        last_cpu,
        0,
        0,
        cpu_count,
        |_| true,
        |cpu_id| cpu_id == last_cpu,
        |_| 1,
    );

    assert_eq!(
        selected.map(|selection| selection.cpu_id),
        Some(last_cpu),
        "a centralized waker must not pull a runnable task away from its last CPU",
    );
}

#[test]
fn wake_placement_does_not_reuse_an_already_claimed_last_cpu() {
    let cpu_count = placement_test_cpu_count();
    if cpu_count < 2 {
        return;
    }

    let mut cpumask = AxCpuMask::new();
    for cpu_id in 0..cpu_count {
        cpumask.set(cpu_id, true);
    }
    let last_cpu = cpu_count - 1;
    let alternative_cpu = (last_cpu + 1) % cpu_count;

    let selected = select_wake_run_queue_index_with(
        cpumask,
        0,
        last_cpu,
        alternative_cpu,
        alternative_cpu,
        cpu_count,
        |_| true,
        |cpu_id| cpu_id == alternative_cpu,
        |_| 1,
    );

    assert_eq!(
        selected.map(|selection| selection.cpu_id),
        Some(alternative_cpu),
        "a second wake must use another idle CPU after the task's last CPU was claimed",
    );
}

#[test]
fn a_search_goes_round_from_its_start() {
    let all = mask_of(&[0, 1, 2, 3]);
    assert_eq!(find_run_queue_index(all, 2, 4, |cpu_id| cpu_id != 2), Some(3));
    assert_eq!(find_run_queue_index(all, 2, 4, |cpu_id| cpu_id < 2), Some(0));
    assert_eq!(find_run_queue_index(all, 6, 4, |_| true), Some(2));
    assert_eq!(find_run_queue_index(all, 0, 4, |_| false), None);
    assert_eq!(find_run_queue_index(all, 0, 0, |_| true), None);
}

#[test]
fn a_search_asks_allowed_cpus_only() {
    let mut asked = Vec::new();
    let found = find_run_queue_index(mask_of(&[1, 3]), 0, 4, |cpu_id| {
        asked.push(cpu_id);
        false
    });
    assert_eq!(found, None);
    assert_eq!(asked, vec![1, 3]);
    assert_eq!(find_run_queue_index(mask_of(&[5]), 0, 4, |_| true), None);
}

#[test]
fn a_scan_from_the_end_of_the_word_is_a_circle() {
    // Three CPUs do not divide the machine word, and CPU 0 is where it ends.
    let all = mask_of(&[0, 1, 2]);
    let mut asked = Vec::new();
    let found = find_run_queue_index(all, usize::MAX, 3, |cpu_id| {
        asked.push(cpu_id);
        cpu_id == 2
    });
    assert_eq!(found, Some(2));
    assert_eq!(asked, vec![0, 1, 2]);
    assert_eq!(find_run_queue_index(mask_of(&[2]), usize::MAX, 3, |_| true), Some(2));
    assert_eq!(find_run_queue_index(mask_of(&[2]), usize::MAX - 1, 3, |_| true), Some(2));
    assert_eq!(find_run_queue_index(mask_of(&[2]), usize::MAX, 4, |_| true), Some(2));
    let loads = [2usize, 2, 1];
    let chosen = select_least_loaded_run_queue_index_with(
        all,
        &[],
        usize::MAX,
        3,
        |_| true,
        |cpu_id| loads[cpu_id],
    );
    assert_eq!(chosen, Some(2));
    let selected = select_new_task_run_queue_index_with(
        all,
        0,
        usize::MAX,
        usize::MAX,
        3,
        |_| true,
        |cpu_id| cpu_id == 2,
        |_| 0,
    );
    assert_eq!(selected, Some(RunQueueSelection { cpu_id: 2, claimed_idle: true }));
}

#[test]
fn placement_takes_questions_that_count() {
    let all = mask_of(&[0, 1, 2, 3]);
    let mut asked = Vec::new();
    let mut claims = 0;
    let selected = select_wake_run_queue_index_with(
        all,
        0,
        3,
        1,
        0,
        4,
        |cpu_id| {
            asked.push(cpu_id);
            cpu_id != 1
        },
        |cpu_id| {
            claims += 1;
            cpu_id == 0
        },
        |_| 1,
    );
    assert_eq!(selected, Some(RunQueueSelection { cpu_id: 0, claimed_idle: true }));
    assert_eq!(asked, vec![3, 1, 2, 3, 0]);
    assert_eq!(claims, 4);
}

#[test]
fn a_burst_gives_no_cpu_a_second_task_too_early() {
    let allowed = mask_of(&[0, 2, 3]);
    let mut loads = [5usize; 4];
    let mut taken = Vec::new();
    for _ in 0..4 {
        let cpu_id = select_new_task_run_queue_index_with(
            allowed,
            2,
            0,
            0,
            4,
            |_| true,
            |_| false,
            |cpu_id| loads[cpu_id],
        )
        .unwrap()
        .cpu_id;
        loads[cpu_id] += 1;
        taken.push(cpu_id);
    }
    assert_eq!(taken, vec![2, 0, 3, 2]);
}

#[test]
fn the_smallest_load_wins_over_preference() {
    let all = mask_of(&[0, 1, 2, 3]);
    let loads = [3usize, 2, 4, 2];
    let chosen =
        select_least_loaded_run_queue_index_with(all, &[0, 3], 0, 4, |_| true, |c| loads[c]);
    assert_eq!(chosen, Some(3), "preference breaks the tie between CPUs 1 and 3");
    let chosen = select_least_loaded_run_queue_index_with(all, &[], 2, 4, |_| true, |c| loads[c]);
    assert_eq!(chosen, Some(3), "without preference the first in scan order wins");
    let chosen = select_least_loaded_run_queue_index_with(all, &[], 0, 4, |_| true, |c| loads[c]);
    assert_eq!(chosen, Some(1));
    let chosen =
        select_least_loaded_run_queue_index_with(all, &[1], 0, 4, |c| c == 2, |c| loads[c]);
    assert_eq!(chosen, Some(2));
    let chosen = select_least_loaded_run_queue_index_with(all, &[1], 0, 4, |_| false, |_| 0);
    assert_eq!(chosen, None);
    let chosen = select_least_loaded_run_queue_index_with(all, &[1], 0, 0, |_| true, |_| 0);
    assert_eq!(chosen, None);
}

#[test]
fn the_largest_load_is_chosen_when_it_is_the_only_one() {
    let chosen = select_least_loaded_run_queue_index_with(
        mask_of(&[1]),
        &[],
        0,
        4,
        |_| true,
        |_| usize::MAX,
    );
    assert_eq!(chosen, Some(1));
}

#[test]
fn a_claim_is_reported_with_the_selection() {
    let all = mask_of(&[0, 1, 2, 3]);
    let selected =
        select_new_task_run_queue_index_with(all, 0, 1, 0, 4, |_| true, |c| c != 1, |_| 0);
    assert_eq!(selected, Some(RunQueueSelection { cpu_id: 2, claimed_idle: true }));
    let selected = select_new_task_run_queue_index_with(all, 3, 1, 0, 4, |_| true, |_| false, |_| 0);
    assert_eq!(selected, Some(RunQueueSelection { cpu_id: 3, claimed_idle: false }));
    let selected = select_new_task_run_queue_index_with(all, 3, 1, 0, 4, |_| false, |_| true, |_| 0);
    assert_eq!(selected, None);
}

#[test]
fn a_wake_prefers_last_then_waking_cpu_on_a_tie() {
    let all = mask_of(&[0, 1, 2, 3]);
    let selected =
        select_wake_run_queue_index_with(all, 1, 2, 0, 0, 4, |_| true, |_| false, |_| 7);
    assert_eq!(selected, Some(RunQueueSelection { cpu_id: 2, claimed_idle: false }));
    let selected =
        select_wake_run_queue_index_with(all, 1, 2, 0, 0, 4, |c| c != 2, |_| false, |_| 7);
    assert_eq!(selected, Some(RunQueueSelection { cpu_id: 1, claimed_idle: false }));
    let selected =
        select_wake_run_queue_index_with(all, 1, 9, 0, 0, 4, |_| true, |_| true, |_| 7);
    assert_eq!(selected, Some(RunQueueSelection { cpu_id: 0, claimed_idle: true }));
}

#[test]
fn masks_hold_what_was_set() {
    let mut mask = AxCpuMask::one_shot(63);
    assert!(mask.get(63) && !mask.get(0) && !mask.get(64));
    mask.set(0, true);
    mask.set(63, false);
    assert!(mask.get(0) && !mask.get(63) && !mask.is_empty());
    mask.set(0, false);
    assert!(mask.is_empty());
    assert!(AxCpuMask::full().get(0) && AxCpuMask::full().get(63) && !AxCpuMask::full().get(64));
}
