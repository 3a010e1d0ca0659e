use std::collections::VecDeque;

use ax_memory_addr::VirtAddr;
use run_queue::activity::{
    RUN_QUEUE_ACTIVITY_BUSY, RUN_QUEUE_ACTIVITY_IDLE, RUN_QUEUE_ACTIVITY_RESERVED,
};
use run_queue::scheduler::MAX_TIME_SLICE;
use run_queue::select::{
    find_migration_run_queue_index, find_new_task_run_queue_index, find_wake_run_queue_index,
    online_cpu_count, release_idle_run_queue_reservation, run_queue_accepts_tasks,
    run_queue_runnable_load, select_run_queue_index, try_claim_idle_run_queue,
};
use run_queue::stack::{main_task_stack, TaskStack, TASK_STACK_ALIGN};
use run_queue::{
    clear_prev_task_on_cpu, current_run_queue, gc_round, init, init_secondary, migrate_entry,
    request_current_reschedule, select_migration_run_queue, select_new_task_run_queue,
    select_wake_run_queue, AxCpuMask, AxRunQueueRef, ContextSwitch, ExitAction, System, TaskInner,
    TaskRole, TaskState, CPU_CAPACITY,
};

/// A system whose CPUs are all in; CPU 0 runs the main task, the others idle.
fn booted(cpu_num: usize) -> (System, usize) {
    let mut system = System::new(cpu_num);
    let main = init(&mut system, 0, VirtAddr::from_usize(0x8000), 0x4000).current;
    for cpu_id in 1..cpu_num {
        init_secondary(&mut system, cpu_id, VirtAddr::from_usize(0x8000 + cpu_id * 0x4000), 0x4000);
    }
    for cpu_id in 0..cpu_num {
        system.set_ipi_ready(cpu_id, true);
        // The gc tasks would only get in the way.
        while system.pick_next_task(cpu_id).is_some() {}
    }
    (system, main)
}

fn worker(system: &mut System, state: TaskState) -> usize {
    let mut info = TaskInner::new(TaskRole::Worker);
    info.state = state;
    system.spawn(info)
}

/// A worker that CPU `cpu_id` runs.
fn running_worker(system: &mut System, cpu_id: usize) -> usize {
    let t = worker(system, TaskState::Ready);
    on(cpu_id).add_task(system, t, cpu_id);
    let switch = current_run_queue(system, cpu_id).yield_current(system);
    assert_eq!(switch.map(|switch| switch.next), Some(t));
    assert_eq!(clear_prev_task_on_cpu(system, cpu_id), None);
    t
}

fn on(cpu_id: usize) -> AxRunQueueRef {
    AxRunQueueRef { cpu_id, idle_reservation: false }
}

#[test]
fn unblock_resched_does_not_front_insert_rr_task() {
    let mut system = System::new(2);
    init(&mut system, 0, VirtAddr::from_usize(0x8000), 0x4000);
    let queued = worker(&mut system, TaskState::Ready);
    let blocked = worker(&mut system, TaskState::Blocked);

    on(1).add_task(&mut system, queued, 0);
    {
        let mut run_queue_ref = on(1);
        run_queue_ref.unblock_task(&mut system, blocked, true, 0);
        run_queue_ref.release(&mut system);
    }

    let next = system.pick_next_task(1).unwrap();
    assert_eq!(
        next, queued,
        "waking a blocked task with resched=true must not move it ahead of already queued RR \
         tasks",
    );
    assert_eq!(system.pick_next_task(1), Some(blocked));
    assert_eq!(system.pick_next_task(1), None);
}

#[test]
fn the_number_of_cpus_is_bounded_by_the_capacity() {
    assert_eq!(online_cpu_count(&System::new(3)), 3);
    assert_eq!(online_cpu_count(&System::new(CPU_CAPACITY + 1)), CPU_CAPACITY);
}

#[test]
fn the_first_cpu_boots_into_the_main_task() {
    let mut system = System::new(2);
    assert!(!run_queue_accepts_tasks(&system, 0, 0));
    let tasks = init(&mut system, 0, VirtAddr::from_usize(0x8000), 0x4000);
    assert_eq!(
        tasks.stack,
        TaskStack { ptr: VirtAddr::from_usize(0x8000), size: 0x4000, align: TASK_STACK_ALIGN, borrowed: true },
    );
    assert_eq!(tasks.stack, main_task_stack(VirtAddr::from_usize(0x8000), 0x4000));
    let main = system.task(tasks.current);
    assert_eq!((main.role, main.state, main.on_cpu), (TaskRole::Main, TaskState::Running, true));
    let idle = system.task(tasks.idle);
    assert_eq!((idle.role, idle.state, idle.on_cpu), (TaskRole::Idle, TaskState::Ready, false));
    assert_eq!(idle.cpumask, AxCpuMask::one_shot(0));
    let gc = system.task(tasks.gc);
    assert_eq!((gc.role, gc.state), (TaskRole::Gc, TaskState::Ready));
    assert_eq!(gc.cpumask, AxCpuMask::one_shot(0));
    assert_eq!(system.ready_tasks(0), 1);
    assert_eq!(system.cpu(0).activity, RUN_QUEUE_ACTIVITY_BUSY);
    assert!(run_queue_accepts_tasks(&system, 0, 0));
    assert_eq!(system.pick_next_task(0), Some(tasks.gc));
}

#[test]
fn another_cpu_boots_into_its_idle_task() {
    let mut system = System::new(2);
    init(&mut system, 0, VirtAddr::from_usize(0x8000), 0x4000);
    let tasks = init_secondary(&mut system, 1, VirtAddr::from_usize(0xc000), 0x2000);
    assert_eq!(tasks.current, tasks.idle);
    assert_eq!(
        tasks.stack,
        TaskStack { ptr: VirtAddr::from_usize(0xc000), size: 0x2000, align: TASK_STACK_ALIGN, borrowed: true },
    );
    let idle = system.task(tasks.idle);
    assert_eq!((idle.role, idle.state, idle.on_cpu), (TaskRole::Idle, TaskState::Running, true));
    assert_eq!(idle.cpumask, AxCpuMask::full());
    assert_eq!(system.cpu(1).activity, RUN_QUEUE_ACTIVITY_IDLE);
    assert_eq!(system.ready_tasks(1), 1);
    assert!(!run_queue_accepts_tasks(&system, 1, 0), "the CPU takes no interrupts yet");
    system.set_ipi_ready(1, true);
    assert!(run_queue_accepts_tasks(&system, 1, 0));
    assert!(!run_queue_accepts_tasks(&system, 2, 0));
}

#[test]
fn roles_have_names() {
    assert_eq!(TaskRole::Main.name(), Some("main"));
    assert_eq!(TaskRole::Idle.name(), Some("idle"));
    assert_eq!(TaskRole::Gc.name(), Some("gc"));
    assert_eq!(TaskRole::Migration(3).name(), Some("migration-task"));
    assert_eq!(TaskRole::Worker.name(), None);
}

#[test]
fn a_load_counts_queued_and_running_tasks() {
    let (mut system, _) = booted(2);
    assert_eq!(run_queue_runnable_load(&system, 0), 1);
    assert_eq!(run_queue_runnable_load(&system, 1), 0);
    let t = worker(&mut system, TaskState::Ready);
    on(1).add_task(&mut system, t, 0);
    assert_eq!(run_queue_runnable_load(&system, 1), 1);
}

#[test]
fn an_idle_cpu_is_claimed_once() {
    let (mut system, _) = booted(2);
    assert!(!try_claim_idle_run_queue(&mut system, 0), "CPU 0 is busy");
    assert!(try_claim_idle_run_queue(&mut system, 1));
    assert_eq!(system.cpu(1).activity, RUN_QUEUE_ACTIVITY_RESERVED);
    assert!(!try_claim_idle_run_queue(&mut system, 1));
    release_idle_run_queue_reservation(&mut system, 1);
    assert_eq!(system.cpu(1).activity, RUN_QUEUE_ACTIVITY_IDLE);
    release_idle_run_queue_reservation(&mut system, 0);
    assert_eq!(system.cpu(0).activity, RUN_QUEUE_ACTIVITY_BUSY);
    let t = worker(&mut system, TaskState::Ready);
    on(1).add_task(&mut system, t, 0);
    assert!(!try_claim_idle_run_queue(&mut system, 1), "a queued task makes the CPU busy");
}

#[test]
fn new_tasks_spread_over_idle_cpus_first() {
    let (mut system, _) = booted(3);
    let mut placed = Vec::new();
    for _ in 0..3 {
        let t = worker(&mut system, TaskState::Ready);
        let mut run_queue = select_new_task_run_queue(&mut system, t, 0);
        placed.push((run_queue.cpu_id, run_queue.idle_reservation));
        run_queue.add_task(&mut system, t, 0);
        run_queue.release(&mut system);
    }
    assert_eq!(placed, vec![(1, true), (2, true), (0, false)]);
    assert_eq!(system.cpu(1).activity, RUN_QUEUE_ACTIVITY_RESERVED, "committed, not returned");
    assert!(system.cpu(1).reschedule_pending);
    assert_eq!((system.next_idle_run_queue(), system.next_run_queue()), (3, 3));
}

#[test]
fn a_wake_returns_to_an_idle_last_cpu() {
    let (mut system, _) = booted(3);
    let mut info = TaskInner::new(TaskRole::Worker);
    info.state = TaskState::Blocked;
    info.cpu_id = 2;
    let t = system.spawn(info);
    let mut run_queue = select_wake_run_queue(&mut system, t, 0);
    assert_eq!((run_queue.cpu_id, run_queue.idle_reservation), (2, true));
    assert_eq!(run_queue.unblock_task(&mut system, t, true, 0), Some(2));
    assert!(!run_queue.idle_reservation);
    run_queue.release(&mut system);
    assert_eq!(system.cpu(2).activity, RUN_QUEUE_ACTIVITY_RESERVED);
    assert_eq!(system.task(t).cpu_id, 2);
    assert_eq!(system.ready_tasks(2), 1);
}

#[test]
fn a_failed_wake_gives_the_reservation_back() {
    let (mut system, _) = booted(2);
    let t = worker(&mut system, TaskState::Blocked);
    let mut first = select_wake_run_queue(&mut system, t, 0);
    assert_eq!((first.cpu_id, first.idle_reservation), (1, true));
    on(0).unblock_task(&mut system, t, false, 0);
    assert_eq!(first.unblock_task(&mut system, t, false, 0), None);
    assert!(first.idle_reservation);
    first.release(&mut system);
    assert_eq!(system.cpu(1).activity, RUN_QUEUE_ACTIVITY_IDLE);
    assert_eq!((system.ready_tasks(0), system.ready_tasks(1)), (1, 0));
}

#[test]
fn placement_without_a_ready_cpu_is_refused() {
    let (mut system, _) = booted(2);
    let far = AxCpuMask::one_shot(5);
    assert_eq!(find_new_task_run_queue_index(&system, far, 0), None);
    assert_eq!(find_wake_run_queue_index(&system, far, 1, 0), None);
    assert_eq!(find_migration_run_queue_index(&system, far, 0), None);
    system.set_ipi_ready(1, false);
    assert_eq!(find_migration_run_queue_index(&system, AxCpuMask::one_shot(1), 0), None);
    assert_eq!(find_migration_run_queue_index(&system, AxCpuMask::one_shot(1), 1), Some(1));
}

#[test]
fn migrations_take_turns() {
    let (mut system, _) = booted(3);
    let all = AxCpuMask::full();
    assert_eq!(select_run_queue_index(&mut system, all, 0), 0);
    assert_eq!(select_run_queue_index(&mut system, all, 0), 1);
    assert_eq!(select_run_queue_index(&mut system, all, 0), 2);
    assert_eq!(select_run_queue_index(&mut system, all, 0), 0);
    let t = worker(&mut system, TaskState::Ready);
    let run_queue = select_migration_run_queue(&mut system, t, 0);
    assert_eq!((run_queue.cpu_id, run_queue.idle_reservation), (1, false));
    assert_eq!(system.cpu(1).activity, RUN_QUEUE_ACTIVITY_IDLE, "nothing is claimed");
}

#[test]
fn yielding_goes_round() {
    let (mut system, main) = booted(1);
    let a = worker(&mut system, TaskState::Ready);
    let b = worker(&mut system, TaskState::Ready);
    assert_eq!(on(0).add_task(&mut system, a, 0), None);
    assert_eq!(on(0).add_task(&mut system, b, 0), None);
    let mut order = Vec::new();
    for _ in 0..4 {
        let run_queue = current_run_queue(&system, 0);
        let switch = run_queue.yield_current(&mut system).unwrap();
        assert_eq!(switch.prev, run_queue.current_task);
        assert_eq!(switch.prev_state, TaskState::Ready);
        assert_eq!(clear_prev_task_on_cpu(&mut system, 0), None);
        assert!(!system.task(switch.prev).on_cpu && system.task(switch.next).on_cpu);
        order.push(switch.next);
    }
    assert_eq!(order, vec![a, b, main, a]);
}

#[test]
fn yielding_alone_needs_no_switch() {
    let (mut system, main) = booted(1);
    assert_eq!(current_run_queue(&system, 0).yield_current(&mut system), None);
    assert_eq!(system.task(main).state, TaskState::Running);
    assert_eq!(system.ready_tasks(0), 0);
}

#[test]
fn an_idle_task_is_never_queued() {
    let (mut system, _) = booted(2);
    let idle = system.current_task(1);
    assert_eq!(current_run_queue(&system, 1).yield_current(&mut system), None);
    assert_eq!(system.ready_tasks(1), 0);
    let t = running_worker(&mut system, 1);
    assert_eq!(system.task(idle).state, TaskState::Ready);
    assert_eq!(system.cpu(1).activity, RUN_QUEUE_ACTIVITY_BUSY);
    let mut woke = true;
    system.set_preempt_disable_count(t, 2);
    let switch = current_run_queue(&system, 1).future_blocked_resched(&mut system, &mut woke);
    assert_eq!(
        switch,
        Some(ContextSwitch { prev: t, next: idle, prev_state: TaskState::Blocked }),
    );
    assert!(!woke);
    assert_eq!(system.cpu(1).activity, RUN_QUEUE_ACTIVITY_IDLE);
}

#[test]
fn going_idle_keeps_a_reservation() {
    let (mut system, _) = booted(2);
    assert!(try_claim_idle_run_queue(&mut system, 1));
    assert_eq!(current_run_queue(&system, 1).yield_current(&mut system), None);
    assert_eq!(system.cpu(1).activity, RUN_QUEUE_ACTIVITY_RESERVED);
    running_worker(&mut system, 1);
    assert_eq!(system.cpu(1).activity, RUN_QUEUE_ACTIVITY_BUSY);
}

#[test]
fn a_slice_is_used_up_tick_by_tick() {
    let (mut system, main) = booted(1);
    let other = worker(&mut system, TaskState::Ready);
    on(0).add_task(&mut system, other, 0);
    let run_queue = current_run_queue(&system, 0);
    for _ in 0..MAX_TIME_SLICE - 1 {
        run_queue.scheduler_timer_tick(&mut system);
        assert!(!system.task(main).preempt_pending);
    }
    system.set_preempt_disable_count(main, 1);
    assert_eq!(
        run_queue.preempt_resched(&mut system),
        None,
        "a preempted task with time left is the next one to run",
    );
    run_queue.scheduler_timer_tick(&mut system);
    assert!(system.task(main).preempt_pending);
    let switch = run_queue.preempt_resched(&mut system);
    assert_eq!(switch.map(|switch| switch.next), Some(other));
}

#[test]
fn an_idle_task_has_no_slice() {
    let (mut system, _) = booted(2);
    let idle = system.current_task(1);
    for _ in 0..MAX_TIME_SLICE + 1 {
        current_run_queue(&system, 1).scheduler_timer_tick(&mut system);
    }
    assert!(!system.task(idle).preempt_pending);
}

#[test]
fn preemption_waits_for_the_last_guard() {
    let (mut system, main) = booted(1);
    let other = worker(&mut system, TaskState::Ready);
    on(0).add_task(&mut system, other, 0);
    let run_queue = current_run_queue(&system, 0);
    system.set_preempt_disable_count(main, 2);
    assert_eq!(run_queue.preempt_resched(&mut system), None);
    assert!(system.task(main).preempt_pending);
    assert_eq!(run_queue.force_resched(&mut system), None);
    assert!(system.task(main).force_resched_pending);
    assert_eq!(system.task(main).state, TaskState::Running);
    system.set_preempt_disable_count(main, 1);
    assert_eq!(run_queue.force_resched(&mut system).map(|switch| switch.next), Some(other));
}

#[test]
fn a_delivered_request_makes_the_current_task_give_way() {
    let (mut system, _) = booted(2);
    let t = worker(&mut system, TaskState::Ready);
    assert_eq!(on(1).add_task(&mut system, t, 0), Some(1));
    let switch = request_current_reschedule(&mut system, 1).unwrap();
    assert_eq!(switch.next, t);
    assert!(!system.cpu(1).reschedule_pending);
}

#[test]
fn a_local_wake_asks_the_waker_to_give_way() {
    let (mut system, main) = booted(2);
    let a = worker(&mut system, TaskState::Blocked);
    let b = worker(&mut system, TaskState::Blocked);
    assert_eq!(on(0).unblock_task(&mut system, a, false, 0), None);
    assert!(!system.task(main).preempt_pending);
    assert_eq!(on(0).unblock_task(&mut system, b, true, 0), None);
    assert!(system.task(main).preempt_pending);
    assert_eq!(system.ready_tasks(0), 2);
    system.set_preempt_pending(main, false);
    let c = worker(&mut system, TaskState::Blocked);
    assert_eq!(on(1).unblock_task(&mut system, c, true, 0), Some(1));
    assert!(!system.task(main).preempt_pending, "the request is ignored for a remote CPU");
    let d = worker(&mut system, TaskState::Blocked);
    current_run_queue(&system, 0).unblock_task(&mut system, d, true);
    assert!(system.task(main).preempt_pending);
    assert_eq!(system.task(d).state, TaskState::Ready);
}

#[test]
fn a_task_that_waits_is_woken_from_the_queue() {
    let (mut system, _) = booted(2);
    let t = running_worker(&mut system, 1);
    let mut wait_queue = VecDeque::new();
    system.set_preempt_disable_count(t, 2);
    let switch = current_run_queue(&system, 1).blocked_resched(&mut system, &mut wait_queue);
    assert_eq!(switch.map(|switch| switch.prev_state), Some(TaskState::Blocked));
    assert_eq!(wait_queue, VecDeque::from(vec![t]));
    assert!(system.task(t).in_wait_queue);
    assert_eq!(clear_prev_task_on_cpu(&mut system, 1), None);
    system.set_in_wait_queue(t, false);
    assert_eq!(on(0).unblock_task(&mut system, t, false, 0), None);
    assert_eq!(system.task(t).cpu_id, 0);
    assert_eq!(system.pick_next_task(0), Some(t));
}

#[test]
fn a_task_has_one_wait_queue_entry() {
    let (mut system, _) = booted(2);
    let t = running_worker(&mut system, 1);
    system.set_preempt_disable_count(t, 2);
    system.set_in_wait_queue(t, true);
    let mut wait_queue = VecDeque::from(vec![t]);
    current_run_queue(&system, 1).blocked_resched(&mut system, &mut wait_queue);
    assert_eq!(wait_queue, VecDeque::from(vec![t]));
}

#[test]
fn a_wake_during_the_switch_is_completed_by_the_owner() {
    let (mut system, _) = booted(3);
    let t = running_worker(&mut system, 1);
    let mut wait_queue = VecDeque::new();
    system.set_preempt_disable_count(t, 2);
    let run_queue = current_run_queue(&system, 1);
    run_queue.enter_wait_queue(&mut system, &mut wait_queue);
    // CPU 0 wakes the task up, for CPU 2, before CPU 1 has switched away.
    assert_eq!(on(2).unblock_task(&mut system, t, false, 0), None);
    assert!(system.task(t).wake_stashed && system.task(t).state == TaskState::Ready);
    assert_eq!(on(0).unblock_task(&mut system, t, false, 0), None, "it is not blocked any more");
    assert_eq!((system.ready_tasks(0), system.ready_tasks(2)), (0, 0));
    let switch = system.resched(1).unwrap();
    assert_eq!((switch.prev, switch.prev_state), (t, TaskState::Ready));
    assert_eq!(clear_prev_task_on_cpu(&mut system, 1), Some(2));
    assert!(!system.task(t).wake_stashed && !system.task(t).on_cpu);
    assert_eq!(system.ready_tasks(2), 1);
    assert_eq!(system.pick_next_task(2), Some(t));
}

#[test]
fn a_deferred_wake_for_the_owner_forces_its_current_task() {
    let (mut system, _) = booted(2);
    let t = running_worker(&mut system, 1);
    let mut woke = true;
    system.set_preempt_disable_count(t, 2);
    current_run_queue(&system, 1).await_future(&mut system, &mut woke);
    assert!(!woke);
    assert_eq!(on(1).unblock_task(&mut system, t, false, 0), None);
    system.resched(1);
    assert_eq!(clear_prev_task_on_cpu(&mut system, 1), None);
    let idle = system.current_task(1);
    assert!(system.task(idle).force_resched_pending);
    assert_eq!(system.ready_tasks(1), 1, "the drained task counts as queued");
}

#[test]
fn a_task_may_wake_itself_up() {
    let (mut system, _) = booted(2);
    let t = running_worker(&mut system, 1);
    let mut woke = true;
    system.set_preempt_disable_count(t, 2);
    let run_queue = current_run_queue(&system, 1);
    run_queue.await_future(&mut system, &mut woke);
    run_queue.unblock_task(&mut system, t, false);
    assert!(!system.task(t).wake_stashed);
    assert_eq!(system.resched(1), None);
    assert_eq!(system.task(t).state, TaskState::Running);
}

#[test]
fn sleeping_lasts_until_the_deadline() {
    let (mut system, _) = booted(2);
    let t = running_worker(&mut system, 1);
    let run_queue = current_run_queue(&system, 1);
    assert_eq!(run_queue.sleep_until(&mut system, 10, 10), None);
    assert_eq!(system.task(t).state, TaskState::Running);
    let switch = run_queue.sleep_until(&mut system, 9, 10).unwrap().unwrap();
    assert_eq!((switch.prev, switch.prev_state), (t, TaskState::Blocked));
}

#[test]
fn round_robin_has_no_priorities() {
    let (mut system, _) = booted(1);
    assert!(!current_run_queue(&system, 0).set_current_priority(&mut system, 3));
}

#[test]
fn a_task_leaves_a_cpu_that_its_affinity_forbids() {
    let (mut system, _) = booted(2);
    let t = running_worker(&mut system, 0);
    system.set_cpumask(t, AxCpuMask::one_shot(1));
    let switch = current_run_queue(&system, 0).yield_current(&mut system).unwrap();
    assert_eq!((switch.prev, switch.prev_state), (t, TaskState::Ready));
    assert_eq!(system.task(switch.next).role, TaskRole::Migration(t));
    assert_eq!(clear_prev_task_on_cpu(&mut system, 0), None);
    // A request that is still pending does not hold the migration up.
    run_queue::dispatch::kick_remote_cpu(&mut system, 1, 0);
    assert_eq!(migrate_entry(&mut system, t, 0), (1, Some(1)));
    assert_eq!(system.task(t).cpu_id, 1);
    assert_eq!(system.pick_next_task(1), Some(t));
}

#[test]
fn a_preempted_task_leaves_a_forbidden_cpu_too() {
    let (mut system, _) = booted(2);
    let t = running_worker(&mut system, 0);
    system.set_cpumask(t, AxCpuMask::one_shot(1));
    system.set_preempt_disable_count(t, 1);
    let switch = current_run_queue(&system, 0).preempt_resched(&mut system).unwrap();
    assert_eq!(system.task(switch.next).role, TaskRole::Migration(t));
}

#[test]
fn an_exited_task_is_left_to_the_gc_task() {
    let (mut system, _) = booted(1);
    let t = running_worker(&mut system, 0);
    let run_queue = current_run_queue(&system, 0);
    assert_eq!(run_queue.exit_current(&mut system, 7), ExitAction::NotifyExit(7));
    assert_eq!(system.task(t).state, TaskState::Exited);
    assert_eq!(run_queue.retire_current(&mut system), ExitAction::NotifyGc(0));
    let switch = system.resched(0).unwrap();
    assert_eq!((switch.prev, switch.prev_state), (t, TaskState::Exited));
    assert_eq!(system.exited_tasks(0), 1);
    assert_eq!(gc_round(&mut system, 0, |_| 2), Vec::<usize>::new());
    assert_eq!(system.exited_tasks(0), 1);
    assert_eq!(gc_round(&mut system, 0, |_| 1), vec![t]);
    assert_eq!(system.exited_tasks(0), 0);
}

#[test]
fn the_main_task_takes_the_system_down() {
    let (mut system, _) = booted(1);
    let t = running_worker(&mut system, 0);
    let run_queue = current_run_queue(&system, 0);
    run_queue.exit_current(&mut system, 0);
    run_queue.retire_current(&mut system);
    system.resched(0);
    clear_prev_task_on_cpu(&mut system, 0);
    assert_eq!(system.exited_tasks(0), 1);
    assert_eq!(
        current_run_queue(&system, 0).exit_current(&mut system, 1),
        ExitAction::SystemOff,
    );
    assert_eq!(system.exited_tasks(0), 0);
    assert_eq!(system.task(t).state, TaskState::Exited);
}

#[test]
fn a_gc_round_keeps_the_order_of_what_stays() {
    let (mut system, _) = booted(1);
    let mut exited = Vec::new();
    for _ in 0..4 {
        let t = running_worker(&mut system, 0);
        let run_queue = current_run_queue(&system, 0);
        run_queue.exit_current(&mut system, 0);
        run_queue.retire_current(&mut system);
        system.resched(0);
        clear_prev_task_on_cpu(&mut system, 0);
        exited.push(t);
    }
    let held = exited.clone();
    let dropped = gc_round(&mut system, 0, move |t| if t == held[1] || t == held[3] { 2 } else { 1 });
    assert_eq!(dropped, vec![exited[0], exited[2]]);
    assert_eq!(gc_round(&mut system, 0, |_| 1), vec![exited[1], exited[3]]);
}
