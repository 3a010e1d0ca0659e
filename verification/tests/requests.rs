use std::cell::Cell;

use ax_memory_addr::VirtAddr;
use run_queue::dispatch::{
    clear_remote_reschedule_pending_for_current_cpu, force_kick_remote_cpu, kick_remote_cpu,
};
use run_queue::reschedule::{
    force_remote_reschedule_request, request_remote_reschedule_if_not_pending,
};
use run_queue::{init, init_secondary, request_current_reschedule, System};

#[test]
fn remote_reschedule_request_is_coalesced_and_forced() {
    const THIS_CPU: usize = 0;
    const REMOTE_CPU: usize = 1;

    let mut system = System::new(2);
    init(&mut system, THIS_CPU, VirtAddr::from_usize(0x8000), 0x4000);
    let remote = init_secondary(&mut system, REMOTE_CPU, VirtAddr::from_usize(0xc000), 0x4000);
    let mut requests = 0;
    let mut kick = |system: &mut System| {
        if kick_remote_cpu(system, REMOTE_CPU, THIS_CPU).is_some() {
            requests += 1;
        }
        requests
    };

    assert_eq!(
        kick(&mut system),
        1,
        "remote CPU kicks must enqueue a scheduler-visible reschedule request",
    );
    assert_eq!(
        kick(&mut system),
        1,
        "remote CPU kicks should coalesce identical pending reschedule requests",
    );

    clear_remote_reschedule_pending_for_current_cpu(&mut system, REMOTE_CPU);
    assert_eq!(
        kick(&mut system),
        2,
        "remote CPU kicks must be accepted again after the pending bit is cleared",
    );

    let curr = remote.current;
    system.set_preempt_disable_count(curr, 1);
    system.set_preempt_pending(curr, false);
    system.set_force_resched_pending(curr, false);
    assert!(system.cpu(REMOTE_CPU).reschedule_pending);

    assert_eq!(request_current_reschedule(&mut system, REMOTE_CPU), None);

    assert!(
        system.task(curr).force_resched_pending,
        "remote IPI reschedule must request forced rotation",
    );
    assert!(
        !system.task(curr).preempt_pending,
        "remote IPI reschedule must not rely on ordinary RR preemption",
    );
    assert!(
        !system.cpu(REMOTE_CPU).reschedule_pending,
        "remote IPI callback must clear the coalescing bit when it is delivered",
    );

    system.set_force_resched_pending(curr, false);
    system.set_preempt_pending(curr, false);

    assert_eq!(
        kick(&mut system),
        3,
        "a delivered remote IPI must allow a later kick to enqueue a new callback",
    );
}

#[test]
fn forced_remote_reschedule_bypasses_stale_pending() {
    let mut pending = true;
    let requests = Cell::new(0);

    force_remote_reschedule_request(&mut pending, || {
        requests.set(requests.get() + 1);
    });

    assert_eq!(
        requests.get(),
        1,
        "forced remote kicks must bypass stale pending coalescing",
    );

    request_remote_reschedule_if_not_pending(&mut pending, || {
        requests.set(requests.get() + 1);
    });

    assert_eq!(
        requests.get(),
        1,
        "ordinary remote kicks should still coalesce stale pending requests",
    );

    force_remote_reschedule_request(&mut pending, || {
        requests.set(requests.get() + 1);
    });

    assert_eq!(
        requests.get(),
        2,
        "forced remote kicks must not coalesce required migration reschedules",
    );
}

#[test]
fn an_ordinary_request_is_sent_once() {
    let mut pending = false;
    let requests = Cell::new(0);
    assert!(request_remote_reschedule_if_not_pending(&mut pending, || {
        requests.set(requests.get() + 1);
    }));
    assert!(pending);
    assert!(!request_remote_reschedule_if_not_pending(&mut pending, || {
        requests.set(requests.get() + 1);
    }));
    assert_eq!(requests.get(), 1);
}

#[test]
fn a_cpu_never_kicks_itself() {
    let mut system = System::new(2);
    assert_eq!(kick_remote_cpu(&mut system, 1, 1), None);
    assert_eq!(force_kick_remote_cpu(&mut system, 1, 1), None);
    assert!(!system.cpu(1).reschedule_pending);
    assert_eq!(force_kick_remote_cpu(&mut system, 1, 0), Some(1));
    assert_eq!(force_kick_remote_cpu(&mut system, 1, 0), Some(1));
    assert_eq!(kick_remote_cpu(&mut system, 1, 0), None);
}

#[test]
fn a_request_to_a_cpu_without_a_task_is_only_noted_as_delivered() {
    let mut system = System::new(2);
    assert_eq!(kick_remote_cpu(&mut system, 1, 0), Some(1));
    assert_eq!(request_current_reschedule(&mut system, 1), None);
    assert!(!system.cpu(1).reschedule_pending);
}
