//! The activity hint of a CPU: busy, idle, or reserved by one pending enqueue.
//!
//! This is a placement hint, not scheduler state. The reserved state prevents
//! concurrent fork and wake bursts from selecting the same idle CPU, while
//! still allowing a failed wake-up to return its reservation safely. Each
//! function here is one atomic step on the hint.
use vstd::prelude::*;

verus! {

/// A non-idle CPU whose current task contributes one unit of runnable load.
pub const RUN_QUEUE_ACTIVITY_BUSY: u8 = 0;

/// An idle CPU that can be atomically reserved by one placement operation.
pub const RUN_QUEUE_ACTIVITY_IDLE: u8 = 1;

/// An idle CPU reserved for a task that has not committed its enqueue yet.
pub const RUN_QUEUE_ACTIVITY_RESERVED: u8 = 2;

/// The hint after a step that moves it from `from` to `to` and leaves any other
/// value alone.
pub open spec fn moved(activity: u8, from: u8, to: u8) -> u8 {
    if activity == from {
        to
    } else {
        activity
    }
}

/// The hint once the CPU has switched to a task. A reservation made while the
/// CPU was idle outlives a switch to the idle task.
pub open spec fn activity_after_switch(activity: u8, next_is_idle: bool) -> u8 {
    if next_is_idle {
        moved(activity, RUN_QUEUE_ACTIVITY_BUSY, RUN_QUEUE_ACTIVITY_IDLE)
    } else {
        RUN_QUEUE_ACTIVITY_BUSY
    }
}

/// Moves the hint from `from` to `to`; reports whether it was at `from`.
fn exchange(activity: &mut u8, from: u8, to: u8) -> (done: bool)
    ensures
        done == (*old(activity) == from),
        *final(activity) == moved(*old(activity), from, to),
{
    if *activity == from {
        *activity = to;
        true
    } else {
        false
    }
}

/// Returns the reservation of an idle CPU; reports whether there was one.
pub fn release_idle_run_queue_reservation_with(activity: &mut u8) -> (released: bool)
    ensures
        released == (*old(activity) == RUN_QUEUE_ACTIVITY_RESERVED),
        *final(activity) == moved(
            *old(activity),
            RUN_QUEUE_ACTIVITY_RESERVED,
            RUN_QUEUE_ACTIVITY_IDLE,
        ),
{
    exchange(activity, RUN_QUEUE_ACTIVITY_RESERVED, RUN_QUEUE_ACTIVITY_IDLE)
}

/// Reserves an idle CPU; reports whether it was idle.
pub fn reserve_idle_run_queue_with(activity: &mut u8) -> (reserved: bool)
    ensures
        reserved == (*old(activity) == RUN_QUEUE_ACTIVITY_IDLE),
        *final(activity) == moved(
            *old(activity),
            RUN_QUEUE_ACTIVITY_IDLE,
            RUN_QUEUE_ACTIVITY_RESERVED,
        ),
{
    exchange(activity, RUN_QUEUE_ACTIVITY_IDLE, RUN_QUEUE_ACTIVITY_RESERVED)
}

/// Records that the CPU switches to a task.
pub fn record_switch_with(activity: &mut u8, next_is_idle: bool)
    ensures
        *final(activity) == activity_after_switch(*old(activity), next_is_idle),
{
    if next_is_idle {
        exchange(activity, RUN_QUEUE_ACTIVITY_BUSY, RUN_QUEUE_ACTIVITY_IDLE);
    } else {
        *activity = RUN_QUEUE_ACTIVITY_BUSY;
    }
}

/// A reservation is exclusive: reserving an idle CPU leaves nothing for a
/// second reservation to take, and going idle again does not give it back.
pub proof fn reservation_is_exclusive(activity: u8)
    requires
        activity == RUN_QUEUE_ACTIVITY_IDLE,
    ensures
        ({
            let reserved = moved(activity, RUN_QUEUE_ACTIVITY_IDLE, RUN_QUEUE_ACTIVITY_RESERVED);
            &&& reserved != RUN_QUEUE_ACTIVITY_IDLE
            &&& activity_after_switch(reserved, true) == reserved
        }),
{
}

/// Returning a reservation undoes it.
pub proof fn release_undoes_reservation(activity: u8)
    requires
        activity != RUN_QUEUE_ACTIVITY_RESERVED,
    ensures
        moved(
            moved(activity, RUN_QUEUE_ACTIVITY_IDLE, RUN_QUEUE_ACTIVITY_RESERVED),
            RUN_QUEUE_ACTIVITY_RESERVED,
            RUN_QUEUE_ACTIVITY_IDLE,
        ) == activity,
{
}

/// A reservation that the CPU has consumed by switching to a task cannot be
/// returned any more: a late release leaves the busy CPU busy.
pub proof fn consumed_reservation_is_not_returned(activity: u8)
    ensures
        moved(
            activity_after_switch(activity, false),
            RUN_QUEUE_ACTIVITY_RESERVED,
            RUN_QUEUE_ACTIVITY_IDLE,
        ) == RUN_QUEUE_ACTIVITY_BUSY,
{
}

} // verus!
