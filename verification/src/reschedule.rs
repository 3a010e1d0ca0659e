//! Requests to reschedule on a remote CPU.
//!
//! Each CPU has one pending flag. An ordinary request is coalesced with one that
//! is still pending; a forced request is always sent. The flag is cleared when
//! the request is delivered.
use vstd::prelude::*;

verus! {

/// Marks a request as pending; reports whether one has to be sent.
pub fn mark_reschedule_pending(pending: &mut bool) -> (send: bool)
    ensures
        send == !*old(pending),
        *final(pending),
{
    let send = !*pending;
    *pending = true;
    send
}

/// Sends a request unless one is already pending; reports whether it was sent.
pub fn request_remote_reschedule_if_not_pending<F: FnOnce()>(
    pending: &mut bool,
    request: F,
) -> (sent: bool)
    requires
        !*old(pending) ==> call_requires(request, ()),
    ensures
        sent == !*old(pending),
        sent ==> call_ensures(request, (), ()),
        *final(pending),
{
    let send = mark_reschedule_pending(pending);
    if send {
        request();
    }
    send
}

/// Sends a request whether or not one is pending.
pub fn force_remote_reschedule_request<F: FnOnce()>(pending: &mut bool, request: F)
    requires
        call_requires(request, ()),
    ensures
        call_ensures(request, (), ()),
        *final(pending),
{
    *pending = true;
    request();
}

} // verus!
