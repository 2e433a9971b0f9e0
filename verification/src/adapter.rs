//! The notification adapter: a reference-counted object the transfer
//! service invokes directly to deliver job events.
//!
//! The service may call it from any thread, at any time, even after the
//! registrant is done.  The adapter therefore lives by its reference count
//! alone and is destroyed exactly when the count reaches zero; each event
//! is dispatched to an optional handler inside a fault boundary that turns
//! any fault into a plain status code rather than letting it cross into
//! service-owned frames.

use vstd::prelude::*;

use crate::monitor::MonitorVars;

verus! {

/// The status code for success.
pub const S_OK: i32 = 0;

/// The generic failure status an adapter reports when a handler faulted or
/// its owner is gone.
pub const E_FAIL: i32 = -2147467259;

/// The reference count of one adapter.  A fresh adapter carries the
/// creator's single reference; every handoff adds one and every release
/// removes one, and the adapter is destroyed exactly at zero.
#[derive(Clone, Copy, Debug, PartialEq, Eq, Structural)]
pub struct NotificationAdapter {
    pub rc: u32,
}

impl NotificationAdapter {
    /// Whether the adapter still exists and may be invoked.
    pub open spec fn spec_can_invoke(self) -> bool {
        self.rc > 0
    }

    pub fn new() -> (r: NotificationAdapter)
        ensures
            r.rc == 1,
    {
        NotificationAdapter { rc: 1 }
    }

    /// A handoff: one more holder.  Returns the new count.
    pub fn add_ref(&mut self) -> (r: u32)
        requires
            old(self).rc >= 1,
            old(self).rc < 0xffff_ffff,
        ensures
            final(self).rc == old(self).rc + 1,
            r == final(self).rc,
    {
        self.rc = self.rc + 1;
        self.rc
    }

    /// A release: one fewer holder.  Returns the new count; zero means the
    /// adapter was just destroyed.
    pub fn release(&mut self) -> (r: u32)
        requires
            old(self).rc >= 1,
        ensures
            final(self).rc == old(self).rc - 1,
            r == final(self).rc,
            r == 0 <==> !final(self).spec_can_invoke(),
    {
        self.rc = self.rc - 1;
        self.rc
    }

    pub fn can_invoke(&self) -> (r: bool)
        ensures
            r == self.spec_can_invoke(),
    {
        self.rc > 0
    }
}

/// What happened inside a handler at the fault boundary.
#[derive(Clone, Copy, Debug, PartialEq, Eq, Structural)]
pub enum HandlerOutcome {
    Succeeded,
    Failed(i32),
    Panicked,
}

/// The status the adapter hands back to the service for one event: success
/// when no handler is registered for the event or the handler succeeded;
/// the handler's own status when it failed; the generic failure when it
/// faulted.  Success suppresses the service's fallback notification paths,
/// failure lets them run.
pub fn handler_status(handler_present: bool, outcome: HandlerOutcome) -> (r: i32)
    ensures
        !handler_present ==> r == S_OK,
        handler_present ==> r == (match outcome {
            HandlerOutcome::Succeeded => S_OK,
            HandlerOutcome::Failed(hr) => hr,
            HandlerOutcome::Panicked => E_FAIL,
        }),
{
    if !handler_present {
        S_OK
    } else {
        match outcome {
            HandlerOutcome::Succeeded => S_OK,
            HandlerOutcome::Failed(hr) => hr,
            HandlerOutcome::Panicked => E_FAIL,
        }
    }
}

/// A monitor's notification handler: if the monitor still exists (its weak
/// handle upgraded), mark it notified and report success; if the owner is
/// gone, touch nothing and report the generic failure.
pub fn deliver_notification(owner_alive: bool, vars: &mut MonitorVars) -> (r: Result<(), i32>)
    ensures
        owner_alive ==> *final(vars) == (MonitorVars { notified: true, ..*old(vars) }) && r is Ok,
        !owner_alive ==> *final(vars) == *old(vars) && (r matches Err(hr) && hr == E_FAIL),
{
    if owner_alive {
        vars.notified = true;
        Ok(())
    } else {
        Err(E_FAIL)
    }
}

/// One release applied to a count; a destroyed adapter stays destroyed.
pub open spec fn spec_release_once(rc: nat) -> nat {
    if rc > 0 {
        (rc - 1) as nat
    } else {
        0
    }
}

/// `k` releases applied to a count.
pub open spec fn spec_release_n(rc: nat, k: nat) -> nat
    decreases k,
{
    if k == 0 {
        rc
    } else {
        spec_release_once(spec_release_n(rc, (k - 1) as nat))
    }
}

pub proof fn lemma_release_n_linear(rc: nat, k: nat)
    requires
        k <= rc,
    ensures
        spec_release_n(rc, k) == rc - k,
    decreases k,
{
    if k > 0 {
        lemma_release_n_linear(rc, (k - 1) as nat);
    }
}

/// Reference counting is exact: with `n` handoffs outstanding, `n`
/// releases destroy the adapter and no further handler invocation is
/// possible, while `n - 1` releases leave one reference and the adapter
/// still invocable.
pub proof fn lemma_refcount_exact(n: nat)
    requires
        n >= 1,
    ensures
        spec_release_n(n, n) == 0,
        !(NotificationAdapter { rc: spec_release_n(n, n) as u32 }).spec_can_invoke(),
        spec_release_n(n, (n - 1) as nat) == 1,
        (NotificationAdapter { rc: spec_release_n(n, (n - 1) as nat) as u32 }).spec_can_invoke(),
{
    lemma_release_n_linear(n, n);
    lemma_release_n_linear(n, (n - 1) as nat);
}

} // verus!
