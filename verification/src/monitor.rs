//! The monitor engine's scheduling decisions.
//!
//! A monitor merges push notifications with interval polling into bounded-
//! latency snapshots.  Its shared state is a small record guarded by the
//! caller's lock and signalled by the caller's condition variable; every
//! decision the engine takes from that state and the clock is a function
//! here, with an exact contract.  Times are plain milliseconds.

use vstd::prelude::*;

verus! {

/// The shared monitor state: how often to report, whether a notification
/// arrived since the last report, and whether the monitor was shut down.
/// The shutdown flag only ever goes from `false` to `true`.
#[derive(Clone, Copy, Debug, PartialEq, Eq, Structural)]
pub struct MonitorVars {
    pub interval_millis: u32,
    pub notified: bool,
    pub shutdown: bool,
}

/// What a poll of the monitor state decides.
#[derive(Clone, Copy, Debug, PartialEq, Eq, Structural)]
pub enum MonitorDecision {
    /// The monitor was shut down: fail "not connected" immediately.
    NotConnected,
    /// The caller's time budget is spent: fail "timeout".
    TimedOut,
    /// A snapshot is due now: first report, notification, or interval over.
    FetchNow,
    /// Nothing due yet: wait on the condition until this time, then poll
    /// again (the wake time is capped by the caller's budget).
    WaitUntil(u64),
}

/// The decision taken from the state and the clock:
/// shutdown wins; then budget exhaustion; then a snapshot is due if there
/// is none yet, a notification arrived, or the wake time
/// `min(last + interval, started + timeout)` has passed; otherwise wait
/// until that wake time.
pub open spec fn spec_monitor_poll(
    vars: MonitorVars,
    last_status_time: Option<u64>,
    started: u64,
    now: u64,
    timeout_millis: u32,
) -> MonitorDecision {
    if vars.shutdown {
        MonitorDecision::NotConnected
    } else if now - started > timeout_millis {
        MonitorDecision::TimedOut
    } else if vars.notified {
        MonitorDecision::FetchNow
    } else {
        match last_status_time {
            None => MonitorDecision::FetchNow,
            Some(last) => {
                let wake = if last + vars.interval_millis <= started + timeout_millis {
                    last + vars.interval_millis
                } else {
                    started + timeout_millis
                };
                if wake < now {
                    MonitorDecision::FetchNow
                } else {
                    MonitorDecision::WaitUntil(wake as u64)
                }
            },
        }
    }
}

pub fn monitor_poll(
    vars: &MonitorVars,
    last_status_time: &Option<u64>,
    started: u64,
    now: u64,
    timeout_millis: u32,
) -> (r: MonitorDecision)
    requires
        started <= now,
        started + timeout_millis < 0x1_0000_0000_0000_0000,
        last_status_time matches Some(last) ==> last + vars.interval_millis
            < 0x1_0000_0000_0000_0000,
    ensures
        r == spec_monitor_poll(*vars, *last_status_time, started, now, timeout_millis),
{
    if vars.shutdown {
        MonitorDecision::NotConnected
    } else if now - started > timeout_millis as u64 {
        MonitorDecision::TimedOut
    } else if vars.notified {
        MonitorDecision::FetchNow
    } else {
        match last_status_time {
            None => MonitorDecision::FetchNow,
            Some(last) => {
                let due = *last + vars.interval_millis as u64;
                let budget = started + timeout_millis as u64;
                let wake = if due <= budget {
                    due
                } else {
                    budget
                };
                if wake < now {
                    MonitorDecision::FetchNow
                } else {
                    MonitorDecision::WaitUntil(wake)
                }
            },
        }
    }
}

/// Leaving the wait loop to take a snapshot consumes the notification.
pub fn monitor_begin_fetch(vars: &mut MonitorVars)
    ensures
        *final(vars) == (MonitorVars { notified: false, ..*old(vars) }),
{
    vars.notified = false;
}

/// Any failing termination path shuts the monitor down; the flag never
/// goes back.  Across the flag's one false-to-true step the caller also
/// restores the job's scheduling priority (`priority_restore_due`).
pub fn monitor_abort(vars: &mut MonitorVars)
    ensures
        *final(vars) == (MonitorVars { shutdown: true, ..*old(vars) }),
{
    vars.shutdown = true;
}

/// The very first poll with time left on the budget fetches immediately:
/// the first status is returned without waiting out an interval.
pub proof fn lemma_first_poll_fetches(vars: MonitorVars, started: u64, now: u64, timeout: u32)
    requires
        !vars.shutdown,
        started <= now,
        now - started <= timeout,
    ensures
        spec_monitor_poll(vars, None, started, now, timeout) == MonitorDecision::FetchNow,
{
}

/// Between snapshots, with no notification, the engine sleeps exactly to
/// the end of the interval (when that falls within the caller's budget):
/// successive statuses are paced one interval apart.
pub proof fn lemma_interval_pacing(
    vars: MonitorVars,
    last: u64,
    started: u64,
    now: u64,
    timeout: u32,
)
    requires
        !vars.shutdown,
        !vars.notified,
        started <= now,
        now - started <= timeout,
        now <= last + vars.interval_millis,
        last + vars.interval_millis <= started + timeout,
        last + vars.interval_millis < 0x1_0000_0000_0000_0000,
    ensures
        spec_monitor_poll(vars, Some(last), started, now, timeout) == MonitorDecision::WaitUntil(
            (last + vars.interval_millis) as u64,
        ),
{
}

/// A notification that arrived inside the interval makes the snapshot due
/// at once: the status is returned near the notification, not at the
/// interval boundary.
pub proof fn lemma_notification_fetches(
    vars: MonitorVars,
    last_status_time: Option<u64>,
    started: u64,
    now: u64,
    timeout: u32,
)
    requires
        !vars.shutdown,
        vars.notified,
        started <= now,
        now - started <= timeout,
    ensures
        spec_monitor_poll(vars, last_status_time, started, now, timeout)
            == MonitorDecision::FetchNow,
{
}

/// Once shut down, every poll fails "not connected" immediately.
pub proof fn lemma_shutdown_is_terminal(
    vars: MonitorVars,
    last_status_time: Option<u64>,
    started: u64,
    now: u64,
    timeout: u32,
)
    requires
        vars.shutdown,
    ensures
        spec_monitor_poll(vars, last_status_time, started, now, timeout)
            == MonitorDecision::NotConnected,
{
}

/// Reports a job's current source URL only when it differs from the prior
/// report, and remembers it for the next comparison.
pub fn update_reported_url(last_url: &mut Option<String>, current: String) -> (r: Option<String>)
    ensures
        *final(last_url) matches Some(u) && u@ == current@,
        (*old(last_url) matches Some(u) && u@ == current@) ==> r is None,
        !(*old(last_url) matches Some(u) && u@ == current@) ==> (r matches Some(c) && c@
            == current@),
{
    let same = match last_url {
        Some(u) => *u == current,
        None => false,
    };
    if same {
        None
    } else {
        let reported = current.clone();
        *last_url = Some(current);
        Some(reported)
    }
}

} // verus!

verus! {

/// The monitoring side effect on scheduling: while a job is monitored its
/// priority is raised to foreground, and on termination it must be put
/// back to normal exactly once, whichever termination path fires first.
/// The shutdown flag is monotonic (nothing in the library ever clears it),
/// so the restore is owed exactly on the flag's single false-to-true step;
/// this is the decision for one observed step.
pub open spec fn spec_priority_restore_due(before: MonitorVars, after: MonitorVars) -> bool {
    !before.shutdown && after.shutdown
}

/// Whether the step from `before` to `after` is the termination step, the
/// one on which the host restores the job's priority to normal.
pub fn priority_restore_due(before: &MonitorVars, after: &MonitorVars) -> (r: bool)
    ensures
        r == spec_priority_restore_due(*before, *after),
{
    !before.shutdown && after.shutdown
}

proof fn lemma_shutdown_stays(t: Seq<MonitorVars>, i: int, j: int)
    requires
        forall|k: int| 0 <= k < t.len() - 1 ==> ((#[trigger] t[k]).shutdown ==> t[k + 1].shutdown),
        0 <= i <= j < t.len(),
        t[i].shutdown,
    ensures
        t[j].shutdown,
    decreases j - i,
{
    if i < j {
        assert(t[i].shutdown ==> t[i + 1].shutdown);
        lemma_shutdown_stays(t, i + 1, j);
    }
}

/// In any history where the shutdown flag only ever rises, the priority
/// restore is owed at most once: no two steps are both the termination
/// step.
pub proof fn lemma_priority_restored_at_most_once(t: Seq<MonitorVars>, i: int, j: int)
    requires
        forall|k: int| 0 <= k < t.len() - 1 ==> ((#[trigger] t[k]).shutdown ==> t[k + 1].shutdown),
        0 <= i < t.len() - 1,
        0 <= j < t.len() - 1,
        spec_priority_restore_due(t[i], t[i + 1]),
        spec_priority_restore_due(t[j], t[j + 1]),
    ensures
        i == j,
{
    if i < j {
        lemma_shutdown_stays(t, i + 1, j);
    }
    if j < i {
        lemma_shutdown_stays(t, j + 1, i);
    }
}

/// And at least once: a monitor that began running and ended shut down
/// passed through exactly one termination step, so the restore fires no
/// matter which path (explicit stop, shutdown, or destruction) came first.
pub proof fn lemma_priority_restored_at_least_once(t: Seq<MonitorVars>)
    requires
        forall|k: int| 0 <= k < t.len() - 1 ==> ((#[trigger] t[k]).shutdown ==> t[k + 1].shutdown),
        t.len() >= 2,
        !t[0].shutdown,
        t[t.len() - 1].shutdown,
    ensures
        exists|i: int|
            0 <= i < t.len() - 1 && #[trigger] spec_priority_restore_due(t[i], t[i + 1]),
    decreases t.len(),
{
    let n = t.len() as int;
    if !t[n - 2].shutdown {
        let w0 = n - 2;
        assert(spec_priority_restore_due(t[w0], t[w0 + 1]));
    } else {
        let s = t.drop_last();
        assert forall|k: int| 0 <= k < s.len() - 1 implies ((#[trigger] s[k]).shutdown ==> s[k
            + 1].shutdown) by {
            assert(t[k].shutdown ==> t[k + 1].shutdown);
        }
        assert(s[0] == t[0]);
        assert(s[s.len() - 1] == t[n - 2]);
        lemma_priority_restored_at_least_once(s);
        let w = choose|i: int|
            0 <= i < s.len() - 1 && #[trigger] spec_priority_restore_due(s[i], s[i + 1]);
        assert(s[w] == t[w] && s[w + 1] == t[w + 1]);
        assert(spec_priority_restore_due(t[w], t[w + 1]));
    }
}

} // verus!
