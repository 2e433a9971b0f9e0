use update_agent::adapter::{deliver_notification, E_FAIL};
use update_agent::oserror::{ApiError, ErrorCode};
use update_agent::in_process::{FetchOutcome, InProcessMonitor};
use update_agent::monitor::{
    monitor_poll, priority_restore_due, update_reported_url, MonitorDecision, MonitorVars,
};
use update_agent::pipe::PipeError;
use update_agent::protocol::HResultMessage;
use update_agent::status::{
    BitsErrorContext, BitsJobError, BitsJobProgress, BitsJobState, BitsJobStatus, BitsJobTimes,
    FileTime,
};

fn vars(interval_millis: u32) -> MonitorVars {
    MonitorVars { interval_millis, notified: false, shutdown: false }
}

fn api(hr: i32) -> ApiError {
    ApiError { code: Some(ErrorCode::HResult(hr)), function: None, file_line: None }
}

fn raw_status() -> BitsJobStatus {
    BitsJobStatus {
        state: BitsJobState::Transferring,
        progress: BitsJobProgress {
            total_bytes: Some(100),
            transferred_bytes: 10,
            total_files: 1,
            transferred_files: 0,
        },
        error_count: 0,
        error: None,
        times: BitsJobTimes {
            creation: FileTime { low: 0, high: 0 },
            modification: FileTime { low: 0, high: 0 },
            transfer_completion: None,
        },
    }
}

#[test]
fn first_status_is_returned_immediately() {
    // interval 1000 ms, timeout 10000 ms, no notifications: the first poll
    // is due at once.
    let v = vars(1000);
    assert_eq!(monitor_poll(&v, &None, 0, 0, 10_000), MonitorDecision::FetchNow);
}

#[test]
fn subsequent_statuses_are_paced_by_the_interval() {
    let v = vars(1000);
    // A snapshot was taken at t=0; at t=500 nothing is due until t=1000.
    assert_eq!(monitor_poll(&v, &Some(0), 0, 500, 10_000), MonitorDecision::WaitUntil(1000));
    // Immediately past the interval the next snapshot is due.
    assert_eq!(monitor_poll(&v, &Some(0), 0, 1001, 10_000), MonitorDecision::FetchNow);
    // The wake time never exceeds the caller's budget.
    assert_eq!(monitor_poll(&v, &Some(9_900), 0, 9_950, 10_000), MonitorDecision::WaitUntil(10_000));
}

#[test]
fn notification_cuts_the_interval_short() {
    // A notification arriving 100 ms into a 1000 ms interval makes the
    // snapshot due right then, not at the interval boundary.
    let mut v = vars(1000);
    let last = Some(0u64);
    assert_eq!(monitor_poll(&v, &last, 0, 100, 10_000), MonitorDecision::WaitUntil(1000));
    deliver_notification(true, &mut v).unwrap();
    assert_eq!(monitor_poll(&v, &last, 0, 100, 10_000), MonitorDecision::FetchNow);
}

#[test]
fn shutdown_and_budget_win_over_everything() {
    let mut v = vars(1000);
    v.shutdown = true;
    assert_eq!(monitor_poll(&v, &None, 0, 0, 10_000), MonitorDecision::NotConnected);

    let v = vars(1000);
    assert_eq!(monitor_poll(&v, &Some(0), 0, 10_001, 10_000), MonitorDecision::TimedOut);
}

#[test]
fn notification_to_a_gone_owner_fails_without_touching_state() {
    let mut v = vars(1000);
    let before = v;
    assert_eq!(deliver_notification(false, &mut v), Err(E_FAIL));
    assert_eq!(v, before);
    assert!(deliver_notification(true, &mut v).is_ok());
    assert!(v.notified);
}

#[test]
fn redirect_change_detection() {
    let mut last = None;
    // First report: the URL is new, so it is reported.
    assert_eq!(
        update_reported_url(&mut last, String::from("https://a/file")),
        Some(String::from("https://a/file"))
    );
    // Unchanged: not reported again.
    assert_eq!(update_reported_url(&mut last, String::from("https://a/file")), None);
    // A redirect changed it: reported once more.
    assert_eq!(
        update_reported_url(&mut last, String::from("https://b/file")),
        Some(String::from("https://b/file"))
    );
}

#[test]
fn get_status_rejects_after_shutdown() {
    let mut monitor = InProcessMonitor::new(update_agent::guid::Guid {
        data1: 1,
        data2: 2,
        data3: 3,
        data4: 4,
    });
    let mut v = vars(1000);
    v.shutdown = true;
    let r = monitor.get_status(&mut v, 0, 0, 10_000, FetchOutcome::JobGone(api(-1)));
    assert_eq!(r, Err(PipeError::NotConnected));
}

#[test]
fn get_status_timeout_shuts_the_monitor_down() {
    let mut monitor = InProcessMonitor::new(update_agent::guid::Guid {
        data1: 1,
        data2: 2,
        data3: 3,
        data4: 4,
    });
    let mut v = vars(1000);
    let r = monitor.get_status(&mut v, 0, 20_000, 10_000, FetchOutcome::JobGone(api(-1)));
    assert_eq!(r, Err(PipeError::Timeout));
    assert!(v.shutdown);
    // The next call finds the monitor disconnected.
    let r = monitor.get_status(&mut v, 0, 20_000, 10_000, FetchOutcome::JobGone(api(-1)));
    assert_eq!(r, Err(PipeError::NotConnected));
}

#[test]
fn get_status_composes_the_report_and_tracks_the_url() {
    let mut monitor = InProcessMonitor::new(update_agent::guid::Guid {
        data1: 1,
        data2: 2,
        data3: 3,
        data4: 4,
    });
    let mut v = vars(1000);
    v.notified = true;

    let r = monitor
        .get_status(
            &mut v,
            0,
            100,
            10_000,
            FetchOutcome::Fetched(raw_status(), String::from("https://a/file")),
        )
        .unwrap();
    assert_eq!(r.state, BitsJobState::Transferring);
    assert_eq!(r.url, Some(String::from("https://a/file")));
    assert!(!v.notified);
    assert_eq!(monitor.last_status_time, Some(100));

    // Same URL on the next fetch: no URL in the report.
    let r = monitor
        .get_status(
            &mut v,
            0,
            1_200,
            10_000,
            FetchOutcome::Fetched(raw_status(), String::from("https://a/file")),
        )
        .unwrap();
    assert_eq!(r.url, None);
}

#[test]
fn get_status_maps_the_recorded_job_error() {
    let mut monitor = InProcessMonitor::new(update_agent::guid::Guid {
        data1: 1,
        data2: 2,
        data3: 3,
        data4: 4,
    });
    let mut v = vars(1000);
    let mut raw = raw_status();
    raw.error_count = 1;
    raw.error = Some(BitsJobError {
        context: BitsErrorContext::RemoteFile,
        context_str: String::from("remote"),
        error: -2147012889,
        error_str: String::from("name not resolved"),
    });

    let r = monitor
        .get_status(&mut v, 0, 0, 10_000, FetchOutcome::Fetched(raw, String::from("u")))
        .unwrap();
    let e = r.error.unwrap();
    assert_eq!(e.context, BitsErrorContext::RemoteFile);
    assert_eq!(e.context_str, "remote");
    assert_eq!(
        e.error,
        HResultMessage { hr: -2147012889, message: String::from("name not resolved") }
    );
}

#[test]
fn get_status_fetch_errors_disconnect() {
    let g = update_agent::guid::Guid { data1: 1, data2: 2, data3: 3, data4: 4 };

    // A refused status report reads as "not connected".
    let mut monitor = InProcessMonitor::new(g);
    let mut v = vars(1000);
    assert_eq!(
        monitor.get_status(&mut v, 0, 0, 10_000, FetchOutcome::StatusFailed),
        Err(PipeError::NotConnected)
    );
    assert!(v.shutdown);

    // A failed job lookup carries the failing call's error through.
    let mut monitor = InProcessMonitor::new(g);
    let mut v = vars(1000);
    assert_eq!(
        monitor.get_status(&mut v, 0, 0, 10_000, FetchOutcome::JobGone(api(-2147024894))),
        Err(PipeError::Api(api(-2147024894)))
    );
    assert!(v.shutdown);

    // So does a failed read of the source URL.
    let mut monitor = InProcessMonitor::new(g);
    let mut v = vars(1000);
    assert_eq!(
        monitor.get_status(&mut v, 0, 0, 10_000, FetchOutcome::UrlFailed(api(-5))),
        Err(PipeError::Api(api(-5)))
    );
    assert!(v.shutdown);
}

#[test]
fn priority_is_restored_exactly_on_the_termination_step() {
    let before = vars(1000);
    let mut after = before;

    // No termination yet: nothing owed.
    assert!(!priority_restore_due(&before, &after));

    // The step that raises the shutdown flag owes the restore...
    after.shutdown = true;
    assert!(priority_restore_due(&before, &after));

    // ...and no later step owes it again: the flag never falls.
    assert!(!priority_restore_due(&after, &after));
}
