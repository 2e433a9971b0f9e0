use update_agent::guid::Guid;
use update_agent::oserror::{ApiError, ErrorCode};
use update_agent::overlapped::{
    abandon_action, classify_issue, classify_poll, classify_wait, connect_result_adjusted,
    finish_after_wait, finished_new, AbandonAction, OpState, OverlappedFinished, OverlappedResult,
    WaitResult, WaitTimeout, WaitTimeoutInner, ERROR_IO_INCOMPLETE, ERROR_IO_PENDING,
    ERROR_PIPE_CONNECTED, INFINITE, WAIT_OBJECT_0, WAIT_TIMEOUT,
};
use update_agent::pipe::{
    format_local_pipe_path, generate_pipe_name, ConnectEvent, IoEvent, MessageChannel,
    PipeAccess, PipeEndpoint, PipeError,
};

fn api(code: u32) -> ApiError {
    ApiError { code: Some(ErrorCode::LastError(code)), function: None, file_line: None }
}

#[test]
fn message_mode_write_then_read_is_exact() {
    let mut channel = MessageChannel::new();
    let sent = [0x80u8; 50];
    channel.write(&sent);
    let received = channel.read().expect("one message is queued");
    assert_eq!(received.len(), 50);
    assert!(received.iter().all(|b| *b == 0x80));
    assert!(channel.read().is_none());
}

#[test]
fn messages_are_never_merged_or_split() {
    let mut channel = MessageChannel::new();
    channel.write(&[0x80u8; 50]);
    channel.write(&[0x81u8; 75]);

    let first = channel.read().unwrap();
    assert_eq!(first.len(), 50);
    assert!(first.iter().all(|b| *b == 0x80));

    let second = channel.read().unwrap();
    assert_eq!(second.len(), 75);
    assert!(second.iter().all(|b| *b == 0x81));
}

#[test]
fn read_timeout_then_not_connected() {
    let mut server = PipeEndpoint::new(String::from("name"), PipeAccess::Default);
    // Reading before any connection fails "not connected".
    assert_eq!(server.read(IoEvent::Completed(10)), Err(PipeError::NotConnected));

    server.connect(ConnectEvent::Connected).unwrap();
    assert!(server.is_connected());

    // The peer is slower than the timeout: the read times out...
    assert_eq!(server.read(IoEvent::TimedOut), Err(PipeError::Timeout));
    // ...and the next call on the same endpoint is "not connected",
    // whatever the wire would have delivered.
    assert_eq!(server.read(IoEvent::Completed(50)), Err(PipeError::NotConnected));
}

#[test]
fn short_write_is_its_own_error_and_disconnects() {
    let mut server = PipeEndpoint::new(String::from("name"), PipeAccess::Default);
    server.connect(ConnectEvent::Connected).unwrap();

    assert_eq!(server.write(50, IoEvent::Completed(50)), Ok(()));
    assert!(server.is_connected());

    assert_eq!(server.write(50, IoEvent::Completed(10)), Err(PipeError::WriteCount(50, 10)));
    assert!(!server.is_connected());
    assert_eq!(server.write(50, IoEvent::Completed(50)), Err(PipeError::NotConnected));
}

#[test]
fn errors_disconnect_and_carry_the_os_code() {
    let mut server = PipeEndpoint::new(String::from("name"), PipeAccess::Default);
    server.connect(ConnectEvent::Connected).unwrap();
    assert_eq!(server.read(IoEvent::Failed(api(109))), Err(PipeError::Api(api(109))));
    assert!(!server.is_connected());

    let mut other = PipeEndpoint::new(String::from("other"), PipeAccess::LocalService);
    assert_eq!(other.connect(ConnectEvent::TimedOut), Err(PipeError::Timeout));
    assert!(!other.is_connected());
}

#[test]
fn pipe_names_are_32_hex_digits_under_the_local_namespace() {
    let name = generate_pipe_name();
    assert_eq!(name.len(), 32);
    assert!(name.chars().all(|c| c.is_ascii_hexdigit() && !c.is_ascii_uppercase()));

    let path = format_local_pipe_path(&name);
    assert_eq!(path, format!(r"\\.\pipe\{}", name));

    // Two draws almost surely differ; equal names would mean the random
    // source handed back the same 128 bits twice.
    assert_ne!(generate_pipe_name(), generate_pipe_name());
}

#[test]
fn wait_timeout_rejects_the_reserved_value() {
    assert_eq!(WaitTimeout::from_millis(INFINITE), Err(()));
    let t = WaitTimeout::from_millis(100).unwrap();
    assert_eq!(t, WaitTimeout(WaitTimeoutInner::Milliseconds(100)));
    assert_eq!(t.as_millis(), 100);
    assert_eq!(WaitTimeout::infinite().as_millis(), INFINITE);
}

#[test]
fn issue_classification() {
    // Failure with the pending code: the operation is in flight.
    assert_eq!(classify_issue(None, None, 0, 0, ERROR_IO_PENDING), OverlappedResult::Pending);
    // Immediate completion is a normal outcome, not an error.
    assert_eq!(
        classify_issue(None, None, 7, 1, 0),
        OverlappedResult::Finished(OverlappedFinished {
            bytes_transferred: Some(7),
            result: Ok(1),
        })
    );
    // A plain failure carries the last-error code.
    assert_eq!(
        classify_issue(Some("WriteFile"), None, 0, 0, 109),
        OverlappedResult::Finished(OverlappedFinished {
            bytes_transferred: None,
            result: Err(ApiError {
                code: Some(ErrorCode::LastError(109)),
                function: Some("WriteFile"),
                file_line: None,
            }),
        })
    );
}

#[test]
fn connect_finding_a_client_already_there_still_connects() {
    assert_eq!(connect_result_adjusted(0, ERROR_PIPE_CONNECTED), 1);
    assert_eq!(connect_result_adjusted(0, 5), 0);
    assert_eq!(connect_result_adjusted(1, 0), 1);
}

#[test]
fn poll_and_wait_classification() {
    assert_eq!(classify_poll(None, None, 0, 0, ERROR_IO_INCOMPLETE), OverlappedResult::Pending);
    assert_eq!(classify_wait(WAIT_OBJECT_0, 0), Ok(WaitResult::Signalled));
    assert_eq!(classify_wait(WAIT_TIMEOUT, 0), Ok(WaitResult::Timeout));
    assert!(classify_wait(0xffff_ffff, 6).is_err());
}

#[test]
fn finishing_a_pending_operation() {
    let done = OverlappedFinished { bytes_transferred: Some(16), result: Ok(1) };
    // Signalled and complete: the completion comes through.
    assert_eq!(
        finish_after_wait(Ok(WaitResult::Signalled), OverlappedResult::Finished(done)),
        Ok(Some(done))
    );
    // A timed-out wait is no completion and no error.
    assert_eq!(finish_after_wait(Ok(WaitResult::Timeout), OverlappedResult::Pending), Ok(None));
    // A failed operation surfaces its error.
    let failed = OverlappedFinished { bytes_transferred: None, result: Err(api(995)) };
    assert_eq!(
        finish_after_wait(Ok(WaitResult::Signalled), OverlappedResult::Finished(failed)),
        Err(api(995))
    );
    assert_eq!(finish_after_wait(Err(api(6)), OverlappedResult::Pending), Err(api(6)));
}

#[test]
fn finished_new_separates_success_from_failure() {
    let ok = finished_new(None, None, 10, 1, 0);
    assert_eq!(ok.bytes_transferred, Some(10));
    assert_eq!(ok.result, Ok(1));

    let err = finished_new(Some("ReadFile"), None, 0, 0, 109);
    assert_eq!(err.bytes_transferred, None);
    assert_eq!(err.result.unwrap_err().get_last_error(), Some(109));
}

#[test]
fn abandoning_a_pending_operation_cancels_first() {
    assert_eq!(abandon_action(&OpState::Pending), AbandonAction::CancelThenAwait);
    assert_eq!(abandon_action(&OpState::Finished), AbandonAction::ReleaseNow);
    assert_eq!(abandon_action(&OpState::Released), AbandonAction::ReleaseNow);
}

#[test]
fn guid_text_form() {
    let g = Guid { data1: 0x1234_5678, data2: 0x9abc, data3: 0xdef0, data4: 0x1234_5678_9abc_def0 };
    assert_eq!(g.to_text(), "{12345678-9abc-def0-1234-56789abcdef0}");

    let zero = Guid { data1: 0, data2: 0, data3: 0, data4: 0 };
    assert_eq!(zero.to_text(), "{00000000-0000-0000-0000-000000000000}");
}

#[test]
fn guid_text_parses_back() {
    let g = Guid { data1: 0x1234_5678, data2: 0x9abc, data3: 0xdef0, data4: 0x1234_5678_9abc_def0 };
    assert_eq!(Guid::from_text(&g.to_text()), Some(g));

    // Braces are optional on input, and hex digits parse in either case.
    assert_eq!(Guid::from_text("12345678-9abc-def0-1234-56789abcdef0"), Some(g));
    assert_eq!(Guid::from_text("{12345678-9ABC-DEF0-1234-56789ABCDEF0}"), Some(g));
    assert_eq!(Guid::from_text("12345678-9AbC-dEf0-1234-56789aBcDeF0"), Some(g));

    assert_eq!(Guid::from_text(""), None);
    assert_eq!(Guid::from_text("{12345678-9abc-def0-1234-56789abcdef0"), None);
    assert_eq!(Guid::from_text("(12345678-9abc-def0-1234-56789abcdef0}"), None);
    assert_eq!(Guid::from_text("{1234567g-9abc-def0-1234-56789abcdef0}"), None);
    assert_eq!(Guid::from_text("12345678.9abc.def0.1234.56789abcdef0"), None);
    assert_eq!(
        Guid::from_text("{00000000-0000-0000-0000-000000000000}"),
        Some(Guid { data1: 0, data2: 0, data3: 0, data4: 0 })
    );
}
