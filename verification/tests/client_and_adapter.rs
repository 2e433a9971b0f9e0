use update_agent::adapter::{handler_status, HandlerOutcome, NotificationAdapter, E_FAIL, S_OK};
use update_agent::guid::Guid;
use update_agent::codec::{
    decode_set_interval_response_frame, decode_start_response_frame,
    decode_suspend_response_frame,
};
use update_agent::in_process::{
    format_error, job_priority, CommandOutcome, InProcessClient, JobOpOutcome, MonitorJobOutcome,
    StartJobOutcome,
};
use update_agent::oserror::{succeeded_or_err, true_or_last_err, ApiError, ErrorCode, FileLine};
use update_agent::protocol::{
    check_handshake_reply, version_accepted, CancelJobFailure, Command, CompleteJobFailure,
    HResultMessage, MonitorConfig, MonitorJobFailure, ProtocolError, ProxyUsage,
    ResumeJobFailure, SetJobPriorityFailure, SetUpdateIntervalCommand, SetUpdateIntervalFailure,
    StartJobCommand, StartJobFailure, StartJobSuccess, SuspendJobCommand, SuspendJobFailure,
    PROTOCOL_VERSION,
};
use update_agent::status::BitsJobPriority;
use update_agent::{BitsClient, BitsMonitorClient};

fn g(n: u32) -> Guid {
    Guid { data1: n, data2: 0, data3: 0, data4: 0 }
}

fn hrm(hr: i32, msg: &str) -> HResultMessage {
    HResultMessage { hr, message: String::from(msg) }
}

fn client() -> InProcessClient {
    InProcessClient::new(String::from("JOBBO"), String::from(r"C:\downloads\")).unwrap()
}

#[test]
fn handshake_agreement() {
    // Version 0 against version 1 fails the connection on both sides.
    assert!(!version_accepted(0, 1));
    assert!(!version_accepted(1, 0));
    // 0 against 0 proceeds to command dispatch.
    assert!(version_accepted(0, 0));

    assert_eq!(check_handshake_reply(&[PROTOCOL_VERSION]), Ok(()));
    assert_eq!(
        check_handshake_reply(&[1]),
        Err(ProtocolError::VersionMismatch { expected: PROTOCOL_VERSION, got: 1 })
    );
    assert_eq!(check_handshake_reply(&[]), Err(ProtocolError::Undecodable));
    assert_eq!(
        check_handshake_reply(&[PROTOCOL_VERSION, PROTOCOL_VERSION]),
        Err(ProtocolError::Undecodable)
    );
}

#[test]
fn adapter_refcount_is_exact() {
    // Three handoffs outstanding...
    let mut adapter = NotificationAdapter::new();
    adapter.add_ref();
    adapter.add_ref();
    assert!(adapter.can_invoke());

    // ...two releases leave it invocable, the third destroys it.
    assert_eq!(adapter.release(), 2);
    assert_eq!(adapter.release(), 1);
    assert!(adapter.can_invoke());
    assert_eq!(adapter.release(), 0);
    assert!(!adapter.can_invoke());
}

#[test]
fn handler_faults_never_cross_the_boundary() {
    assert_eq!(handler_status(false, HandlerOutcome::Panicked), S_OK);
    assert_eq!(handler_status(true, HandlerOutcome::Succeeded), S_OK);
    assert_eq!(handler_status(true, HandlerOutcome::Failed(-7)), -7);
    assert_eq!(handler_status(true, HandlerOutcome::Panicked), E_FAIL);
}

#[test]
fn start_job_registers_a_monitor() {
    let mut client = client();
    let (success, monitor) = client
        .start_job(
            String::from("https://example/file"),
            String::from("out.bin"),
            ProxyUsage::Preconfig,
            1000,
            StartJobOutcome::Created(g(7)),
        )
        .unwrap();
    assert_eq!(success.guid, g(7));
    assert_eq!(monitor.guid, g(7));
    assert_eq!(monitor.last_status_time, None);

    // The monitor is registered: its interval can be changed...
    assert_eq!(client.set_update_interval(g(7), 50), Ok(()));
    // ...and an unknown job is refused.
    assert_eq!(client.set_update_interval(g(8), 50), Err(SetUpdateIntervalFailure::NotFound));
}

#[test]
fn start_job_failures_map_each_step() {
    let mut client = client();
    let run = |client: &mut InProcessClient, outcome| {
        client
            .start_job(
                String::from("u"),
                String::from("s"),
                ProxyUsage::Preconfig,
                1000,
                outcome,
            )
            .unwrap_err()
    };
    assert_eq!(
        run(&mut client, StartJobOutcome::ConnectFailed(String::from("no service"))),
        StartJobFailure::Other(String::from("no service"))
    );
    assert_eq!(
        run(&mut client, StartJobOutcome::CreateFailed(hrm(-1, "m"))),
        StartJobFailure::Create(hrm(-1, "m"))
    );
    assert_eq!(
        run(&mut client, StartJobOutcome::GetGuidFailed(hrm(-2, "m"))),
        StartJobFailure::OtherBITS(hrm(-2, "m"))
    );
    assert_eq!(
        run(&mut client, StartJobOutcome::ApplySettingsFailed(hrm(-3, "m"))),
        StartJobFailure::ApplySettings(hrm(-3, "m"))
    );
    assert_eq!(
        run(&mut client, StartJobOutcome::RegisterFailed(hrm(-4, "m"))),
        StartJobFailure::OtherBITS(hrm(-4, "m"))
    );
    assert_eq!(
        run(&mut client, StartJobOutcome::AddFileFailed(hrm(-5, "m"))),
        StartJobFailure::AddFile(hrm(-5, "m"))
    );
    assert_eq!(
        run(&mut client, StartJobOutcome::ResumeFailed(hrm(-6, "m"))),
        StartJobFailure::Resume(hrm(-6, "m"))
    );
}

#[test]
fn job_op_failures_map_per_command() {
    let mut client = client();
    assert_eq!(
        client.suspend_job(g(1), JobOpOutcome::JobNotFound),
        Err(SuspendJobFailure::NotFound)
    );
    assert_eq!(
        client.suspend_job(g(1), JobOpOutcome::OpFailed(hrm(-1, "m"))),
        Err(SuspendJobFailure::SuspendJob(hrm(-1, "m")))
    );
    assert_eq!(
        client.resume_job(g(1), JobOpOutcome::FindFailed(hrm(-2, "m"))),
        Err(ResumeJobFailure::GetJob(hrm(-2, "m")))
    );
    assert_eq!(
        client.resume_job(g(1), JobOpOutcome::OpFailed(hrm(-1, "m"))),
        Err(ResumeJobFailure::ResumeJob(hrm(-1, "m")))
    );
    assert_eq!(
        client.set_job_priority(g(1), true, JobOpOutcome::OpFailed(hrm(-1, "m"))),
        Err(SetJobPriorityFailure::ApplySettings(hrm(-1, "m")))
    );
    assert_eq!(
        client.complete_job(g(1), JobOpOutcome::OpFailed(hrm(-1, "m"))),
        Err(CompleteJobFailure::CompleteJob(hrm(-1, "m")))
    );
    assert_eq!(
        client.cancel_job(g(1), JobOpOutcome::ConnectFailed(String::from("gone"))),
        Err(CancelJobFailure::Other(String::from("gone")))
    );
    assert_eq!(client.suspend_job(g(1), JobOpOutcome::Succeeded), Ok(()));
}

#[test]
fn monitor_job_replaces_and_maps() {
    let mut client = client();
    assert_eq!(
        client.monitor_job(g(1), 1000, MonitorJobOutcome::JobNotFound),
        Err(MonitorJobFailure::NotFound)
    );
    assert_eq!(
        client.monitor_job(g(1), 1000, MonitorJobOutcome::FindFailed(hrm(-1, "m"))),
        Err(MonitorJobFailure::GetJob(hrm(-1, "m")))
    );
    let monitor = client.monitor_job(g(1), 1000, MonitorJobOutcome::Registered).unwrap();
    assert_eq!(monitor.guid, g(1));
    assert_eq!(client.set_update_interval(g(1), 2000), Ok(()));
}

#[test]
fn completing_a_job_stops_its_monitor() {
    let mut client = client();
    client
        .start_job(
            String::from("u"),
            String::from("s"),
            ProxyUsage::Preconfig,
            1000,
            StartJobOutcome::Created(g(9)),
        )
        .unwrap();
    assert_eq!(client.stop_update(g(9)), Ok(()));
    assert_eq!(client.complete_job(g(9), JobOpOutcome::Succeeded), Ok(()));
    assert_eq!(client.cancel_job(g(9), JobOpOutcome::Succeeded), Ok(()));
    // Unknown jobs have no monitor to stop.
    assert_eq!(client.stop_update(g(10)), Err(SetUpdateIntervalFailure::NotFound));
}

#[test]
fn full_save_path_appends_to_the_prefix() {
    let client = client();
    assert_eq!(client.full_save_path("out.bin"), r"C:\downloads\out.bin");
}

#[test]
fn priority_selection() {
    assert_eq!(job_priority(true), BitsJobPriority::Foreground);
    assert_eq!(job_priority(false), BitsJobPriority::Normal);
}

#[test]
fn bits_client_wraps_the_in_process_client() {
    let mut client = BitsClient::new(String::from("JOBBO"), String::from("p")).unwrap();
    let inner = client
        .start_job(
            String::from("https://example/file"),
            String::from("out.bin"),
            ProxyUsage::Preconfig,
            1000,
            StartJobOutcome::Created(g(3)),
        )
        .unwrap();
    let (success, monitor) = inner.unwrap();
    assert_eq!(success.guid, g(3));
    let BitsMonitorClient::InProcess(m) = monitor;
    assert_eq!(m.guid, g(3));

    assert_eq!(client.set_update_interval(g(3), 10).unwrap(), Ok(()));
    assert_eq!(client.stop_update(g(3)).unwrap(), Ok(()));
    assert_eq!(client.resume_job(g(3), JobOpOutcome::Succeeded).unwrap(), Ok(()));
    assert_eq!(
        client.cancel_job(g(3), JobOpOutcome::JobNotFound).unwrap(),
        Err(CancelJobFailure::NotFound)
    );
}

#[test]
fn os_error_helpers() {
    assert_eq!(succeeded_or_err(0), Ok(0));
    assert_eq!(succeeded_or_err(7), Ok(7));
    let e = succeeded_or_err(-2147467259).unwrap_err();
    assert_eq!(e.get_hresult(), Some(-2147467259));
    assert_eq!(e.get_rc(), None);
    assert!(!e.is_nullptr());

    assert_eq!(true_or_last_err(1, 5), Ok(1));
    let e = true_or_last_err(0, 5).unwrap_err();
    assert_eq!(e.get_last_error(), Some(5));
}

#[test]
fn error_text_and_service_description() {
    let e = ApiError {
        code: Some(ErrorCode::HResult(-2147467259)),
        function: Some("CreateJob"),
        file_line: Some(FileLine("client.rs", 42)),
    };
    assert_eq!(e.describe(), "CreateJob client.rs:42 failed. hr = 0x80004005");

    let bare = ApiError { code: Some(ErrorCode::LastError(259)), function: None, file_line: None };
    assert_eq!(bare.describe(), "GetLastError = 0x00000103");

    let msg = format_error(&e, Some(String::from("Unspecified error")));
    assert_eq!(msg.hr, -2147467259);
    assert_eq!(msg.message, "CreateJob client.rs:42 failed. hr = 0x80004005: Unspecified error");

    let msg = format_error(&e, None);
    assert_eq!(msg.message, "CreateJob client.rs:42 failed. hr = 0x80004005");
}

#[test]
fn proxy_usage_codes() {
    assert_eq!(ProxyUsage::Preconfig.code(), 0);
    assert_eq!(ProxyUsage::NoProxy.code(), 1);
    assert_eq!(ProxyUsage::AutoDetect.code(), 3);
}

#[test]
fn worker_step_answers_each_command_with_its_typed_frame() {
    let mut worker = client();

    // A start request that succeeded and asked for monitoring: the frame
    // carries the job identifier and the monitor control is registered.
    let start = Command::StartJob(StartJobCommand {
        url: String::from("https://example/file"),
        save_path: String::from("out.bin"),
        proxy_usage: ProxyUsage::Preconfig,
        monitor: Some(MonitorConfig { pipe_name: String::from("p"), interval_millis: 1000 }),
    });
    let frame = worker
        .execute_command(&start, CommandOutcome::Start(StartJobOutcome::Created(g(5))))
        .unwrap();
    assert_eq!(
        decode_start_response_frame(&frame).unwrap(),
        Ok(StartJobSuccess { guid: g(5) })
    );
    assert_eq!(worker.set_update_interval(g(5), 42), Ok(()));

    // A suspend whose service call failed: the frame carries the typed
    // failure.
    let suspend = Command::SuspendJob(SuspendJobCommand { guid: g(5) });
    let frame = worker
        .execute_command(&suspend, CommandOutcome::Op(JobOpOutcome::OpFailed(hrm(-9, "m"))))
        .unwrap();
    assert_eq!(
        decode_suspend_response_frame(&frame).unwrap(),
        Err(SuspendJobFailure::SuspendJob(hrm(-9, "m")))
    );

    // A set-update-interval for an unknown job: refused from the registry
    // alone, no service call involved.
    let interval = Command::SetUpdateInterval(SetUpdateIntervalCommand {
        guid: g(6),
        interval_millis: 10,
    });
    let frame = worker.execute_command(&interval, CommandOutcome::Registry).unwrap();
    assert_eq!(
        decode_set_interval_response_frame(&frame).unwrap(),
        Err(SetUpdateIntervalFailure::NotFound)
    );
}
