use update_agent::codec::{
    decode_cancel_response_frame, decode_command_frame, decode_complete_response_frame,
    decode_job_status_frame, decode_monitor_response_frame, decode_resume_response_frame,
    decode_set_interval_response_frame, decode_set_priority_response_frame,
    decode_start_response_frame, decode_suspend_response_frame, encode_cancel_response_frame,
    encode_command_frame, encode_complete_response_frame, encode_job_status_frame,
    encode_monitor_response_frame, encode_resume_response_frame,
    encode_set_interval_response_frame, encode_set_priority_response_frame,
    encode_start_response_frame, encode_suspend_response_frame,
};
use update_agent::guid::Guid;
use update_agent::protocol::{
    CancelJobCommand, CancelJobFailure, Command, CompleteJobCommand, CompleteJobFailure,
    HResultMessage, JobError, JobStatus, MonitorConfig, MonitorJobCommand, MonitorJobFailure,
    ProtocolError, ProxyUsage, ResumeJobCommand, ResumeJobFailure, SetJobPriorityCommand,
    SetJobPriorityFailure, SetUpdateIntervalCommand, SetUpdateIntervalFailure, StartJobCommand,
    StartJobFailure, StartJobSuccess, SuspendJobCommand, SuspendJobFailure,
};
use update_agent::status::{
    BitsErrorContext, BitsJobProgress, BitsJobState, BitsJobTimes, FileTime,
};

fn sample_guid() -> Guid {
    Guid { data1: 0x1234_5678, data2: 0x9abc, data3: 0xdef0, data4: 0x1234_5678_9abc_def0 }
}

fn round_trip_command(cmd: Command) -> Command {
    let frame = encode_command_frame(&cmd).expect("command must fit the frame");
    assert!(frame.len() <= 0x4000);
    decode_command_frame(&frame).expect("an encoded frame must decode")
}

#[test]
fn start_request_round_trip() {
    let cmd = Command::StartJob(StartJobCommand {
        url: String::from("https://example/file"),
        save_path: String::from("out.bin"),
        proxy_usage: ProxyUsage::Preconfig,
        monitor: None,
    });
    assert_eq!(round_trip_command(cmd.clone()), cmd);
}

#[test]
fn start_request_with_monitor_round_trip() {
    let cmd = Command::StartJob(StartJobCommand {
        url: String::from("https://example/file"),
        save_path: String::from("out.bin"),
        proxy_usage: ProxyUsage::AutoDetect,
        monitor: Some(MonitorConfig {
            pipe_name: String::from("0123456789abcdef0123456789abcdef"),
            interval_millis: 1000,
        }),
    });
    assert_eq!(round_trip_command(cmd.clone()), cmd);
}

#[test]
fn start_response_round_trip_carries_job_id() {
    let response: Result<StartJobSuccess, StartJobFailure> =
        Ok(StartJobSuccess { guid: sample_guid() });
    let frame = encode_start_response_frame(&response).unwrap();
    let back = decode_start_response_frame(&frame).unwrap();
    assert_eq!(back, response);
    assert_eq!(back.unwrap().guid, sample_guid());
}

#[test]
fn every_command_kind_round_trips() {
    let g = sample_guid();
    let cmds = vec![
        Command::MonitorJob(MonitorJobCommand {
            guid: g,
            monitor: MonitorConfig { pipe_name: String::from("name"), interval_millis: 10 },
        }),
        Command::SuspendJob(SuspendJobCommand { guid: g }),
        Command::ResumeJob(ResumeJobCommand { guid: g }),
        Command::SetJobPriority(SetJobPriorityCommand { guid: g, foreground: true }),
        Command::SetJobPriority(SetJobPriorityCommand { guid: g, foreground: false }),
        Command::SetUpdateInterval(SetUpdateIntervalCommand { guid: g, interval_millis: 500 }),
        Command::CompleteJob(CompleteJobCommand { guid: g }),
        Command::CancelJob(CancelJobCommand { guid: g }),
    ];
    for cmd in cmds {
        assert_eq!(round_trip_command(cmd.clone()), cmd);
    }
}

fn hrm(hr: i32, msg: &str) -> HResultMessage {
    HResultMessage { hr, message: String::from(msg) }
}

#[test]
fn start_failure_variants_round_trip() {
    let cases: Vec<StartJobFailure> = vec![
        StartJobFailure::ArgumentValidation(String::from("bad url")),
        StartJobFailure::Create(hrm(-2147467259, "create failed")),
        StartJobFailure::AddFile(hrm(-1, "add file failed")),
        StartJobFailure::ApplySettings(hrm(5, "apply failed")),
        StartJobFailure::Resume(hrm(0, "")),
        StartJobFailure::OtherBITS(hrm(-2147024894, "not found")),
        StartJobFailure::Other(String::from("something else")),
    ];
    for f in cases {
        let response: Result<StartJobSuccess, StartJobFailure> = Err(f);
        let frame = encode_start_response_frame(&response).unwrap();
        assert_eq!(decode_start_response_frame(&frame).unwrap(), response);
    }
}

#[test]
fn unit_response_failure_variants_round_trip() {
    let m = || hrm(-2147467259, "failed");

    for f in [
        MonitorJobFailure::ArgumentValidation(String::from("x")),
        MonitorJobFailure::NotFound,
        MonitorJobFailure::GetJob(m()),
        MonitorJobFailure::OtherBITS(m()),
        MonitorJobFailure::Other(String::from("y")),
    ] {
        let r: Result<(), MonitorJobFailure> = Err(f);
        let frame = encode_monitor_response_frame(&r).unwrap();
        assert_eq!(decode_monitor_response_frame(&frame).unwrap(), r);
    }
    for f in [
        SuspendJobFailure::NotFound,
        SuspendJobFailure::GetJob(m()),
        SuspendJobFailure::SuspendJob(m()),
        SuspendJobFailure::OtherBITS(m()),
        SuspendJobFailure::Other(String::from("y")),
    ] {
        let r: Result<(), SuspendJobFailure> = Err(f);
        let frame = encode_suspend_response_frame(&r).unwrap();
        assert_eq!(decode_suspend_response_frame(&frame).unwrap(), r);
    }
    for f in [
        ResumeJobFailure::NotFound,
        ResumeJobFailure::GetJob(m()),
        ResumeJobFailure::ResumeJob(m()),
        ResumeJobFailure::OtherBITS(m()),
        ResumeJobFailure::Other(String::from("y")),
    ] {
        let r: Result<(), ResumeJobFailure> = Err(f);
        let frame = encode_resume_response_frame(&r).unwrap();
        assert_eq!(decode_resume_response_frame(&frame).unwrap(), r);
    }
    for f in [
        SetJobPriorityFailure::NotFound,
        SetJobPriorityFailure::GetJob(m()),
        SetJobPriorityFailure::ApplySettings(m()),
        SetJobPriorityFailure::OtherBITS(m()),
        SetJobPriorityFailure::Other(String::from("y")),
    ] {
        let r: Result<(), SetJobPriorityFailure> = Err(f);
        let frame = encode_set_priority_response_frame(&r).unwrap();
        assert_eq!(decode_set_priority_response_frame(&frame).unwrap(), r);
    }
    for f in [
        SetUpdateIntervalFailure::ArgumentValidation(String::from("x")),
        SetUpdateIntervalFailure::NotFound,
        SetUpdateIntervalFailure::Other(String::from("y")),
    ] {
        let r: Result<(), SetUpdateIntervalFailure> = Err(f);
        let frame = encode_set_interval_response_frame(&r).unwrap();
        assert_eq!(decode_set_interval_response_frame(&frame).unwrap(), r);
    }
    for f in [
        CompleteJobFailure::NotFound,
        CompleteJobFailure::GetJob(m()),
        CompleteJobFailure::CompleteJob(m()),
        CompleteJobFailure::PartialComplete,
        CompleteJobFailure::OtherBITS(m()),
        CompleteJobFailure::Other(String::from("y")),
    ] {
        let r: Result<(), CompleteJobFailure> = Err(f);
        let frame = encode_complete_response_frame(&r).unwrap();
        assert_eq!(decode_complete_response_frame(&frame).unwrap(), r);
    }
    for f in [
        CancelJobFailure::NotFound,
        CancelJobFailure::GetJob(m()),
        CancelJobFailure::CancelJob(m()),
        CancelJobFailure::OtherBITS(m()),
        CancelJobFailure::Other(String::from("y")),
    ] {
        let r: Result<(), CancelJobFailure> = Err(f);
        let frame = encode_cancel_response_frame(&r).unwrap();
        assert_eq!(decode_cancel_response_frame(&frame).unwrap(), r);
    }
}

#[test]
fn successful_unit_responses_round_trip() {
    let r: Result<(), SuspendJobFailure> = Ok(());
    let frame = encode_suspend_response_frame(&r).unwrap();
    assert_eq!(frame, vec![0u8]);
    assert_eq!(decode_suspend_response_frame(&frame).unwrap(), r);
}

#[test]
fn job_status_round_trip() {
    let status = JobStatus {
        state: BitsJobState::Transferring,
        progress: BitsJobProgress {
            total_bytes: Some(1000),
            transferred_bytes: 250,
            total_files: 1,
            transferred_files: 0,
        },
        error_count: 2,
        error: Some(JobError {
            context: BitsErrorContext::RemoteFile,
            context_str: String::from("remote file"),
            error: hrm(-2147012889, "name not resolved"),
        }),
        times: BitsJobTimes {
            creation: FileTime { low: 1, high: 2 },
            modification: FileTime { low: 3, high: 4 },
            transfer_completion: None,
        },
        url: Some(String::from("https://example/redirected")),
    };
    let frame = encode_job_status_frame(&status).unwrap();
    assert_eq!(decode_job_status_frame(&frame).unwrap(), status);

    let quiet = JobStatus {
        state: BitsJobState::Other(77),
        progress: BitsJobProgress {
            total_bytes: None,
            transferred_bytes: 0,
            total_files: 0,
            transferred_files: 0,
        },
        error_count: 0,
        error: None,
        times: BitsJobTimes {
            creation: FileTime { low: 0, high: 0 },
            modification: FileTime { low: 0, high: 0 },
            transfer_completion: Some(FileTime { low: 9, high: 8 }),
        },
        url: None,
    };
    let frame = encode_job_status_frame(&quiet).unwrap();
    assert_eq!(decode_job_status_frame(&frame).unwrap(), quiet);
}

#[test]
fn truncated_and_trailing_frames_are_undecodable() {
    let cmd = Command::SuspendJob(SuspendJobCommand { guid: sample_guid() });
    let frame = encode_command_frame(&cmd).unwrap();

    let truncated = &frame[..frame.len() - 1];
    assert_eq!(decode_command_frame(truncated), Err(ProtocolError::Undecodable));

    let mut trailing = frame.clone();
    trailing.push(0);
    assert_eq!(decode_command_frame(&trailing), Err(ProtocolError::Undecodable));

    assert_eq!(decode_command_frame(&[]), Err(ProtocolError::Undecodable));
    assert_eq!(decode_command_frame(&[0xff]), Err(ProtocolError::Undecodable));
}

#[test]
fn oversized_command_is_refused() {
    let cmd = Command::StartJob(StartJobCommand {
        url: "u".repeat(0x4000),
        save_path: String::from("out.bin"),
        proxy_usage: ProxyUsage::NoProxy,
        monitor: None,
    });
    assert_eq!(encode_command_frame(&cmd), Err(ProtocolError::Oversized));
}

#[test]
fn wire_format_is_little_endian_with_length_prefixed_strings() {
    let cmd = Command::SetUpdateInterval(SetUpdateIntervalCommand {
        guid: Guid { data1: 1, data2: 2, data3: 3, data4: 4 },
        interval_millis: 0x0102_0304,
    });
    let frame = encode_command_frame(&cmd).unwrap();
    // tag, then the guid's 4-2-2-8 little-endian fields, then the interval.
    assert_eq!(
        frame,
        vec![
            5, // SetUpdateInterval
            1, 0, 0, 0, // data1
            2, 0, // data2
            3, 0, // data3
            4, 0, 0, 0, 0, 0, 0, 0, // data4
            4, 3, 2, 1, // interval, little-endian
        ]
    );
}
