use update_agent::status::{
    completion_time, progress_from_counts, BitsErrorContext, BitsJobState, FileTime,
    BG_SIZE_UNKNOWN,
};

#[test]
fn job_state_codes_follow_the_documentation() {
    assert_eq!(BitsJobState::from(0), BitsJobState::Queued);
    assert_eq!(BitsJobState::from(1), BitsJobState::Connecting);
    assert_eq!(BitsJobState::from(2), BitsJobState::Transferring);
    assert_eq!(BitsJobState::from(3), BitsJobState::Suspended);
    assert_eq!(BitsJobState::from(4), BitsJobState::Error);
    assert_eq!(BitsJobState::from(5), BitsJobState::TransientError);
    assert_eq!(BitsJobState::from(6), BitsJobState::Transferred);
    assert_eq!(BitsJobState::from(7), BitsJobState::Acknowledged);
    assert_eq!(BitsJobState::from(8), BitsJobState::Cancelled);
    assert_eq!(BitsJobState::from(9), BitsJobState::Other(9));
    assert_eq!(BitsJobState::from(1000), BitsJobState::Other(1000));
}

#[test]
fn error_context_codes_follow_the_documentation() {
    assert_eq!(BitsErrorContext::from(0), BitsErrorContext::NoContext);
    assert_eq!(BitsErrorContext::from(1), BitsErrorContext::Unknown);
    assert_eq!(BitsErrorContext::from(2), BitsErrorContext::GeneralQueueManager);
    assert_eq!(BitsErrorContext::from(3), BitsErrorContext::QueueManagerNotification);
    assert_eq!(BitsErrorContext::from(4), BitsErrorContext::LocalFile);
    assert_eq!(BitsErrorContext::from(5), BitsErrorContext::RemoteFile);
    assert_eq!(BitsErrorContext::from(6), BitsErrorContext::GeneralTransport);
    assert_eq!(BitsErrorContext::from(7), BitsErrorContext::RemoteApplication);
    assert_eq!(BitsErrorContext::from(8), BitsErrorContext::Other(8));
}

#[test]
fn file_time_halves_join() {
    assert_eq!(FileTime { low: 0, high: 0 }.to_u64(), 0);
    assert_eq!(FileTime { low: 1, high: 0 }.to_u64(), 1);
    assert_eq!(FileTime { low: 0, high: 1 }.to_u64(), 0x1_0000_0000);
    assert_eq!(FileTime { low: 0xffff_ffff, high: 0xffff_ffff }.to_u64(), u64::MAX);
}

#[test]
fn unknown_total_size_is_reserved() {
    let p = progress_from_counts(BG_SIZE_UNKNOWN, 5, 1, 0);
    assert_eq!(p.total_bytes, None);
    assert_eq!(p.transferred_bytes, 5);

    let p = progress_from_counts(100, 5, 1, 0);
    assert_eq!(p.total_bytes, Some(100));
}

#[test]
fn zero_completion_time_means_unfinished() {
    assert_eq!(completion_time(FileTime { low: 0, high: 0 }), None);
    let t = FileTime { low: 7, high: 0 };
    assert_eq!(completion_time(t), Some(t));
}
