//! Job status data as reported by the transfer service.
//!
//! The service reports states, error contexts and timestamps as raw numeric
//! codes; the types here hold them as plain values with the documented code
//! mappings written out, so everything downstream is checkable.

use vstd::prelude::*;

verus! {

/// A point in time as a 64-bit count of 100-nanosecond intervals, split into
/// the low and high halves in which the service reports it.
#[derive(Clone, Copy, Debug, PartialEq, Eq, Structural)]
pub struct FileTime {
    pub low: u32,
    pub high: u32,
}

impl FileTime {
    /// The two halves joined into one 64-bit count.
    pub fn to_u64(&self) -> (r: u64)
        ensures
            r == (self.high as u64) * 0x1_0000_0000 + (self.low as u64),
    {
        let h: u64 = self.high as u64;
        let l: u64 = self.low as u64;
        let r: u64 = (h << 32u64) | l;
        assert(r == h * 0x1_0000_0000 + l) by (bit_vector)
            requires
                r == (h << 32u64) | l,
                h < 0x1_0000_0000,
                l < 0x1_0000_0000,
        ;
        r
    }
}

/// The scheduling priority of a job, as the service understands it.
#[derive(Clone, Copy, Debug, PartialEq, Eq, Structural)]
pub enum BitsJobPriority {
    Foreground,
    High,
    Normal,
    Low,
}

/// The state a job can be in, as the service reports it.
#[derive(Clone, Copy, Debug, PartialEq, Eq, Structural)]
pub enum BitsJobState {
    Queued,
    Connecting,
    Transferring,
    Suspended,
    Error,
    TransientError,
    Transferred,
    Acknowledged,
    Cancelled,
    /// No other values are documented.
    Other(u32),
}

/// The documented numeric code of each job state.
pub open spec fn spec_job_state_of_code(code: u32) -> BitsJobState {
    if code == 0 {
        BitsJobState::Queued
    } else if code == 1 {
        BitsJobState::Connecting
    } else if code == 2 {
        BitsJobState::Transferring
    } else if code == 3 {
        BitsJobState::Suspended
    } else if code == 4 {
        BitsJobState::Error
    } else if code == 5 {
        BitsJobState::TransientError
    } else if code == 6 {
        BitsJobState::Transferred
    } else if code == 7 {
        BitsJobState::Acknowledged
    } else if code == 8 {
        BitsJobState::Cancelled
    } else {
        BitsJobState::Other(code)
    }
}

impl From<u32> for BitsJobState {
    fn from(code: u32) -> (r: BitsJobState) {
        if code == 0 {
            BitsJobState::Queued
        } else if code == 1 {
            BitsJobState::Connecting
        } else if code == 2 {
            BitsJobState::Transferring
        } else if code == 3 {
            BitsJobState::Suspended
        } else if code == 4 {
            BitsJobState::Error
        } else if code == 5 {
            BitsJobState::TransientError
        } else if code == 6 {
            BitsJobState::Transferred
        } else if code == 7 {
            BitsJobState::Acknowledged
        } else if code == 8 {
            BitsJobState::Cancelled
        } else {
            BitsJobState::Other(code)
        }
    }
}

impl vstd::std_specs::convert::FromSpecImpl<u32> for BitsJobState {
    open spec fn obeys_from_spec() -> bool {
        true
    }

    open spec fn from_spec(code: u32) -> BitsJobState {
        spec_job_state_of_code(code)
    }
}

/// Where an error on a job arose, as the service reports it.
#[derive(Clone, Copy, Debug, PartialEq, Eq, Structural)]
pub enum BitsErrorContext {
    NoContext,
    Unknown,
    GeneralQueueManager,
    QueueManagerNotification,
    LocalFile,
    RemoteFile,
    GeneralTransport,
    RemoteApplication,
    /// No other values are documented.
    Other(u32),
}

/// The documented numeric code of each error context.
pub open spec fn spec_error_context_of_code(code: u32) -> BitsErrorContext {
    if code == 0 {
        BitsErrorContext::NoContext
    } else if code == 1 {
        BitsErrorContext::Unknown
    } else if code == 2 {
        BitsErrorContext::GeneralQueueManager
    } else if code == 3 {
        BitsErrorContext::QueueManagerNotification
    } else if code == 4 {
        BitsErrorContext::LocalFile
    } else if code == 5 {
        BitsErrorContext::RemoteFile
    } else if code == 6 {
        BitsErrorContext::GeneralTransport
    } else if code == 7 {
        BitsErrorContext::RemoteApplication
    } else {
        BitsErrorContext::Other(code)
    }
}

impl From<u32> for BitsErrorContext {
    fn from(code: u32) -> (r: BitsErrorContext) {
        if code == 0 {
            BitsErrorContext::NoContext
        } else if code == 1 {
            BitsErrorContext::Unknown
        } else if code == 2 {
            BitsErrorContext::GeneralQueueManager
        } else if code == 3 {
            BitsErrorContext::QueueManagerNotification
        } else if code == 4 {
            BitsErrorContext::LocalFile
        } else if code == 5 {
            BitsErrorContext::RemoteFile
        } else if code == 6 {
            BitsErrorContext::GeneralTransport
        } else if code == 7 {
            BitsErrorContext::RemoteApplication
        } else {
            BitsErrorContext::Other(code)
        }
    }
}

impl vstd::std_specs::convert::FromSpecImpl<u32> for BitsErrorContext {
    open spec fn obeys_from_spec() -> bool {
        true
    }

    open spec fn from_spec(code: u32) -> BitsErrorContext {
        spec_error_context_of_code(code)
    }
}

/// Byte and file counters for a job.  `total_bytes` is `None` while the
/// total is still unknown to the service.
#[derive(Clone, Copy, Debug, PartialEq, Eq, Structural)]
pub struct BitsJobProgress {
    pub total_bytes: Option<u64>,
    pub transferred_bytes: u64,
    pub total_files: u32,
    pub transferred_files: u32,
}

/// Creation, modification and (when finished) completion timestamps.
#[derive(Clone, Copy, Debug, PartialEq, Eq, Structural)]
pub struct BitsJobTimes {
    pub creation: FileTime,
    pub modification: FileTime,
    pub transfer_completion: Option<FileTime>,
}

/// The error recorded on a job by the service, with raw descriptions.
#[derive(Clone, Debug, PartialEq, Eq)]
pub struct BitsJobError {
    pub context: BitsErrorContext,
    pub context_str: String,
    pub error: i32,
    pub error_str: String,
}

pub ghost struct BitsJobErrorV {
    pub context: BitsErrorContext,
    pub context_str: Seq<char>,
    pub error: i32,
    pub error_str: Seq<char>,
}

impl View for BitsJobError {
    type V = BitsJobErrorV;

    open spec fn view(&self) -> BitsJobErrorV {
        BitsJobErrorV {
            context: self.context,
            context_str: self.context_str@,
            error: self.error,
            error_str: self.error_str@,
        }
    }
}

/// A raw status report for a job, exactly as fetched from the service.
#[derive(Clone, Debug, PartialEq, Eq)]
pub struct BitsJobStatus {
    pub state: BitsJobState,
    pub progress: BitsJobProgress,
    pub error_count: u32,
    pub error: Option<BitsJobError>,
    pub times: BitsJobTimes,
}

pub ghost struct BitsJobStatusV {
    pub state: BitsJobState,
    pub progress: BitsJobProgress,
    pub error_count: u32,
    pub error: Option<BitsJobErrorV>,
    pub times: BitsJobTimes,
}

impl View for BitsJobStatus {
    type V = BitsJobStatusV;

    open spec fn view(&self) -> BitsJobStatusV {
        BitsJobStatusV {
            state: self.state,
            progress: self.progress,
            error_count: self.error_count,
            error: match self.error {
                Some(ref e) => Some(e@),
                None => None,
            },
            times: self.times,
        }
    }
}

} // verus!

verus! {

/// The reserved byte count meaning "total size not yet known".
pub const BG_SIZE_UNKNOWN: u64 = 0xffff_ffff_ffff_ffff;

/// Builds the progress counters from the raw values the service reports:
/// the reserved total means the total is unknown.
pub fn progress_from_counts(
    bytes_total: u64,
    bytes_transferred: u64,
    files_total: u32,
    files_transferred: u32,
) -> (r: BitsJobProgress)
    ensures
        r.total_bytes == if bytes_total == BG_SIZE_UNKNOWN {
            Option::<u64>::None
        } else {
            Some(bytes_total)
        },
        r.transferred_bytes == bytes_transferred,
        r.total_files == files_total,
        r.transferred_files == files_transferred,
{
    BitsJobProgress {
        total_bytes: if bytes_total == BG_SIZE_UNKNOWN {
            None
        } else {
            Some(bytes_total)
        },
        transferred_bytes: bytes_transferred,
        total_files: files_total,
        transferred_files: files_transferred,
    }
}

/// Reads the transfer-completion stamp: an all-zero time means the job has
/// not finished transferring.
pub fn completion_time(t: FileTime) -> (r: Option<FileTime>)
    ensures
        t.low == 0 && t.high == 0 ==> r is None,
        !(t.low == 0 && t.high == 0) ==> r == Some(t),
{
    if t.low == 0 && t.high == 0 {
        None
    } else {
        Some(t)
    }
}

} // verus!
