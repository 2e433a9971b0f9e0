//! A client library for long-running background transfer jobs handled by
//! an OS transfer service.
//!
//! A control process drives jobs over a framed, versioned command protocol
//! carried by a message-mode named pipe; a worker executes the commands
//! against the transfer service and streams status snapshots back through
//! a monitor pipe.  The crate holds the protocol, its wire form, and every
//! decision the client, transport, adapter and monitor engines take; the
//! operating-system calls themselves (pipes, COM, waits) belong to the
//! process hosting the library, which hands their outcomes in as plain
//! values.

use vstd::prelude::*;

pub mod adapter;
pub mod codec;
pub mod guid;
pub mod in_process;
pub mod monitor;
pub mod oserror;
pub mod overlapped;
pub mod pipe;
pub mod protocol;
pub mod status;

use crate::guid::Guid;
use crate::in_process::{
    FetchOutcome, InProcessClient, InProcessMonitor, JobOpOutcome, MonitorJobOutcome,
    StartJobOutcome,
};
use crate::monitor::{spec_monitor_poll, MonitorDecision, MonitorVars};
use crate::protocol::{
    CancelJobFailure, CompleteJobFailure, JobStatus, MonitorJobFailure, ProxyUsage,
    ResumeJobFailure, SetJobPriorityFailure, SetUpdateIntervalFailure, StartJobFailure,
    StartJobSuccess,
};

pub use crate::pipe::PipeError;
pub use crate::status::{
    BitsErrorContext, BitsJobError, BitsJobProgress, BitsJobState, BitsJobStatus,
};

verus! {

/// A client for the transfer service.  The in-process variant makes every
/// service call from this process; room is left for a variant that works
/// through an external worker process.
#[derive(Debug)]
pub enum BitsClient {
    InProcess(InProcessClient),
}

/// A monitor handle matching the client that created it.
#[derive(Clone, Debug, PartialEq, Eq)]
pub enum BitsMonitorClient {
    InProcess(InProcessMonitor),
}

impl BitsMonitorClient {
    pub open spec fn inner(self) -> InProcessMonitor {
        match self {
            BitsMonitorClient::InProcess(m) => m,
        }
    }

    /// One status call; see `InProcessMonitor::get_status`.
    pub fn get_status(
        &mut self,
        vars: &mut MonitorVars,
        started: u64,
        now: u64,
        timeout_millis: u32,
        fetch: FetchOutcome,
    ) -> (r: Result<JobStatus, PipeError>)
        requires
            started <= now,
            started + timeout_millis < 0x1_0000_0000_0000_0000,
            old(self).inner().last_status_time matches Some(last) ==> last + old(vars).interval_millis < 0x1_0000_0000_0000_0000,
            !(spec_monitor_poll(
                *old(vars),
                old(self).inner().last_status_time,
                started,
                now,
                timeout_millis,
            ) is WaitUntil),
        ensures
            final(self).inner().guid == old(self).inner().guid,
            ({
                let decision = spec_monitor_poll(
                    *old(vars),
                    old(self).inner().last_status_time,
                    started,
                    now,
                    timeout_millis,
                );
                match decision {
                    MonitorDecision::NotConnected => r == Err::<JobStatus, PipeError>(
                        PipeError::NotConnected,
                    ) && *final(vars) == *old(vars) && final(self).inner() == old(self).inner(),
                    MonitorDecision::TimedOut => r == Err::<JobStatus, PipeError>(
                        PipeError::Timeout,
                    ) && *final(vars) == (MonitorVars { shutdown: true, ..*old(vars) }) && final(self).inner() == old(self).inner(),
                    MonitorDecision::FetchNow => final(self).inner().last_status_time == Some(now)
                        && (match fetch {
                        FetchOutcome::JobGone(e) => r == Err::<JobStatus, PipeError>(
                            PipeError::Api(e),
                        ) && *final(vars) == (MonitorVars {
                            notified: false,
                            shutdown: true,
                            ..*old(vars)
                        }) && final(self).inner().last_url == old(self).inner().last_url,
                        FetchOutcome::StatusFailed => r == Err::<JobStatus, PipeError>(
                            PipeError::NotConnected,
                        ) && *final(vars) == (MonitorVars {
                            notified: false,
                            shutdown: true,
                            ..*old(vars)
                        }) && final(self).inner().last_url == old(self).inner().last_url,
                        FetchOutcome::UrlFailed(e) => r == Err::<JobStatus, PipeError>(
                            PipeError::Api(e),
                        ) && *final(vars) == (MonitorVars {
                            notified: false,
                            shutdown: true,
                            ..*old(vars)
                        }) && final(self).inner().last_url == old(self).inner().last_url,
                        FetchOutcome::Fetched(raw, url) => *final(vars) == (MonitorVars {
                            notified: false,
                            ..*old(vars)
                        }) && (final(self).inner().last_url matches Some(u) && u@ == url@) && (r
                            matches Ok(js) && js@ == crate::in_process::spec_composed_status(
                            raw@,
                            if old(self).inner().last_url matches Some(u2) && u2@ == url@ {
                                None
                            } else {
                                Some(url@)
                            },
                        )),
                    }),
                    MonitorDecision::WaitUntil(_) => false,
                }
            }),
    {
        match self {
            BitsMonitorClient::InProcess(m) => m.get_status(
                vars,
                started,
                now,
                timeout_millis,
                fetch,
            ),
        }
    }
}

impl BitsClient {
    pub open spec fn inner(self) -> InProcessClient {
        match self {
            BitsClient::InProcess(c) => c,
        }
    }

    /// Creates an in-process client.
    pub fn new(job_name: String, save_path_prefix: String) -> (r: Result<BitsClient, PipeError>)
        ensures
            r matches Ok(c) && c.inner().job_name@ == job_name@ && c.inner().save_path_prefix@
                == save_path_prefix@ && c.inner().monitors@.len() == 0 && c.inner().wf(),
    {
        match InProcessClient::new(job_name, save_path_prefix) {
            Ok(c) => Ok(BitsClient::InProcess(c)),
            Err(e) => Err(e),
        }
    }

    /// Starts a job; see `InProcessClient::start_job`.
    pub fn start_job(
        &mut self,
        url: String,
        save_path: String,
        proxy_usage: ProxyUsage,
        monitor_interval_millis: u32,
        outcome: StartJobOutcome,
    ) -> (r: Result<Result<(StartJobSuccess, BitsMonitorClient), StartJobFailure>, PipeError>)
        requires
            old(self).inner().wf(),
        ensures
            final(self).inner().wf(),
            final(self).inner().job_name == old(self).inner().job_name,
            final(self).inner().save_path_prefix == old(self).inner().save_path_prefix,
            !(outcome is Created) ==> final(self).inner() == old(self).inner() && (r matches Ok(
                inner_r,
            ) && inner_r matches Err(f) && Some(f) == crate::in_process::spec_start_job_failure(
                outcome,
            )),
            outcome matches StartJobOutcome::Created(g) ==> (r matches Ok(inner_r) && inner_r
                matches Ok(p) && p.0 == (StartJobSuccess { guid: g }) && p.1.inner().guid == g
                && p.1.inner().last_status_time is None && p.1.inner().last_url is None) && final(self).inner().spec_has_monitor(g) && final(self).inner().spec_monitor_vars(g)
                == (MonitorVars {
                interval_millis: monitor_interval_millis,
                notified: false,
                shutdown: false,
            }) && InProcessClient::monitors_agree_except(
                final(self).inner(),
                old(self).inner(),
                g,
            ),
    {
        match self {
            BitsClient::InProcess(c) => Ok(
                match c.start_job(url, save_path, proxy_usage, monitor_interval_millis, outcome) {
                    Ok((success, monitor)) => Ok((success, BitsMonitorClient::InProcess(monitor))),
                    Err(f) => Err(f),
                },
            ),
        }
    }

    /// Attaches a monitor to an existing job; see
    /// `InProcessClient::monitor_job`.
    pub fn monitor_job(
        &mut self,
        guid: Guid,
        interval_millis: u32,
        outcome: MonitorJobOutcome,
    ) -> (r: Result<Result<BitsMonitorClient, MonitorJobFailure>, PipeError>)
        requires
            old(self).inner().wf(),
        ensures
            final(self).inner().wf(),
            final(self).inner().job_name == old(self).inner().job_name,
            final(self).inner().save_path_prefix == old(self).inner().save_path_prefix,
            !(outcome is Registered) ==> final(self).inner() == old(self).inner() && (r matches
                Ok(inner_r) && inner_r matches Err(f) && Some(f)
                == crate::in_process::spec_monitor_job_failure(outcome)),
            outcome is Registered ==> (r matches Ok(inner_r) && inner_r matches Ok(m)
                && m.inner().guid == guid && m.inner().last_status_time is None
                && m.inner().last_url is None) && final(self).inner().spec_has_monitor(guid)
                && final(self).inner().spec_monitor_vars(guid) == (MonitorVars {
                interval_millis,
                notified: false,
                shutdown: false,
            }) && InProcessClient::monitors_agree_except(
                final(self).inner(),
                old(self).inner(),
                guid,
            ),
    {
        match self {
            BitsClient::InProcess(c) => Ok(
                match c.monitor_job(guid, interval_millis, outcome) {
                    Ok(monitor) => Ok(BitsMonitorClient::InProcess(monitor)),
                    Err(f) => Err(f),
                },
            ),
        }
    }

    /// Resumes a job; see `InProcessClient::resume_job`.
    pub fn resume_job(&mut self, guid: Guid, outcome: JobOpOutcome) -> (r: Result<
        Result<(), ResumeJobFailure>,
        PipeError,
    >)
        requires
            old(self).inner().wf(),
        ensures
            final(self).inner() == old(self).inner(),
            outcome is Succeeded ==> (r matches Ok(inner_r) && inner_r is Ok),
            !(outcome is Succeeded) ==> (r matches Ok(inner_r) && inner_r matches Err(f) && Some(
                f,
            ) == crate::in_process::spec_resume_job_failure(outcome)),
    {
        match self {
            BitsClient::InProcess(c) => Ok(c.resume_job(guid, outcome)),
        }
    }

    /// Sets a job's scheduling priority; see
    /// `InProcessClient::set_job_priority`.
    pub fn set_job_priority(
        &mut self,
        guid: Guid,
        foreground: bool,
        outcome: JobOpOutcome,
    ) -> (r: Result<Result<(), SetJobPriorityFailure>, PipeError>)
        requires
            old(self).inner().wf(),
        ensures
            final(self).inner() == old(self).inner(),
            outcome is Succeeded ==> (r matches Ok(inner_r) && inner_r is Ok),
            !(outcome is Succeeded) ==> (r matches Ok(inner_r) && inner_r matches Err(f) && Some(
                f,
            ) == crate::in_process::spec_set_job_priority_failure(outcome)),
    {
        match self {
            BitsClient::InProcess(c) => Ok(c.set_job_priority(guid, foreground, outcome)),
        }
    }

    /// Changes a monitor's reporting interval; see
    /// `InProcessClient::set_update_interval`.
    pub fn set_update_interval(&mut self, guid: Guid, interval_millis: u32) -> (r: Result<
        Result<(), SetUpdateIntervalFailure>,
        PipeError,
    >)
        requires
            old(self).inner().wf(),
        ensures
            final(self).inner().wf(),
            final(self).inner().job_name == old(self).inner().job_name,
            final(self).inner().save_path_prefix == old(self).inner().save_path_prefix,
            r matches Ok(inner_r) && ((inner_r is Ok) <==> old(self).inner().spec_has_monitor(
                guid,
            )),
            !old(self).inner().spec_has_monitor(guid) ==> final(self).inner() == old(self).inner()
                && (r matches Ok(inner_r) && inner_r == Err::<(), SetUpdateIntervalFailure>(
                SetUpdateIntervalFailure::NotFound,
            )),
            old(self).inner().spec_has_monitor(guid) ==> final(self).inner().spec_has_monitor(
                guid,
            ) && final(self).inner().spec_monitor_vars(guid) == (MonitorVars {
                interval_millis,
                ..old(self).inner().spec_monitor_vars(guid)
            }) && InProcessClient::monitors_agree_except(
                final(self).inner(),
                old(self).inner(),
                guid,
            ),
    {
        match self {
            BitsClient::InProcess(c) => Ok(c.set_update_interval(guid, interval_millis)),
        }
    }

    /// Stops a job's monitor; see `InProcessClient::stop_update`.
    pub fn stop_update(&mut self, guid: Guid) -> (r: Result<
        Result<(), SetUpdateIntervalFailure>,
        PipeError,
    >)
        requires
            old(self).inner().wf(),
        ensures
            final(self).inner().wf(),
            final(self).inner().job_name == old(self).inner().job_name,
            final(self).inner().save_path_prefix == old(self).inner().save_path_prefix,
            r matches Ok(inner_r) && ((inner_r is Ok) <==> old(self).inner().spec_has_monitor(
                guid,
            )),
            !old(self).inner().spec_has_monitor(guid) ==> final(self).inner() == old(self).inner()
                && (r matches Ok(inner_r) && inner_r == Err::<(), SetUpdateIntervalFailure>(
                SetUpdateIntervalFailure::NotFound,
            )),
            old(self).inner().spec_has_monitor(guid) ==> final(self).inner().spec_has_monitor(
                guid,
            ) && final(self).inner().spec_monitor_vars(guid) == (MonitorVars {
                shutdown: true,
                ..old(self).inner().spec_monitor_vars(guid)
            }) && InProcessClient::monitors_agree_except(
                final(self).inner(),
                old(self).inner(),
                guid,
            ),
    {
        match self {
            BitsClient::InProcess(c) => Ok(c.stop_update(guid)),
        }
    }

    /// Completes a job; see `InProcessClient::complete_job`.
    pub fn complete_job(&mut self, guid: Guid, outcome: JobOpOutcome) -> (r: Result<
        Result<(), CompleteJobFailure>,
        PipeError,
    >)
        requires
            old(self).inner().wf(),
        ensures
            final(self).inner().wf(),
            final(self).inner().job_name == old(self).inner().job_name,
            final(self).inner().save_path_prefix == old(self).inner().save_path_prefix,
            !(outcome is Succeeded) ==> final(self).inner() == old(self).inner() && (r matches Ok(
                inner_r,
            ) && inner_r matches Err(f) && Some(f) == crate::in_process::spec_complete_job_failure(
                outcome,
            )),
            outcome is Succeeded ==> (r matches Ok(inner_r) && inner_r is Ok) && (!old(self).inner().spec_has_monitor(guid) ==> final(self).inner() == old(self).inner()) && (old(self).inner().spec_has_monitor(guid) ==> final(self).inner().spec_has_monitor(guid)
                && final(self).inner().spec_monitor_vars(guid) == (MonitorVars {
                shutdown: true,
                ..old(self).inner().spec_monitor_vars(guid)
            }) && InProcessClient::monitors_agree_except(
                final(self).inner(),
                old(self).inner(),
                guid,
            )),
    {
        match self {
            BitsClient::InProcess(c) => Ok(c.complete_job(guid, outcome)),
        }
    }

    /// Cancels a job; see `InProcessClient::cancel_job`.
    pub fn cancel_job(&mut self, guid: Guid, outcome: JobOpOutcome) -> (r: Result<
        Result<(), CancelJobFailure>,
        PipeError,
    >)
        requires
            old(self).inner().wf(),
        ensures
            final(self).inner().wf(),
            final(self).inner().job_name == old(self).inner().job_name,
            final(self).inner().save_path_prefix == old(self).inner().save_path_prefix,
            !(outcome is Succeeded) ==> final(self).inner() == old(self).inner() && (r matches Ok(
                inner_r,
            ) && inner_r matches Err(f) && Some(f) == crate::in_process::spec_cancel_job_failure(
                outcome,
            )),
            outcome is Succeeded ==> (r matches Ok(inner_r) && inner_r is Ok) && (!old(self).inner().spec_has_monitor(guid) ==> final(self).inner() == old(self).inner()) && (old(self).inner().spec_has_monitor(guid) ==> final(self).inner().spec_has_monitor(guid)
                && final(self).inner().spec_monitor_vars(guid) == (MonitorVars {
                shutdown: true,
                ..old(self).inner().spec_monitor_vars(guid)
            }) && InProcessClient::monitors_agree_except(
                final(self).inner(),
                old(self).inner(),
                guid,
            )),
    {
        match self {
            BitsClient::InProcess(c) => Ok(c.cancel_job(guid, outcome)),
        }
    }
}

} // verus!
