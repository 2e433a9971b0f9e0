//! The in-process client: command decisions against the transfer service.
//!
//! The service itself is an external collaborator; every call into it is
//! made by the process that owns the COM machinery, and what came of such a
//! call arrives here as a plain outcome value.  This module holds
//! everything the client decides from those outcomes: which typed failure
//! each failing step maps to, the registry of monitor controls per job, and
//! the monitor's own snapshot bookkeeping.

use vstd::prelude::*;

use crate::guid::Guid;
use crate::monitor::{
    spec_monitor_poll, MonitorDecision, MonitorVars, monitor_begin_fetch, monitor_abort,
    update_reported_url,
};
use crate::pipe::PipeError;
use crate::protocol::{
    CancelJobFailure, CompleteJobFailure, HResultMessage, JobError, JobStatus, MonitorJobFailure,
    ProxyUsage, ResumeJobFailure, SetJobPriorityFailure, SetUpdateIntervalFailure,
    StartJobFailure, StartJobSuccess, SuspendJobFailure,
};
use crate::status::{BitsJobPriority, BitsJobStatus, BitsJobStatusV};

verus! {

/// How far a `start` request got against the service.
#[derive(Clone, Debug, PartialEq, Eq)]
pub enum StartJobOutcome {
    /// Connecting to the service failed, with its printed form.
    ConnectFailed(String),
    CreateFailed(HResultMessage),
    GetGuidFailed(HResultMessage),
    ApplySettingsFailed(HResultMessage),
    RegisterFailed(HResultMessage),
    AddFileFailed(HResultMessage),
    ResumeFailed(HResultMessage),
    /// Everything succeeded; the service assigned this job identifier.
    Created(Guid),
}

/// How far a `monitor` request got against the service.
#[derive(Clone, Debug, PartialEq, Eq)]
pub enum MonitorJobOutcome {
    ConnectFailed(String),
    FindFailed(HResultMessage),
    /// No job with that identifier and our job name exists.
    JobNotFound,
    RegisterFailed(HResultMessage),
    Registered,
}

/// How far a single-call job operation (suspend, resume, set-priority,
/// complete, cancel) got against the service.
#[derive(Clone, Debug, PartialEq, Eq)]
pub enum JobOpOutcome {
    ConnectFailed(String),
    FindFailed(HResultMessage),
    /// No job with that identifier and our job name exists.
    JobNotFound,
    /// The job was found but the operation itself failed.
    OpFailed(HResultMessage),
    Succeeded,
}

/// The priority a `set-priority` request selects: foreground raises the
/// job, otherwise it runs at normal priority.
pub fn job_priority(foreground: bool) -> (r: BitsJobPriority)
    ensures
        foreground ==> r == BitsJobPriority::Foreground,
        !foreground ==> r == BitsJobPriority::Normal,
{
    if foreground {
        BitsJobPriority::Foreground
    } else {
        BitsJobPriority::Normal
    }
}

/// A watcher of one job: which job, when the last snapshot was taken, and
/// the URL last reported (for redirect-change detection).
#[derive(Clone, Debug, PartialEq, Eq)]
pub struct InProcessMonitor {
    pub guid: Guid,
    pub last_status_time: Option<u64>,
    pub last_url: Option<String>,
}

/// What came of fetching a snapshot for a monitored job.
#[derive(Clone, Debug, PartialEq, Eq)]
pub enum FetchOutcome {
    /// The service or the job could not be reached; the failing call's
    /// error.
    JobGone(crate::oserror::ApiError),
    /// The job was reached but refused a status report.
    StatusFailed,
    /// The status came back but the source URL could not be read.
    UrlFailed(crate::oserror::ApiError),
    /// A raw status report and the job's current source URL.
    Fetched(BitsJobStatus, String),
}

/// The full report composed from a raw service status and the URL decided
/// by redirect-change detection.
pub open spec fn spec_composed_status(raw: BitsJobStatusV, url: Option<Seq<char>>) -> crate::protocol::JobStatusV {
    crate::protocol::JobStatusV {
        state: raw.state,
        progress: raw.progress,
        error_count: raw.error_count,
        error: match raw.error {
            Some(e) => Some(
                crate::protocol::JobErrorV {
                    context: e.context,
                    context_str: e.context_str,
                    error: crate::protocol::HResultMessageV { hr: e.error, message: e.error_str },
                },
            ),
            None => None,
        },
        times: raw.times,
        url,
    }
}

impl InProcessMonitor {
    /// A fresh monitor for a job: no snapshot taken, no URL reported yet.
    pub fn new(guid: Guid) -> (r: InProcessMonitor)
        ensures
            r.guid == guid,
            r.last_status_time is None,
            r.last_url is None,
    {
        InProcessMonitor { guid, last_status_time: None, last_url: None }
    }

    /// One status call, after the caller's wait loop has settled on a
    /// decision other than waiting: fail at once if shut down or over
    /// budget (shutting the monitor down), otherwise take the fetched
    /// snapshot, stamp the time, consume the notification and apply
    /// redirect-change detection; any fetch error also shuts the monitor
    /// down.
    pub fn get_status(
        &mut self,
        vars: &mut MonitorVars,
        started: u64,
        now: u64,
        timeout_millis: u32,
        fetch: FetchOutcome,
    ) -> (r: Result<JobStatus, PipeError>)
        requires
            started <= now,
            started + timeout_millis < 0x1_0000_0000_0000_0000,
            old(self).last_status_time matches Some(last) ==> last + old(vars).interval_millis
                < 0x1_0000_0000_0000_0000,
            !(spec_monitor_poll(
                *old(vars),
                old(self).last_status_time,
                started,
                now,
                timeout_millis,
            ) is WaitUntil),
        ensures
            final(self).guid == old(self).guid,
            ({
                let decision = spec_monitor_poll(
                    *old(vars),
                    old(self).last_status_time,
                    started,
                    now,
                    timeout_millis,
                );
                match decision {
                    MonitorDecision::NotConnected => r == Err::<JobStatus, PipeError>(
                        PipeError::NotConnected,
                    ) && *final(vars) == *old(vars) && *final(self) == *old(self),
                    MonitorDecision::TimedOut => r == Err::<JobStatus, PipeError>(
                        PipeError::Timeout,
                    ) && *final(vars) == (MonitorVars { shutdown: true, ..*old(vars) }) && *final(self) == *old(self),
                    MonitorDecision::FetchNow => final(self).last_status_time == Some(now)
                        && (match fetch {
                        FetchOutcome::JobGone(e) => r == Err::<JobStatus, PipeError>(
                            PipeError::Api(e),
                        ) && *final(vars) == (MonitorVars {
                            notified: false,
                            shutdown: true,
                            ..*old(vars)
                        }) && final(self).last_url == old(self).last_url,
                        FetchOutcome::StatusFailed => r == Err::<JobStatus, PipeError>(
                            PipeError::NotConnected,
                        ) && *final(vars) == (MonitorVars {
                            notified: false,
                            shutdown: true,
                            ..*old(vars)
                        }) && final(self).last_url == old(self).last_url,
                        FetchOutcome::UrlFailed(e) => r == Err::<JobStatus, PipeError>(
                            PipeError::Api(e),
                        ) && *final(vars) == (MonitorVars {
                            notified: false,
                            shutdown: true,
                            ..*old(vars)
                        }) && final(self).last_url == old(self).last_url,
                        FetchOutcome::Fetched(raw, url) => *final(vars) == (MonitorVars {
                            notified: false,
                            ..*old(vars)
                        }) && (final(self).last_url matches Some(u) && u@ == url@) && (r matches
                            Ok(js) && js@ == spec_composed_status(
                            raw@,
                            if old(self).last_url matches Some(u2) && u2@ == url@ {
                                None
                            } else {
                                Some(url@)
                            },
                        )),
                    }),
                    MonitorDecision::WaitUntil(_) => false,
                }
            }),
    {
        if vars.shutdown {
            return Err(PipeError::NotConnected);
        }
        if now - started > timeout_millis as u64 {
            monitor_abort(vars);
            return Err(PipeError::Timeout);
        }
        monitor_begin_fetch(vars);
        self.last_status_time = Some(now);
        match fetch {
            FetchOutcome::JobGone(e) => {
                monitor_abort(vars);
                Err(PipeError::Api(e))
            },
            FetchOutcome::StatusFailed => {
                monitor_abort(vars);
                Err(PipeError::NotConnected)
            },
            FetchOutcome::UrlFailed(e) => {
                monitor_abort(vars);
                Err(PipeError::Api(e))
            },
            FetchOutcome::Fetched(raw, url) => {
                let reported = update_reported_url(&mut self.last_url, url);
                let error = match raw.error {
                    Some(e) => Some(
                        JobError {
                            context: e.context,
                            context_str: e.context_str,
                            error: HResultMessage { hr: e.error, message: e.error_str },
                        },
                    ),
                    None => None,
                };
                Ok(
                    JobStatus {
                        state: raw.state,
                        progress: raw.progress,
                        error_count: raw.error_count,
                        error,
                        times: raw.times,
                        url: reported,
                    },
                )
            },
        }
    }
}

/// The in-process client: holds the job name it manages, the local prefix
/// under which files are saved, and one monitor control per watched job.
#[derive(Debug)]
pub struct InProcessClient {
    pub job_name: String,
    pub save_path_prefix: String,
    pub monitors: Vec<(Guid, MonitorVars)>,
}

impl InProcessClient {
    /// At most one monitor control per job identifier.
    pub open spec fn wf(self) -> bool {
        forall|i: int, j: int|
            #![trigger self.monitors@[i], self.monitors@[j]]
            0 <= i < j < self.monitors@.len() ==> self.monitors@[i].0 != self.monitors@[j].0
    }

    /// Whether a monitor control is registered for this job.
    pub open spec fn spec_has_monitor(self, g: Guid) -> bool {
        exists|i: int| 0 <= i < self.monitors@.len() && (#[trigger] self.monitors@[i]).0 == g
    }

    pub open spec fn spec_monitor_index(self, g: Guid) -> int {
        choose|i: int| 0 <= i < self.monitors@.len() && (#[trigger] self.monitors@[i]).0 == g
    }

    /// The registered control's state for this job.
    pub open spec fn spec_monitor_vars(self, g: Guid) -> MonitorVars {
        self.monitors@[self.spec_monitor_index(g)].1
    }

    /// The registries of `a` and `b` agree on every job but `g`.
    pub open spec fn monitors_agree_except(a: InProcessClient, b: InProcessClient, g: Guid) -> bool {
        forall|g2: Guid|
            g2 != g ==> (#[trigger] a.spec_has_monitor(g2)) == b.spec_has_monitor(g2) && (
            a.spec_has_monitor(g2) ==> a.spec_monitor_vars(g2) == b.spec_monitor_vars(g2))
    }

    pub fn new(job_name: String, save_path_prefix: String) -> (r: Result<
        InProcessClient,
        PipeError,
    >)
        ensures
            r matches Ok(c) && c.job_name@ == job_name@ && c.save_path_prefix@
                == save_path_prefix@ && c.monitors@.len() == 0 && c.wf(),
    {
        Ok(InProcessClient { job_name, save_path_prefix, monitors: Vec::new() })
    }

    /// The local path a job's file is saved under: the client's prefix
    /// followed by the requested relative path.
    pub fn full_save_path(&self, save_path: &str) -> (r: String)
        ensures
            r@ == self.save_path_prefix@ + save_path@,
    {
        let mut full = self.save_path_prefix.clone();
        full.append(save_path);
        full
    }

    fn find_monitor(&self, guid: &Guid) -> (r: Option<usize>)
        ensures
            match r {
                Some(i) => i < self.monitors@.len() && self.monitors@[i as int].0 == *guid
                    && self.spec_has_monitor(*guid),
                None => !self.spec_has_monitor(*guid),
            },
    {
        let mut k: usize = 0;
        while k < self.monitors.len()
            invariant
                k <= self.monitors@.len(),
                forall|j: int| 0 <= j < k ==> (#[trigger] self.monitors@[j]).0 != *guid,
            decreases self.monitors@.len() - k,
        {
            if self.monitors[k].0 == *guid {
                return Some(k);
            }
            k = k + 1;
        }
        None
    }

    /// Registers (or replaces) the monitor control for a job.
    fn put_monitor(&mut self, guid: Guid, vars: MonitorVars)
        requires
            old(self).wf(),
        ensures
            final(self).wf(),
            final(self).job_name == old(self).job_name,
            final(self).save_path_prefix == old(self).save_path_prefix,
            final(self).spec_has_monitor(guid),
            final(self).spec_monitor_vars(guid) == vars,
            InProcessClient::monitors_agree_except(*final(self), *old(self), guid),
    {
        let found = self.find_monitor(&guid);
        match found {
            Some(i) => {
                self.monitors.remove(i);
                proof {
                    let s0 = old(self).monitors@;
                    let s1 = self.monitors@;
                    assert forall|j: int| 0 <= j < s1.len() implies (#[trigger] s1[j]).0
                        != guid by {
                        if j < i {
                            assert(s1[j] == s0[j]);
                        } else {
                            assert(s1[j] == s0[j + 1]);
                        }
                    }
                }
            },
            None => {},
        }
        let ghost mid = *self;
        proof {
            let s0 = old(self).monitors@;
            let s1 = self.monitors@;
            assert forall|j: int| 0 <= j < s1.len() implies (#[trigger] s1[j]).0 != guid by {}
            assert(mid.wf()) by {
                if found is Some {
                    let i = found->0 as int;
                    assert forall|a: int, b: int|
                        #![trigger s1[a], s1[b]]
                        0 <= a < b < s1.len() implies s1[a].0 != s1[b].0 by {
                        let a0 = if a < i {
                            a
                        } else {
                            a + 1
                        };
                        let b0 = if b < i {
                            b
                        } else {
                            b + 1
                        };
                        assert(s1[a] == s0[a0]);
                        assert(s1[b] == s0[b0]);
                    }
                }
            }
        }
        self.monitors.push((guid, vars));
        proof {
            let s1 = mid.monitors@;
            let s2 = self.monitors@;
            let n = s1.len() as int;
            assert(s2 == s1.push((guid, vars)));
            assert(s2[n] == (guid, vars));
            assert(final(self).wf()) by {
                assert forall|a: int, b: int|
                    #![trigger s2[a], s2[b]]
                    0 <= a < b < s2.len() implies s2[a].0 != s2[b].0 by {
                    if b < n {
                        assert(s2[a] == s1[a]);
                        assert(s2[b] == s1[b]);
                        assert(mid.wf());
                    } else {
                        assert(s2[a] == s1[a]);
                        assert(s1[a].0 != guid);
                    }
                }
            }
            assert(final(self).spec_has_monitor(guid)) by {
                assert(s2[n].0 == guid);
            }
            assert(final(self).spec_monitor_vars(guid) == vars) by {
                let k = final(self).spec_monitor_index(guid);
                assert(0 <= k < s2.len() && s2[k].0 == guid);
                if k < n {
                    assert(s2[k] == s1[k]);
                    assert(s1[k].0 != guid);
                }
                assert(k == n);
            }
            assert(InProcessClient::monitors_agree_except(*final(self), *old(self), guid)) by {
                let s0 = old(self).monitors@;
                assert forall|g2: Guid|
                    g2 != guid implies (#[trigger] final(self).spec_has_monitor(g2)) == old(self).spec_has_monitor(g2) && (final(self).spec_has_monitor(g2) ==> final(self).spec_monitor_vars(g2) == old(self).spec_monitor_vars(g2)) by {
                    lemma_put_agree(s0, s1, s2, found, guid, vars, g2);
                }
            }
        }
    }

    /// Rewrites a registered control's interval.  Returns whether the job
    /// had a monitor control at all.
    fn with_monitor_interval(&mut self, guid: Guid, interval_millis: u32) -> (r: bool)
        requires
            old(self).wf(),
        ensures
            final(self).wf(),
            final(self).job_name == old(self).job_name,
            final(self).save_path_prefix == old(self).save_path_prefix,
            r == old(self).spec_has_monitor(guid),
            !r ==> *final(self) == *old(self),
            r ==> final(self).spec_has_monitor(guid) && final(self).spec_monitor_vars(guid) == (
            MonitorVars { interval_millis, ..old(self).spec_monitor_vars(guid) })
                && InProcessClient::monitors_agree_except(*final(self), *old(self), guid),
    {
        let found = self.find_monitor(&guid);
        match found {
            None => false,
            Some(i) => {
                let cur = self.monitors[i].1;
                proof {
                    lemma_vars_at_index(*self, guid, i as int);
                }
                self.put_monitor(guid, MonitorVars { interval_millis, ..cur });
                true
            },
        }
    }

    fn with_monitor_shutdown(&mut self, guid: Guid) -> (r: bool)
        requires
            old(self).wf(),
        ensures
            final(self).wf(),
            final(self).job_name == old(self).job_name,
            final(self).save_path_prefix == old(self).save_path_prefix,
            r == old(self).spec_has_monitor(guid),
            !r ==> *final(self) == *old(self),
            r ==> final(self).spec_has_monitor(guid) && final(self).spec_monitor_vars(guid) == (
            MonitorVars { shutdown: true, ..old(self).spec_monitor_vars(guid) })
                && InProcessClient::monitors_agree_except(*final(self), *old(self), guid),
    {
        let found = self.find_monitor(&guid);
        match found {
            None => false,
            Some(i) => {
                let cur = self.monitors[i].1;
                proof {
                    lemma_vars_at_index(*self, guid, i as int);
                }
                self.put_monitor(guid, MonitorVars { shutdown: true, ..cur });
                true
            },
        }
    }
}

/// The typed failure each failing `start` step maps to.
pub open spec fn spec_start_job_failure(outcome: StartJobOutcome) -> Option<StartJobFailure> {
    match outcome {
        StartJobOutcome::ConnectFailed(s) => Some(StartJobFailure::Other(s)),
        StartJobOutcome::CreateFailed(m) => Some(StartJobFailure::Create(m)),
        StartJobOutcome::GetGuidFailed(m) => Some(StartJobFailure::OtherBITS(m)),
        StartJobOutcome::ApplySettingsFailed(m) => Some(StartJobFailure::ApplySettings(m)),
        StartJobOutcome::RegisterFailed(m) => Some(StartJobFailure::OtherBITS(m)),
        StartJobOutcome::AddFileFailed(m) => Some(StartJobFailure::AddFile(m)),
        StartJobOutcome::ResumeFailed(m) => Some(StartJobFailure::Resume(m)),
        StartJobOutcome::Created(_) => None,
    }
}

/// The typed failure each failing `monitor` step maps to.
pub open spec fn spec_monitor_job_failure(outcome: MonitorJobOutcome) -> Option<
    MonitorJobFailure,
> {
    match outcome {
        MonitorJobOutcome::ConnectFailed(s) => Some(MonitorJobFailure::Other(s)),
        MonitorJobOutcome::FindFailed(m) => Some(MonitorJobFailure::GetJob(m)),
        MonitorJobOutcome::JobNotFound => Some(MonitorJobFailure::NotFound),
        MonitorJobOutcome::RegisterFailed(m) => Some(MonitorJobFailure::OtherBITS(m)),
        MonitorJobOutcome::Registered => None,
    }
}

pub open spec fn spec_suspend_job_failure(outcome: JobOpOutcome) -> Option<SuspendJobFailure> {
    match outcome {
        JobOpOutcome::ConnectFailed(s) => Some(SuspendJobFailure::Other(s)),
        JobOpOutcome::FindFailed(m) => Some(SuspendJobFailure::GetJob(m)),
        JobOpOutcome::JobNotFound => Some(SuspendJobFailure::NotFound),
        JobOpOutcome::OpFailed(m) => Some(SuspendJobFailure::SuspendJob(m)),
        JobOpOutcome::Succeeded => None,
    }
}

pub open spec fn spec_resume_job_failure(outcome: JobOpOutcome) -> Option<ResumeJobFailure> {
    match outcome {
        JobOpOutcome::ConnectFailed(s) => Some(ResumeJobFailure::Other(s)),
        JobOpOutcome::FindFailed(m) => Some(ResumeJobFailure::GetJob(m)),
        JobOpOutcome::JobNotFound => Some(ResumeJobFailure::NotFound),
        JobOpOutcome::OpFailed(m) => Some(ResumeJobFailure::ResumeJob(m)),
        JobOpOutcome::Succeeded => None,
    }
}

pub open spec fn spec_set_job_priority_failure(outcome: JobOpOutcome) -> Option<
    SetJobPriorityFailure,
> {
    match outcome {
        JobOpOutcome::ConnectFailed(s) => Some(SetJobPriorityFailure::Other(s)),
        JobOpOutcome::FindFailed(m) => Some(SetJobPriorityFailure::GetJob(m)),
        JobOpOutcome::JobNotFound => Some(SetJobPriorityFailure::NotFound),
        JobOpOutcome::OpFailed(m) => Some(SetJobPriorityFailure::ApplySettings(m)),
        JobOpOutcome::Succeeded => None,
    }
}

pub open spec fn spec_complete_job_failure(outcome: JobOpOutcome) -> Option<CompleteJobFailure> {
    match outcome {
        JobOpOutcome::ConnectFailed(s) => Some(CompleteJobFailure::Other(s)),
        JobOpOutcome::FindFailed(m) => Some(CompleteJobFailure::GetJob(m)),
        JobOpOutcome::JobNotFound => Some(CompleteJobFailure::NotFound),
        JobOpOutcome::OpFailed(m) => Some(CompleteJobFailure::CompleteJob(m)),
        JobOpOutcome::Succeeded => None,
    }
}

pub open spec fn spec_cancel_job_failure(outcome: JobOpOutcome) -> Option<CancelJobFailure> {
    match outcome {
        JobOpOutcome::ConnectFailed(s) => Some(CancelJobFailure::Other(s)),
        JobOpOutcome::FindFailed(m) => Some(CancelJobFailure::GetJob(m)),
        JobOpOutcome::JobNotFound => Some(CancelJobFailure::NotFound),
        JobOpOutcome::OpFailed(m) => Some(CancelJobFailure::CancelJob(m)),
        JobOpOutcome::Succeeded => None,
    }
}

impl InProcessClient {
    /// Starts a job.  The service work (create, settings, add-file,
    /// resume, notification registration) is the caller's; its outcome
    /// arrives as `outcome`.  Each failing step maps to its own typed
    /// failure; on success the job's monitor control is registered and a
    /// fresh monitor for the new job is handed back.
    #[allow(unused_variables)]
    pub fn start_job(
        &mut self,
        url: String,
        save_path: String,
        proxy_usage: ProxyUsage,
        monitor_interval_millis: u32,
        outcome: StartJobOutcome,
    ) -> (r: Result<(StartJobSuccess, InProcessMonitor), StartJobFailure>)
        requires
            old(self).wf(),
        ensures
            final(self).wf(),
            final(self).job_name == old(self).job_name,
            final(self).save_path_prefix == old(self).save_path_prefix,
            !(outcome is Created) ==> *final(self) == *old(self) && (r matches Err(f) && Some(f)
                == spec_start_job_failure(outcome)),
            outcome matches StartJobOutcome::Created(g) ==> (r matches Ok(p) && p.0
                == (StartJobSuccess { guid: g }) && p.1.guid == g && p.1.last_status_time is None
                && p.1.last_url is None) && final(self).spec_has_monitor(g) && final(self).spec_monitor_vars(g) == (MonitorVars {
                interval_millis: monitor_interval_millis,
                notified: false,
                shutdown: false,
            }) && InProcessClient::monitors_agree_except(*final(self), *old(self), g),
    {
        match outcome {
            StartJobOutcome::ConnectFailed(s) => Err(StartJobFailure::Other(s)),
            StartJobOutcome::CreateFailed(m) => Err(StartJobFailure::Create(m)),
            StartJobOutcome::GetGuidFailed(m) => Err(StartJobFailure::OtherBITS(m)),
            StartJobOutcome::ApplySettingsFailed(m) => Err(StartJobFailure::ApplySettings(m)),
            StartJobOutcome::RegisterFailed(m) => Err(StartJobFailure::OtherBITS(m)),
            StartJobOutcome::AddFileFailed(m) => Err(StartJobFailure::AddFile(m)),
            StartJobOutcome::ResumeFailed(m) => Err(StartJobFailure::Resume(m)),
            StartJobOutcome::Created(g) => {
                self.put_monitor(
                    g,
                    MonitorVars {
                        interval_millis: monitor_interval_millis,
                        notified: false,
                        shutdown: false,
                    },
                );
                Ok((StartJobSuccess { guid: g }, InProcessMonitor::new(g)))
            },
        }
    }

    /// Attaches a monitor to an existing job.  On success the job's
    /// monitor control is replaced by a fresh one (stopping any previous
    /// monitor of the same job) and a fresh monitor is handed back.
    pub fn monitor_job(&mut self, guid: Guid, interval_millis: u32, outcome: MonitorJobOutcome) -> (
        r: Result<InProcessMonitor, MonitorJobFailure>)
        requires
            old(self).wf(),
        ensures
            final(self).wf(),
            final(self).job_name == old(self).job_name,
            final(self).save_path_prefix == old(self).save_path_prefix,
            !(outcome is Registered) ==> *final(self) == *old(self) && (r matches Err(f) && Some(
                f,
            ) == spec_monitor_job_failure(outcome)),
            outcome is Registered ==> (r matches Ok(m) && m.guid == guid
                && m.last_status_time is None && m.last_url is None) && final(self).spec_has_monitor(guid) && final(self).spec_monitor_vars(guid) == (MonitorVars {
                interval_millis,
                notified: false,
                shutdown: false,
            }) && InProcessClient::monitors_agree_except(*final(self), *old(self), guid),
    {
        match outcome {
            MonitorJobOutcome::ConnectFailed(s) => Err(MonitorJobFailure::Other(s)),
            MonitorJobOutcome::FindFailed(m) => Err(MonitorJobFailure::GetJob(m)),
            MonitorJobOutcome::JobNotFound => Err(MonitorJobFailure::NotFound),
            MonitorJobOutcome::RegisterFailed(m) => Err(MonitorJobFailure::OtherBITS(m)),
            MonitorJobOutcome::Registered => {
                self.put_monitor(
                    guid,
                    MonitorVars { interval_millis, notified: false, shutdown: false },
                );
                Ok(InProcessMonitor::new(guid))
            },
        }
    }

    /// Pauses a job; purely a mapping of the service outcome.
    pub fn suspend_job(&mut self, guid: Guid, outcome: JobOpOutcome) -> (r: Result<
        (),
        SuspendJobFailure,
    >)
        requires
            old(self).wf(),
        ensures
            *final(self) == *old(self),
            outcome is Succeeded ==> r is Ok,
            !(outcome is Succeeded) ==> (r matches Err(f) && Some(f) == spec_suspend_job_failure(
                outcome,
            )),
    {
        match outcome {
            JobOpOutcome::ConnectFailed(s) => Err(SuspendJobFailure::Other(s)),
            JobOpOutcome::FindFailed(m) => Err(SuspendJobFailure::GetJob(m)),
            JobOpOutcome::JobNotFound => Err(SuspendJobFailure::NotFound),
            JobOpOutcome::OpFailed(m) => Err(SuspendJobFailure::SuspendJob(m)),
            JobOpOutcome::Succeeded => Ok(()),
        }
    }

    /// Resumes a job; purely a mapping of the service outcome.
    pub fn resume_job(&mut self, guid: Guid, outcome: JobOpOutcome) -> (r: Result<
        (),
        ResumeJobFailure,
    >)
        requires
            old(self).wf(),
        ensures
            *final(self) == *old(self),
            outcome is Succeeded ==> r is Ok,
            !(outcome is Succeeded) ==> (r matches Err(f) && Some(f) == spec_resume_job_failure(
                outcome,
            )),
    {
        match outcome {
            JobOpOutcome::ConnectFailed(s) => Err(ResumeJobFailure::Other(s)),
            JobOpOutcome::FindFailed(m) => Err(ResumeJobFailure::GetJob(m)),
            JobOpOutcome::JobNotFound => Err(ResumeJobFailure::NotFound),
            JobOpOutcome::OpFailed(m) => Err(ResumeJobFailure::ResumeJob(m)),
            JobOpOutcome::Succeeded => Ok(()),
        }
    }

    /// Moves a job between foreground and normal priority; purely a
    /// mapping of the service outcome (`job_priority` picks the priority
    /// the caller applies).
    #[allow(unused_variables)]
    pub fn set_job_priority(&mut self, guid: Guid, foreground: bool, outcome: JobOpOutcome) -> (r:
        Result<(), SetJobPriorityFailure>)
        requires
            old(self).wf(),
        ensures
            *final(self) == *old(self),
            outcome is Succeeded ==> r is Ok,
            !(outcome is Succeeded) ==> (r matches Err(f) && Some(f)
                == spec_set_job_priority_failure(outcome)),
    {
        match outcome {
            JobOpOutcome::ConnectFailed(s) => Err(SetJobPriorityFailure::Other(s)),
            JobOpOutcome::FindFailed(m) => Err(SetJobPriorityFailure::GetJob(m)),
            JobOpOutcome::JobNotFound => Err(SetJobPriorityFailure::NotFound),
            JobOpOutcome::OpFailed(m) => Err(SetJobPriorityFailure::ApplySettings(m)),
            JobOpOutcome::Succeeded => Ok(()),
        }
    }

    /// Changes how often a registered monitor reports.  Succeeds exactly
    /// when the job has a live monitor control; the caller then wakes the
    /// monitor's condition variable.
    pub fn set_update_interval(&mut self, guid: Guid, interval_millis: u32) -> (r: Result<
        (),
        SetUpdateIntervalFailure,
    >)
        requires
            old(self).wf(),
        ensures
            final(self).wf(),
            final(self).job_name == old(self).job_name,
            final(self).save_path_prefix == old(self).save_path_prefix,
            r is Ok <==> old(self).spec_has_monitor(guid),
            !old(self).spec_has_monitor(guid) ==> *final(self) == *old(self) && r == Err::<
                (),
                SetUpdateIntervalFailure,
            >(SetUpdateIntervalFailure::NotFound),
            old(self).spec_has_monitor(guid) ==> final(self).spec_has_monitor(guid) && final(self).spec_monitor_vars(guid) == (MonitorVars {
                interval_millis,
                ..old(self).spec_monitor_vars(guid)
            }) && InProcessClient::monitors_agree_except(*final(self), *old(self), guid),
    {
        if self.with_monitor_interval(guid, interval_millis) {
            Ok(())
        } else {
            Err(SetUpdateIntervalFailure::NotFound)
        }
    }

    /// Stops a registered monitor: its shutdown flag goes up (and stays
    /// up).  Succeeds exactly when the job has a live monitor control.
    /// Across the flag's one false-to-true step the caller also restores
    /// the job's scheduling priority (`priority_restore_due`).
    pub fn stop_update(&mut self, guid: Guid) -> (r: Result<(), SetUpdateIntervalFailure>)
        requires
            old(self).wf(),
        ensures
            final(self).wf(),
            final(self).job_name == old(self).job_name,
            final(self).save_path_prefix == old(self).save_path_prefix,
            r is Ok <==> old(self).spec_has_monitor(guid),
            !old(self).spec_has_monitor(guid) ==> *final(self) == *old(self) && r == Err::<
                (),
                SetUpdateIntervalFailure,
            >(SetUpdateIntervalFailure::NotFound),
            old(self).spec_has_monitor(guid) ==> final(self).spec_has_monitor(guid) && final(self).spec_monitor_vars(guid) == (MonitorVars {
                shutdown: true,
                ..old(self).spec_monitor_vars(guid)
            }) && InProcessClient::monitors_agree_except(*final(self), *old(self), guid),
    {
        if self.with_monitor_shutdown(guid) {
            Ok(())
        } else {
            Err(SetUpdateIntervalFailure::NotFound)
        }
    }

    /// Finishes a transferred job, committing its files; on success the
    /// job's monitor, if any, is stopped.
    pub fn complete_job(&mut self, guid: Guid, outcome: JobOpOutcome) -> (r: Result<
        (),
        CompleteJobFailure,
    >)
        requires
            old(self).wf(),
        ensures
            final(self).wf(),
            final(self).job_name == old(self).job_name,
            final(self).save_path_prefix == old(self).save_path_prefix,
            !(outcome is Succeeded) ==> *final(self) == *old(self) && (r matches Err(f) && Some(f)
                == spec_complete_job_failure(outcome)),
            outcome is Succeeded ==> r is Ok && (!old(self).spec_has_monitor(guid) ==> *final(self) == *old(self)) && (old(self).spec_has_monitor(guid) ==> final(self).spec_has_monitor(guid) && final(self).spec_monitor_vars(guid) == (MonitorVars {
                shutdown: true,
                ..old(self).spec_monitor_vars(guid)
            }) && InProcessClient::monitors_agree_except(*final(self), *old(self), guid)),
    {
        match outcome {
            JobOpOutcome::ConnectFailed(s) => Err(CompleteJobFailure::Other(s)),
            JobOpOutcome::FindFailed(m) => Err(CompleteJobFailure::GetJob(m)),
            JobOpOutcome::JobNotFound => Err(CompleteJobFailure::NotFound),
            JobOpOutcome::OpFailed(m) => Err(CompleteJobFailure::CompleteJob(m)),
            JobOpOutcome::Succeeded => {
                let _stopped = self.with_monitor_shutdown(guid);
                Ok(())
            },
        }
    }

    /// Abandons a job, discarding partial transfers; on success the job's
    /// monitor, if any, is stopped.
    pub fn cancel_job(&mut self, guid: Guid, outcome: JobOpOutcome) -> (r: Result<
        (),
        CancelJobFailure,
    >)
        requires
            old(self).wf(),
        ensures
            final(self).wf(),
            final(self).job_name == old(self).job_name,
            final(self).save_path_prefix == old(self).save_path_prefix,
            !(outcome is Succeeded) ==> *final(self) == *old(self) && (r matches Err(f) && Some(f)
                == spec_cancel_job_failure(outcome)),
            outcome is Succeeded ==> r is Ok && (!old(self).spec_has_monitor(guid) ==> *final(self) == *old(self)) && (old(self).spec_has_monitor(guid) ==> final(self).spec_has_monitor(guid) && final(self).spec_monitor_vars(guid) == (MonitorVars {
                shutdown: true,
                ..old(self).spec_monitor_vars(guid)
            }) && InProcessClient::monitors_agree_except(*final(self), *old(self), guid)),
    {
        match outcome {
            JobOpOutcome::ConnectFailed(s) => Err(CancelJobFailure::Other(s)),
            JobOpOutcome::FindFailed(m) => Err(CancelJobFailure::GetJob(m)),
            JobOpOutcome::JobNotFound => Err(CancelJobFailure::NotFound),
            JobOpOutcome::OpFailed(m) => Err(CancelJobFailure::CancelJob(m)),
            JobOpOutcome::Succeeded => {
                let _stopped = self.with_monitor_shutdown(guid);
                Ok(())
            },
        }
    }
}

/// Under uniqueness, any index holding `g` holds its registered state.
proof fn lemma_vars_at_index(c: InProcessClient, g: Guid, i: int)
    requires
        c.wf(),
        0 <= i < c.monitors@.len(),
        c.monitors@[i].0 == g,
    ensures
        c.spec_has_monitor(g),
        c.spec_monitor_vars(g) == c.monitors@[i].1,
{
    assert(c.spec_has_monitor(g));
    let k = c.spec_monitor_index(g);
    assert(0 <= k < c.monitors@.len() && c.monitors@[k].0 == g);
    if k != i {
        if k < i {
            assert(c.monitors@[k].0 != c.monitors@[i].0);
        } else {
            assert(c.monitors@[i].0 != c.monitors@[k].0);
        }
    }
}

/// The replacement of one registry entry leaves every other job's entry as
/// it was.
proof fn lemma_put_agree(
    s0: Seq<(Guid, MonitorVars)>,
    s1: Seq<(Guid, MonitorVars)>,
    s2: Seq<(Guid, MonitorVars)>,
    found: Option<usize>,
    guid: Guid,
    vars: MonitorVars,
    g2: Guid,
)
    requires
        g2 != guid,
        match found {
            Some(i) => 0 <= i < s0.len() && s0[i as int].0 == guid && s1 == s0.remove(i as int),
            None => s1 == s0,
        },
        s2 == s1.push((guid, vars)),
        forall|i: int, j: int|
            #![trigger s0[i], s0[j]]
            0 <= i < j < s0.len() ==> s0[i].0 != s0[j].0,
    ensures
        (exists|i: int| 0 <= i < s2.len() && (#[trigger] s2[i]).0 == g2) == (exists|i: int|
            0 <= i < s0.len() && (#[trigger] s0[i]).0 == g2),
        (exists|i: int| 0 <= i < s2.len() && (#[trigger] s2[i]).0 == g2) ==> s2[choose|i: int|
            0 <= i < s2.len() && (#[trigger] s2[i]).0 == g2].1 == s0[choose|i: int|
            0 <= i < s0.len() && (#[trigger] s0[i]).0 == g2].1,
{
    let n1 = s1.len() as int;
    let di = match found {
        Some(i) => i as int,
        None => s0.len() as int,
    };
    assert forall|j: int| 0 <= j < n1 implies s1[j] == s0[if j < di {
        j
    } else {
        j + 1
    }] by {}
    if exists|i: int| 0 <= i < s2.len() && (#[trigger] s2[i]).0 == g2 {
        let k2 = choose|i: int| 0 <= i < s2.len() && (#[trigger] s2[i]).0 == g2;
        assert(k2 != n1);
        let k0 = if k2 < di {
            k2
        } else {
            k2 + 1
        };
        assert(s2[k2] == s1[k2]);
        assert(s0[k0].0 == g2);
        let m0 = choose|i: int| 0 <= i < s0.len() && (#[trigger] s0[i]).0 == g2;
        if m0 != k0 {
            if m0 < k0 {
                assert(s0[m0].0 != s0[k0].0);
            } else {
                assert(s0[k0].0 != s0[m0].0);
            }
        }
        assert(s2[k2].1 == s0[m0].1);
    }
    if exists|i: int| 0 <= i < s0.len() && (#[trigger] s0[i]).0 == g2 {
        let m0 = choose|i: int| 0 <= i < s0.len() && (#[trigger] s0[i]).0 == g2;
        assert(m0 != di);
        let m2 = if m0 < di {
            m0
        } else {
            m0 - 1
        };
        assert(s1[m2] == s0[m0]);
        assert(s2[m2] == s1[m2]);
        assert((exists|i: int| 0 <= i < s2.len() && (#[trigger] s2[i]).0 == g2));
    }
}

} // verus!

use crate::oserror::{spec_api_error_text, ApiError, ErrorCode};
use vstd::string::StringExecFns;

verus! {

/// The service message for one failed call: the error's printed form,
/// extended with the service's own description of the status code when it
/// could supply one.
pub fn format_error(error: &ApiError, bits_description: Option<String>) -> (r: HResultMessage)
    requires
        error.code matches Some(ErrorCode::HResult(_)),
    ensures
        error.code matches Some(ErrorCode::HResult(hr)) ==> r.hr == hr,
        r.message@ == (match bits_description {
            Some(d) => spec_api_error_text(*error) + ": "@ + d@,
            None => spec_api_error_text(*error),
        }),
{
    proof {
        reveal_strlit(": ");
    }
    let hr: i32 = match error.get_hresult() {
        Some(h) => h,
        None => 0,
    };
    let mut message = error.describe();
    match bits_description {
        Some(d) => {
            message.append(": ");
            message.append(d.as_str());
        },
        None => {},
    }
    HResultMessage { hr, message }
}

} // verus!

use crate::codec::{
    encode_cancel_response_frame, encode_complete_response_frame, encode_monitor_response_frame,
    encode_resume_response_frame, encode_set_interval_response_frame,
    encode_set_priority_response_frame, encode_start_response_frame,
    encode_suspend_response_frame, spec_enc_cancel_response, spec_enc_complete_response,
    spec_enc_monitor_response, spec_enc_resume_response, spec_enc_set_interval_response,
    spec_enc_set_priority_response, spec_enc_start_response, spec_enc_suspend_response,
    UnitResponseV,
};
use crate::protocol::{
    CancelJobFailureV, Command, CompleteJobFailureV, MonitorJobFailureV, ProtocolError,
    ResumeJobFailureV, SetJobPriorityFailureV, SetUpdateIntervalFailureV, StartJobFailureV,
    SuspendJobFailureV, MAX_RESPONSE,
};

verus! {

/// What the service work for one wire command came to.  `Registry` marks
/// the one command that touches only the monitor registry and needs no
/// service call.
#[derive(Clone, Debug, PartialEq, Eq)]
pub enum CommandOutcome {
    Start(StartJobOutcome),
    Monitor(MonitorJobOutcome),
    Op(JobOpOutcome),
    Registry,
}

/// The typed result a `start` command answers with.
pub open spec fn spec_start_wire_response(oc: StartJobOutcome) -> Result<
    StartJobSuccess,
    StartJobFailureV,
> {
    match oc {
        StartJobOutcome::Created(g) => Ok(StartJobSuccess { guid: g }),
        _ => match spec_start_job_failure(oc) {
            Some(f) => Err(f@),
            None => Err(StartJobFailureV::Other(Seq::empty())),
        },
    }
}

/// The typed result a `monitor` command answers with.
pub open spec fn spec_monitor_wire_response(oc: MonitorJobOutcome) -> UnitResponseV<
    MonitorJobFailureV,
> {
    match spec_monitor_job_failure(oc) {
        None => UnitResponseV::Success,
        Some(f) => UnitResponseV::Failure(f@),
    }
}

pub open spec fn spec_suspend_wire_response(oc: JobOpOutcome) -> UnitResponseV<
    SuspendJobFailureV,
> {
    match spec_suspend_job_failure(oc) {
        None => UnitResponseV::Success,
        Some(f) => UnitResponseV::Failure(f@),
    }
}

pub open spec fn spec_resume_wire_response(oc: JobOpOutcome) -> UnitResponseV<ResumeJobFailureV> {
    match spec_resume_job_failure(oc) {
        None => UnitResponseV::Success,
        Some(f) => UnitResponseV::Failure(f@),
    }
}

pub open spec fn spec_set_priority_wire_response(oc: JobOpOutcome) -> UnitResponseV<
    SetJobPriorityFailureV,
> {
    match spec_set_job_priority_failure(oc) {
        None => UnitResponseV::Success,
        Some(f) => UnitResponseV::Failure(f@),
    }
}

/// The typed result a `set-update-interval` command answers with: it
/// succeeds exactly when the job has a live monitor control.
pub open spec fn spec_set_interval_wire_response(had_monitor: bool) -> UnitResponseV<
    SetUpdateIntervalFailureV,
> {
    if had_monitor {
        UnitResponseV::Success
    } else {
        UnitResponseV::Failure(SetUpdateIntervalFailureV::NotFound)
    }
}

pub open spec fn spec_complete_wire_response(oc: JobOpOutcome) -> UnitResponseV<
    CompleteJobFailureV,
> {
    match spec_complete_job_failure(oc) {
        None => UnitResponseV::Success,
        Some(f) => UnitResponseV::Failure(f@),
    }
}

pub open spec fn spec_cancel_wire_response(oc: JobOpOutcome) -> UnitResponseV<CancelJobFailureV> {
    match spec_cancel_job_failure(oc) {
        None => UnitResponseV::Success,
        Some(f) => UnitResponseV::Failure(f@),
    }
}

impl InProcessClient {
    /// One worker step after the dispatch on a decoded command's tag: take
    /// the outcome of the service work the command named, apply the
    /// command's registry effect, and encode its typed result as the exact
    /// response frame to write back.  A response too large for the frame
    /// capacity is refused as oversized.
    pub fn execute_command(&mut self, cmd: &Command, outcome: CommandOutcome) -> (r: Result<
        Vec<u8>,
        ProtocolError,
    >)
        requires
            old(self).wf(),
            match cmd {
                Command::StartJob(_) => outcome is Start,
                Command::MonitorJob(_) => outcome is Monitor,
                Command::SetUpdateInterval(_) => outcome is Registry,
                _ => outcome is Op,
            },
        ensures
            final(self).wf(),
            final(self).job_name == old(self).job_name,
            final(self).save_path_prefix == old(self).save_path_prefix,
            cmd matches Command::StartJob(c) ==> (outcome matches CommandOutcome::Start(oc) && ({
                let resp = spec_start_wire_response(oc);
                &&& (spec_enc_start_response(resp).len() <= MAX_RESPONSE ==> (r matches Ok(v)
                    && v@ == spec_enc_start_response(resp)))
                &&& (spec_enc_start_response(resp).len() > MAX_RESPONSE ==> (r matches Err(e) && e
                    == ProtocolError::Oversized))
                &&& (!(oc is Created) || c.monitor is None ==> *final(self) == *old(self))
                &&& (oc matches StartJobOutcome::Created(g) ==> (c.monitor matches Some(m) ==> (
                final(self).spec_has_monitor(g) && final(self).spec_monitor_vars(g) == (
                MonitorVars {
                    interval_millis: m.interval_millis,
                    notified: false,
                    shutdown: false,
                }) && InProcessClient::monitors_agree_except(*final(self), *old(self), g))))
            })),
            cmd matches Command::MonitorJob(c) ==> (outcome matches CommandOutcome::Monitor(oc)
                && ({
                let resp = spec_monitor_wire_response(oc);
                &&& (spec_enc_monitor_response(resp).len() <= MAX_RESPONSE ==> (r matches Ok(v)
                    && v@ == spec_enc_monitor_response(resp)))
                &&& (spec_enc_monitor_response(resp).len() > MAX_RESPONSE ==> (r matches Err(e)
                    && e == ProtocolError::Oversized))
                &&& (!(oc is Registered) ==> *final(self) == *old(self))
                &&& (oc is Registered ==> final(self).spec_has_monitor(c.guid) && final(self).spec_monitor_vars(c.guid) == (MonitorVars {
                    interval_millis: c.monitor.interval_millis,
                    notified: false,
                    shutdown: false,
                }) && InProcessClient::monitors_agree_except(*final(self), *old(self), c.guid))
            })),
            cmd matches Command::SuspendJob(_) ==> (outcome matches CommandOutcome::Op(oc) && ({
                let resp = spec_suspend_wire_response(oc);
                &&& *final(self) == *old(self)
                &&& (spec_enc_suspend_response(resp).len() <= MAX_RESPONSE ==> (r matches Ok(v)
                    && v@ == spec_enc_suspend_response(resp)))
                &&& (spec_enc_suspend_response(resp).len() > MAX_RESPONSE ==> (r matches Err(e)
                    && e == ProtocolError::Oversized))
            })),
            cmd matches Command::ResumeJob(_) ==> (outcome matches CommandOutcome::Op(oc) && ({
                let resp = spec_resume_wire_response(oc);
                &&& *final(self) == *old(self)
                &&& (spec_enc_resume_response(resp).len() <= MAX_RESPONSE ==> (r matches Ok(v)
                    && v@ == spec_enc_resume_response(resp)))
                &&& (spec_enc_resume_response(resp).len() > MAX_RESPONSE ==> (r matches Err(e)
                    && e == ProtocolError::Oversized))
            })),
            cmd matches Command::SetJobPriority(_) ==> (outcome matches CommandOutcome::Op(oc)
                && ({
                let resp = spec_set_priority_wire_response(oc);
                &&& *final(self) == *old(self)
                &&& (spec_enc_set_priority_response(resp).len() <= MAX_RESPONSE ==> (r matches Ok(
                    v,
                ) && v@ == spec_enc_set_priority_response(resp)))
                &&& (spec_enc_set_priority_response(resp).len() > MAX_RESPONSE ==> (r matches Err(
                    e,
                ) && e == ProtocolError::Oversized))
            })),
            cmd matches Command::SetUpdateInterval(c) ==> ({
                let resp = spec_set_interval_wire_response(old(self).spec_has_monitor(c.guid));
                &&& (r matches Ok(v) && v@ == spec_enc_set_interval_response(resp))
                &&& (!old(self).spec_has_monitor(c.guid) ==> *final(self) == *old(self))
                &&& (old(self).spec_has_monitor(c.guid) ==> final(self).spec_has_monitor(c.guid)
                    && final(self).spec_monitor_vars(c.guid) == (MonitorVars {
                    interval_millis: c.interval_millis,
                    ..old(self).spec_monitor_vars(c.guid)
                }) && InProcessClient::monitors_agree_except(*final(self), *old(self), c.guid))
            }),
            cmd matches Command::CompleteJob(c) ==> (outcome matches CommandOutcome::Op(oc) && ({
                let resp = spec_complete_wire_response(oc);
                &&& (spec_enc_complete_response(resp).len() <= MAX_RESPONSE ==> (r matches Ok(v)
                    && v@ == spec_enc_complete_response(resp)))
                &&& (spec_enc_complete_response(resp).len() > MAX_RESPONSE ==> (r matches Err(e)
                    && e == ProtocolError::Oversized))
                &&& (!(oc is Succeeded) ==> *final(self) == *old(self))
                &&& (oc is Succeeded && !old(self).spec_has_monitor(c.guid) ==> *final(self)
                    == *old(self))
                &&& (oc is Succeeded && old(self).spec_has_monitor(c.guid) ==> final(self).spec_has_monitor(c.guid) && final(self).spec_monitor_vars(c.guid) == (
                MonitorVars { shutdown: true, ..old(self).spec_monitor_vars(c.guid) })
                    && InProcessClient::monitors_agree_except(*final(self), *old(self), c.guid))
            })),
            cmd matches Command::CancelJob(c) ==> (outcome matches CommandOutcome::Op(oc) && ({
                let resp = spec_cancel_wire_response(oc);
                &&& (spec_enc_cancel_response(resp).len() <= MAX_RESPONSE ==> (r matches Ok(v)
                    && v@ == spec_enc_cancel_response(resp)))
                &&& (spec_enc_cancel_response(resp).len() > MAX_RESPONSE ==> (r matches Err(e)
                    && e == ProtocolError::Oversized))
                &&& (!(oc is Succeeded) ==> *final(self) == *old(self))
                &&& (oc is Succeeded && !old(self).spec_has_monitor(c.guid) ==> *final(self)
                    == *old(self))
                &&& (oc is Succeeded && old(self).spec_has_monitor(c.guid) ==> final(self).spec_has_monitor(c.guid) && final(self).spec_monitor_vars(c.guid) == (
                MonitorVars { shutdown: true, ..old(self).spec_monitor_vars(c.guid) })
                    && InProcessClient::monitors_agree_except(*final(self), *old(self), c.guid))
            })),
    {
        match (cmd, outcome) {
            (Command::StartJob(c), CommandOutcome::Start(oc)) => {
                let result: Result<StartJobSuccess, StartJobFailure> = match oc {
                    StartJobOutcome::ConnectFailed(s) => Err(StartJobFailure::Other(s)),
                    StartJobOutcome::CreateFailed(m) => Err(StartJobFailure::Create(m)),
                    StartJobOutcome::GetGuidFailed(m) => Err(StartJobFailure::OtherBITS(m)),
                    StartJobOutcome::ApplySettingsFailed(m) => Err(
                        StartJobFailure::ApplySettings(m),
                    ),
                    StartJobOutcome::RegisterFailed(m) => Err(StartJobFailure::OtherBITS(m)),
                    StartJobOutcome::AddFileFailed(m) => Err(StartJobFailure::AddFile(m)),
                    StartJobOutcome::ResumeFailed(m) => Err(StartJobFailure::Resume(m)),
                    StartJobOutcome::Created(g) => {
                        match &c.monitor {
                            Some(m) => {
                                self.put_monitor(
                                    g,
                                    MonitorVars {
                                        interval_millis: m.interval_millis,
                                        notified: false,
                                        shutdown: false,
                                    },
                                );
                            },
                            None => {},
                        }
                        Ok(StartJobSuccess { guid: g })
                    },
                };
                encode_start_response_frame(&result)
            },
            (Command::MonitorJob(c), CommandOutcome::Monitor(oc)) => {
                let result: Result<(), MonitorJobFailure> = match oc {
                    MonitorJobOutcome::ConnectFailed(s) => Err(MonitorJobFailure::Other(s)),
                    MonitorJobOutcome::FindFailed(m) => Err(MonitorJobFailure::GetJob(m)),
                    MonitorJobOutcome::JobNotFound => Err(MonitorJobFailure::NotFound),
                    MonitorJobOutcome::RegisterFailed(m) => Err(MonitorJobFailure::OtherBITS(m)),
                    MonitorJobOutcome::Registered => {
                        self.put_monitor(
                            c.guid,
                            MonitorVars {
                                interval_millis: c.monitor.interval_millis,
                                notified: false,
                                shutdown: false,
                            },
                        );
                        Ok(())
                    },
                };
                encode_monitor_response_frame(&result)
            },
            (Command::SuspendJob(c), CommandOutcome::Op(oc)) => {
                let result = self.suspend_job(c.guid, oc);
                encode_suspend_response_frame(&result)
            },
            (Command::ResumeJob(c), CommandOutcome::Op(oc)) => {
                let result = self.resume_job(c.guid, oc);
                encode_resume_response_frame(&result)
            },
            (Command::SetJobPriority(c), CommandOutcome::Op(oc)) => {
                let result = self.set_job_priority(c.guid, c.foreground, oc);
                encode_set_priority_response_frame(&result)
            },
            (Command::SetUpdateInterval(c), CommandOutcome::Registry) => {
                let result = self.set_update_interval(c.guid, c.interval_millis);
                encode_set_interval_response_frame(&result)
            },
            (Command::CompleteJob(c), CommandOutcome::Op(oc)) => {
                let result = self.complete_job(c.guid, oc);
                encode_complete_response_frame(&result)
            },
            (Command::CancelJob(c), CommandOutcome::Op(oc)) => {
                let result = self.cancel_job(c.guid, oc);
                encode_cancel_response_frame(&result)
            },
            _ => Err(ProtocolError::Undecodable),
        }
    }
}

} // verus!
