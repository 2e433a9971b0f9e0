//! The framed command/response protocol.
//!
//! A control connection carries one self-describing binary request per frame
//! and one response per frame, with a closed catalog of commands.  Each
//! command has its own success and failure payload shapes.  The types here
//! are the catalog; the wire form lives in `codec`.
//!
//! Every type with heap data (strings) has a ghost view mirroring it over
//! `Seq<char>`, so that contracts and the wire-format specification can
//! speak about values mathematically.

use vstd::prelude::*;

use crate::guid::Guid;
use crate::status::{BitsErrorContext, BitsJobProgress, BitsJobState, BitsJobTimes};

verus! {

/// Largest request frame accepted on the wire.
pub const MAX_COMMAND: usize = 0x4000;

/// Largest response frame accepted on the wire.
pub const MAX_RESPONSE: usize = 0x4000;

/// Protocol version byte; each side sends one and checks the peer's.
pub const PROTOCOL_VERSION: u8 = 0;

/// What can go wrong at the protocol layer itself, before any command is
/// carried out.
#[derive(Clone, Copy, Debug, PartialEq, Eq, Structural)]
pub enum ProtocolError {
    /// The peer's handshake byte did not match ours.
    VersionMismatch { expected: u8, got: u8 },
    /// An encoded frame would exceed the fixed frame capacity.
    Oversized,
    /// A received frame does not spell exactly one value.
    Undecodable,
}

/// A service status code together with a human-readable description,
/// when the service could supply one.
#[derive(Clone, Debug, PartialEq, Eq)]
pub struct HResultMessage {
    pub hr: i32,
    pub message: String,
}

pub ghost struct HResultMessageV {
    pub hr: i32,
    pub message: Seq<char>,
}

impl View for HResultMessage {
    type V = HResultMessageV;

    open spec fn view(&self) -> HResultMessageV {
        HResultMessageV { hr: self.hr, message: self.message@ }
    }
}

/// How a job uses the system proxy configuration.
#[derive(Clone, Copy, Debug, PartialEq, Eq, Structural)]
pub enum ProxyUsage {
    Preconfig,
    NoProxy,
    AutoDetect,
}

/// Where and how often a monitor for a job reports.
#[derive(Clone, Debug, PartialEq, Eq)]
pub struct MonitorConfig {
    pub pipe_name: String,
    pub interval_millis: u32,
}

pub ghost struct MonitorConfigV {
    pub pipe_name: Seq<char>,
    pub interval_millis: u32,
}

impl View for MonitorConfig {
    type V = MonitorConfigV;

    open spec fn view(&self) -> MonitorConfigV {
        MonitorConfigV { pipe_name: self.pipe_name@, interval_millis: self.interval_millis }
    }
}

/// Request to create and start a transfer job.
#[derive(Clone, Debug, PartialEq, Eq)]
pub struct StartJobCommand {
    pub url: String,
    pub save_path: String,
    pub proxy_usage: ProxyUsage,
    pub monitor: Option<MonitorConfig>,
}

pub ghost struct StartJobCommandV {
    pub url: Seq<char>,
    pub save_path: Seq<char>,
    pub proxy_usage: ProxyUsage,
    pub monitor: Option<MonitorConfigV>,
}

impl View for StartJobCommand {
    type V = StartJobCommandV;

    open spec fn view(&self) -> StartJobCommandV {
        StartJobCommandV {
            url: self.url@,
            save_path: self.save_path@,
            proxy_usage: self.proxy_usage,
            monitor: match self.monitor {
                Some(ref m) => Some(m@),
                None => None,
            },
        }
    }
}

/// Success payload of `start`: the new job's identifier.
#[derive(Clone, Copy, Debug, PartialEq, Eq, Structural)]
pub struct StartJobSuccess {
    pub guid: Guid,
}

#[derive(Clone, Debug, PartialEq, Eq)]
pub enum StartJobFailure {
    ArgumentValidation(String),
    Create(HResultMessage),
    AddFile(HResultMessage),
    ApplySettings(HResultMessage),
    Resume(HResultMessage),
    OtherBITS(HResultMessage),
    Other(String),
}

pub ghost enum StartJobFailureV {
    ArgumentValidation(Seq<char>),
    Create(HResultMessageV),
    AddFile(HResultMessageV),
    ApplySettings(HResultMessageV),
    Resume(HResultMessageV),
    OtherBITS(HResultMessageV),
    Other(Seq<char>),
}

impl View for StartJobFailure {
    type V = StartJobFailureV;

    open spec fn view(&self) -> StartJobFailureV {
        match self {
            StartJobFailure::ArgumentValidation(s) => StartJobFailureV::ArgumentValidation(s@),
            StartJobFailure::Create(m) => StartJobFailureV::Create(m@),
            StartJobFailure::AddFile(m) => StartJobFailureV::AddFile(m@),
            StartJobFailure::ApplySettings(m) => StartJobFailureV::ApplySettings(m@),
            StartJobFailure::Resume(m) => StartJobFailureV::Resume(m@),
            StartJobFailure::OtherBITS(m) => StartJobFailureV::OtherBITS(m@),
            StartJobFailure::Other(s) => StartJobFailureV::Other(s@),
        }
    }
}

/// Request to attach a monitor to an existing job.
#[derive(Clone, Debug, PartialEq, Eq)]
pub struct MonitorJobCommand {
    pub guid: Guid,
    pub monitor: MonitorConfig,
}

pub ghost struct MonitorJobCommandV {
    pub guid: Guid,
    pub monitor: MonitorConfigV,
}

impl View for MonitorJobCommand {
    type V = MonitorJobCommandV;

    open spec fn view(&self) -> MonitorJobCommandV {
        MonitorJobCommandV { guid: self.guid, monitor: self.monitor@ }
    }
}

#[derive(Clone, Debug, PartialEq, Eq)]
pub enum MonitorJobFailure {
    ArgumentValidation(String),
    NotFound,
    GetJob(HResultMessage),
    OtherBITS(HResultMessage),
    Other(String),
}

pub ghost enum MonitorJobFailureV {
    ArgumentValidation(Seq<char>),
    NotFound,
    GetJob(HResultMessageV),
    OtherBITS(HResultMessageV),
    Other(Seq<char>),
}

impl View for MonitorJobFailure {
    type V = MonitorJobFailureV;

    open spec fn view(&self) -> MonitorJobFailureV {
        match self {
            MonitorJobFailure::ArgumentValidation(s) => MonitorJobFailureV::ArgumentValidation(
                s@,
            ),
            MonitorJobFailure::NotFound => MonitorJobFailureV::NotFound,
            MonitorJobFailure::GetJob(m) => MonitorJobFailureV::GetJob(m@),
            MonitorJobFailure::OtherBITS(m) => MonitorJobFailureV::OtherBITS(m@),
            MonitorJobFailure::Other(s) => MonitorJobFailureV::Other(s@),
        }
    }
}

/// Request to pause a job.
#[derive(Clone, Copy, Debug, PartialEq, Eq, Structural)]
pub struct SuspendJobCommand {
    pub guid: Guid,
}

#[derive(Clone, Debug, PartialEq, Eq)]
pub enum SuspendJobFailure {
    NotFound,
    GetJob(HResultMessage),
    SuspendJob(HResultMessage),
    OtherBITS(HResultMessage),
    Other(String),
}

pub ghost enum SuspendJobFailureV {
    NotFound,
    GetJob(HResultMessageV),
    SuspendJob(HResultMessageV),
    OtherBITS(HResultMessageV),
    Other(Seq<char>),
}

impl View for SuspendJobFailure {
    type V = SuspendJobFailureV;

    open spec fn view(&self) -> SuspendJobFailureV {
        match self {
            SuspendJobFailure::NotFound => SuspendJobFailureV::NotFound,
            SuspendJobFailure::GetJob(m) => SuspendJobFailureV::GetJob(m@),
            SuspendJobFailure::SuspendJob(m) => SuspendJobFailureV::SuspendJob(m@),
            SuspendJobFailure::OtherBITS(m) => SuspendJobFailureV::OtherBITS(m@),
            SuspendJobFailure::Other(s) => SuspendJobFailureV::Other(s@),
        }
    }
}

/// Request to resume a paused or errored job.
#[derive(Clone, Copy, Debug, PartialEq, Eq, Structural)]
pub struct ResumeJobCommand {
    pub guid: Guid,
}

#[derive(Clone, Debug, PartialEq, Eq)]
pub enum ResumeJobFailure {
    NotFound,
    GetJob(HResultMessage),
    ResumeJob(HResultMessage),
    OtherBITS(HResultMessage),
    Other(String),
}

pub ghost enum ResumeJobFailureV {
    NotFound,
    GetJob(HResultMessageV),
    ResumeJob(HResultMessageV),
    OtherBITS(HResultMessageV),
    Other(Seq<char>),
}

impl View for ResumeJobFailure {
    type V = ResumeJobFailureV;

    open spec fn view(&self) -> ResumeJobFailureV {
        match self {
            ResumeJobFailure::NotFound => ResumeJobFailureV::NotFound,
            ResumeJobFailure::GetJob(m) => ResumeJobFailureV::GetJob(m@),
            ResumeJobFailure::ResumeJob(m) => ResumeJobFailureV::ResumeJob(m@),
            ResumeJobFailure::OtherBITS(m) => ResumeJobFailureV::OtherBITS(m@),
            ResumeJobFailure::Other(s) => ResumeJobFailureV::Other(s@),
        }
    }
}

/// Request to move a job between foreground and normal scheduling priority.
#[derive(Clone, Copy, Debug, PartialEq, Eq, Structural)]
pub struct SetJobPriorityCommand {
    pub guid: Guid,
    pub foreground: bool,
}

#[derive(Clone, Debug, PartialEq, Eq)]
pub enum SetJobPriorityFailure {
    NotFound,
    GetJob(HResultMessage),
    ApplySettings(HResultMessage),
    OtherBITS(HResultMessage),
    Other(String),
}

pub ghost enum SetJobPriorityFailureV {
    NotFound,
    GetJob(HResultMessageV),
    ApplySettings(HResultMessageV),
    OtherBITS(HResultMessageV),
    Other(Seq<char>),
}

impl View for SetJobPriorityFailure {
    type V = SetJobPriorityFailureV;

    open spec fn view(&self) -> SetJobPriorityFailureV {
        match self {
            SetJobPriorityFailure::NotFound => SetJobPriorityFailureV::NotFound,
            SetJobPriorityFailure::GetJob(m) => SetJobPriorityFailureV::GetJob(m@),
            SetJobPriorityFailure::ApplySettings(m) => SetJobPriorityFailureV::ApplySettings(m@),
            SetJobPriorityFailure::OtherBITS(m) => SetJobPriorityFailureV::OtherBITS(m@),
            SetJobPriorityFailure::Other(s) => SetJobPriorityFailureV::Other(s@),
        }
    }
}

/// Request to change how often a job's monitor reports.
#[derive(Clone, Copy, Debug, PartialEq, Eq, Structural)]
pub struct SetUpdateIntervalCommand {
    pub guid: Guid,
    pub interval_millis: u32,
}

#[derive(Clone, Debug, PartialEq, Eq)]
pub enum SetUpdateIntervalFailure {
    ArgumentValidation(String),
    NotFound,
    Other(String),
}

pub ghost enum SetUpdateIntervalFailureV {
    ArgumentValidation(Seq<char>),
    NotFound,
    Other(Seq<char>),
}

impl View for SetUpdateIntervalFailure {
    type V = SetUpdateIntervalFailureV;

    open spec fn view(&self) -> SetUpdateIntervalFailureV {
        match self {
            SetUpdateIntervalFailure::ArgumentValidation(s) =>
                SetUpdateIntervalFailureV::ArgumentValidation(s@),
            SetUpdateIntervalFailure::NotFound => SetUpdateIntervalFailureV::NotFound,
            SetUpdateIntervalFailure::Other(s) => SetUpdateIntervalFailureV::Other(s@),
        }
    }
}

/// Request to finish a transferred job, committing its files.
#[derive(Clone, Copy, Debug, PartialEq, Eq, Structural)]
pub struct CompleteJobCommand {
    pub guid: Guid,
}

#[derive(Clone, Debug, PartialEq, Eq)]
pub enum CompleteJobFailure {
    NotFound,
    GetJob(HResultMessage),
    CompleteJob(HResultMessage),
    PartialComplete,
    OtherBITS(HResultMessage),
    Other(String),
}

pub ghost enum CompleteJobFailureV {
    NotFound,
    GetJob(HResultMessageV),
    CompleteJob(HResultMessageV),
    PartialComplete,
    OtherBITS(HResultMessageV),
    Other(Seq<char>),
}

impl View for CompleteJobFailure {
    type V = CompleteJobFailureV;

    open spec fn view(&self) -> CompleteJobFailureV {
        match self {
            CompleteJobFailure::NotFound => CompleteJobFailureV::NotFound,
            CompleteJobFailure::GetJob(m) => CompleteJobFailureV::GetJob(m@),
            CompleteJobFailure::CompleteJob(m) => CompleteJobFailureV::CompleteJob(m@),
            CompleteJobFailure::PartialComplete => CompleteJobFailureV::PartialComplete,
            CompleteJobFailure::OtherBITS(m) => CompleteJobFailureV::OtherBITS(m@),
            CompleteJobFailure::Other(s) => CompleteJobFailureV::Other(s@),
        }
    }
}

/// Request to abandon a job, discarding partial transfers.
#[derive(Clone, Copy, Debug, PartialEq, Eq, Structural)]
pub struct CancelJobCommand {
    pub guid: Guid,
}

#[derive(Clone, Debug, PartialEq, Eq)]
pub enum CancelJobFailure {
    NotFound,
    GetJob(HResultMessage),
    CancelJob(HResultMessage),
    OtherBITS(HResultMessage),
    Other(String),
}

pub ghost enum CancelJobFailureV {
    NotFound,
    GetJob(HResultMessageV),
    CancelJob(HResultMessageV),
    OtherBITS(HResultMessageV),
    Other(Seq<char>),
}

impl View for CancelJobFailure {
    type V = CancelJobFailureV;

    open spec fn view(&self) -> CancelJobFailureV {
        match self {
            CancelJobFailure::NotFound => CancelJobFailureV::NotFound,
            CancelJobFailure::GetJob(m) => CancelJobFailureV::GetJob(m@),
            CancelJobFailure::CancelJob(m) => CancelJobFailureV::CancelJob(m@),
            CancelJobFailure::OtherBITS(m) => CancelJobFailureV::OtherBITS(m@),
            CancelJobFailure::Other(s) => CancelJobFailureV::Other(s@),
        }
    }
}

/// Any request frame: the closed catalog of commands.
#[derive(Clone, Debug, PartialEq, Eq)]
pub enum Command {
    StartJob(StartJobCommand),
    MonitorJob(MonitorJobCommand),
    SuspendJob(SuspendJobCommand),
    ResumeJob(ResumeJobCommand),
    SetJobPriority(SetJobPriorityCommand),
    SetUpdateInterval(SetUpdateIntervalCommand),
    CompleteJob(CompleteJobCommand),
    CancelJob(CancelJobCommand),
}

pub ghost enum CommandV {
    StartJob(StartJobCommandV),
    MonitorJob(MonitorJobCommandV),
    SuspendJob(SuspendJobCommand),
    ResumeJob(ResumeJobCommand),
    SetJobPriority(SetJobPriorityCommand),
    SetUpdateInterval(SetUpdateIntervalCommand),
    CompleteJob(CompleteJobCommand),
    CancelJob(CancelJobCommand),
}

impl View for Command {
    type V = CommandV;

    open spec fn view(&self) -> CommandV {
        match self {
            Command::StartJob(c) => CommandV::StartJob(c@),
            Command::MonitorJob(c) => CommandV::MonitorJob(c@),
            Command::SuspendJob(c) => CommandV::SuspendJob(*c),
            Command::ResumeJob(c) => CommandV::ResumeJob(*c),
            Command::SetJobPriority(c) => CommandV::SetJobPriority(*c),
            Command::SetUpdateInterval(c) => CommandV::SetUpdateInterval(*c),
            Command::CompleteJob(c) => CommandV::CompleteJob(*c),
            Command::CancelJob(c) => CommandV::CancelJob(*c),
        }
    }
}

/// Ties a command to its success and failure payload types and wraps it
/// into the catalog.
pub trait CommandType: Sized {
    type Success;

    type Failure;

    fn new(command: Self) -> Command;
}

impl CommandType for StartJobCommand {
    type Success = StartJobSuccess;

    type Failure = StartJobFailure;

    fn new(command: Self) -> (r: Command)
        ensures
            r@ == CommandV::StartJob(command@),
    {
        Command::StartJob(command)
    }
}

impl CommandType for MonitorJobCommand {
    type Success = ();

    type Failure = MonitorJobFailure;

    fn new(command: Self) -> (r: Command)
        ensures
            r@ == CommandV::MonitorJob(command@),
    {
        Command::MonitorJob(command)
    }
}

impl CommandType for SuspendJobCommand {
    type Success = ();

    type Failure = SuspendJobFailure;

    fn new(command: Self) -> (r: Command)
        ensures
            r@ == CommandV::SuspendJob(command),
    {
        Command::SuspendJob(command)
    }
}

impl CommandType for ResumeJobCommand {
    type Success = ();

    type Failure = ResumeJobFailure;

    fn new(command: Self) -> (r: Command)
        ensures
            r@ == CommandV::ResumeJob(command),
    {
        Command::ResumeJob(command)
    }
}

impl CommandType for SetJobPriorityCommand {
    type Success = ();

    type Failure = SetJobPriorityFailure;

    fn new(command: Self) -> (r: Command)
        ensures
            r@ == CommandV::SetJobPriority(command),
    {
        Command::SetJobPriority(command)
    }
}

impl CommandType for SetUpdateIntervalCommand {
    type Success = ();

    type Failure = SetUpdateIntervalFailure;

    fn new(command: Self) -> (r: Command)
        ensures
            r@ == CommandV::SetUpdateInterval(command),
    {
        Command::SetUpdateInterval(command)
    }
}

impl CommandType for CompleteJobCommand {
    type Success = ();

    type Failure = CompleteJobFailure;

    fn new(command: Self) -> (r: Command)
        ensures
            r@ == CommandV::CompleteJob(command),
    {
        Command::CompleteJob(command)
    }
}

impl CommandType for CancelJobCommand {
    type Success = ();

    type Failure = CancelJobFailure;

    fn new(command: Self) -> (r: Command)
        ensures
            r@ == CommandV::CancelJob(command),
    {
        Command::CancelJob(command)
    }
}

/// A full status report for a watching process.  Unlike the raw service
/// status it also carries the job's current source URL, reported only when
/// it differs from the prior report (redirect-change detection).
#[derive(Clone, Debug, PartialEq, Eq)]
pub struct JobStatus {
    pub state: BitsJobState,
    pub progress: BitsJobProgress,
    pub error_count: u32,
    pub error: Option<JobError>,
    pub times: BitsJobTimes,
    /// `None` means: same URL as in the previous report.
    pub url: Option<String>,
}

pub ghost struct JobStatusV {
    pub state: BitsJobState,
    pub progress: BitsJobProgress,
    pub error_count: u32,
    pub error: Option<JobErrorV>,
    pub times: BitsJobTimes,
    pub url: Option<Seq<char>>,
}

impl View for JobStatus {
    type V = JobStatusV;

    open spec fn view(&self) -> JobStatusV {
        JobStatusV {
            state: self.state,
            progress: self.progress,
            error_count: self.error_count,
            error: match self.error {
                Some(ref e) => Some(e@),
                None => None,
            },
            times: self.times,
            url: match self.url {
                Some(ref u) => Some(u@),
                None => None,
            },
        }
    }
}

/// The error recorded on a job, with the context it arose in.
#[derive(Clone, Debug, PartialEq, Eq)]
pub struct JobError {
    pub context: BitsErrorContext,
    pub context_str: String,
    pub error: HResultMessage,
}

pub ghost struct JobErrorV {
    pub context: BitsErrorContext,
    pub context_str: Seq<char>,
    pub error: HResultMessageV,
}

impl View for JobError {
    type V = JobErrorV;

    open spec fn view(&self) -> JobErrorV {
        JobErrorV { context: self.context, context_str: self.context_str@, error: self.error@ }
    }
}

} // verus!

verus! {

/// A peer's version byte is accepted exactly when it matches ours.
pub open spec fn spec_version_accepted(local: u8, peer: u8) -> bool {
    local == peer
}

pub fn version_accepted(local: u8, peer: u8) -> (r: bool)
    ensures
        r == spec_version_accepted(local, peer),
{
    local == peer
}

/// The one-byte frame each side sends to open the handshake.
pub fn handshake_frame() -> (r: Vec<u8>)
    ensures
        r@ == seq![PROTOCOL_VERSION],
{
    let mut out: Vec<u8> = Vec::new();
    out.push(PROTOCOL_VERSION);
    assert(out@ =~= seq![PROTOCOL_VERSION]);
    out
}

/// Checks the peer's handshake frame: exactly one byte, equal to our
/// version.  A mismatch is fatal to the connection.
pub fn check_handshake_reply(reply: &[u8]) -> (r: Result<(), ProtocolError>)
    ensures
        r is Ok <==> reply@.len() == 1 && reply@[0] == PROTOCOL_VERSION,
        reply@.len() != 1 ==> r == Err::<(), ProtocolError>(ProtocolError::Undecodable),
        reply@.len() == 1 && reply@[0] != PROTOCOL_VERSION ==> r == Err::<(), ProtocolError>(
            ProtocolError::VersionMismatch { expected: PROTOCOL_VERSION, got: reply@[0] },
        ),
{
    if reply.len() != 1 {
        return Err(ProtocolError::Undecodable);
    }
    let got = reply[0];
    if got != PROTOCOL_VERSION {
        return Err(ProtocolError::VersionMismatch { expected: PROTOCOL_VERSION, got });
    }
    Ok(())
}

/// Each side accepts the other exactly when the two version bytes are
/// equal: differing versions fail the connection on both sides, equal
/// versions proceed on both.
pub proof fn lemma_handshake_symmetry(va: u8, vb: u8)
    ensures
        (spec_version_accepted(va, vb) && spec_version_accepted(vb, va)) <==> va == vb,
        spec_version_accepted(va, vb) == spec_version_accepted(vb, va),
{
}

} // verus!

verus! {

impl ProxyUsage {
    /// The numeric proxy-usage code the service defines for each choice.
    pub fn code(&self) -> (r: u32)
        ensures
            *self is Preconfig ==> r == 0,
            *self is NoProxy ==> r == 1,
            *self is AutoDetect ==> r == 3,
    {
        match self {
            ProxyUsage::Preconfig => 0,
            ProxyUsage::NoProxy => 1,
            ProxyUsage::AutoDetect => 3,
        }
    }
}

} // verus!
