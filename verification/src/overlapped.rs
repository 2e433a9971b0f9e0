//! The overlapped-operation engine's decision logic.
//!
//! An asynchronous call either completes immediately or goes pending; a
//! pending one is awaited on its event and then polled.  The raw outcome of
//! each step is a pair of plain codes (a boolean-style result and a
//! last-error code), and everything the engine decides from those codes is
//! here, with exact contracts.  The calls themselves, and the buffers they
//! touch, live with the process that owns the pipe handles.

use vstd::prelude::*;

use crate::oserror::{ApiError, ErrorCode, FileLine};

verus! {

/// The operation is still running; its completion will be observed later.
pub const ERROR_IO_PENDING: u32 = 997;

/// A poll found the operation not yet complete.
pub const ERROR_IO_INCOMPLETE: u32 = 996;

/// A client connected between pipe creation and the connect call; the
/// connection nevertheless stands.
pub const ERROR_PIPE_CONNECTED: u32 = 535;

/// Wait return: the event was signalled.
pub const WAIT_OBJECT_0: u32 = 0;

/// Wait return: the timeout elapsed first.
pub const WAIT_TIMEOUT: u32 = 258;

/// The reserved wait value that means "no timeout at all".
pub const INFINITE: u32 = 0xffff_ffff;

/// How long to block on a wait: a bounded number of milliseconds, or forever.
#[derive(Clone, Copy, Debug, PartialEq, Eq, Structural)]
pub enum WaitTimeoutInner {
    Milliseconds(u32),
    Infinite,
}

/// A wait bound, kept apart from raw milliseconds so that the reserved
/// value can never be passed as a finite timeout.
#[derive(Clone, Copy, Debug, PartialEq, Eq, Structural)]
pub struct WaitTimeout(pub WaitTimeoutInner);

impl WaitTimeout {
    /// A finite bound; the reserved value is rejected.
    pub fn from_millis(millis: u32) -> (r: Result<WaitTimeout, ()>)
        ensures
            millis == INFINITE <==> r is Err,
            millis != INFINITE ==> r == Ok::<WaitTimeout, ()>(
                WaitTimeout(WaitTimeoutInner::Milliseconds(millis)),
            ),
    {
        if millis == INFINITE {
            Err(())
        } else {
            Ok(WaitTimeout(WaitTimeoutInner::Milliseconds(millis)))
        }
    }

    /// An unbounded wait.
    pub fn infinite() -> (r: WaitTimeout)
        ensures
            r == WaitTimeout(WaitTimeoutInner::Infinite),
    {
        WaitTimeout(WaitTimeoutInner::Infinite)
    }

    /// The raw value handed to the OS wait.
    pub fn as_millis(&self) -> (r: u32)
        ensures
            self.0 matches WaitTimeoutInner::Milliseconds(ms) ==> r == ms,
            self.0 is Infinite ==> r == INFINITE,
    {
        match self.0 {
            WaitTimeoutInner::Milliseconds(ms) => ms,
            WaitTimeoutInner::Infinite => INFINITE,
        }
    }
}

/// What a bounded wait on an event can observe.
#[derive(Clone, Copy, Debug, PartialEq, Eq, Structural)]
pub enum WaitResult {
    Signalled,
    Timeout,
}

/// Reads a raw wait return code.  Anything besides "signalled" and
/// "timed out" is a failure carrying the thread's last-error code and the
/// name of the originating wait call.
pub fn classify_wait(code: u32, last_error: u32) -> (r: Result<WaitResult, ApiError>)
    ensures
        code == WAIT_OBJECT_0 ==> r == Ok::<WaitResult, ApiError>(WaitResult::Signalled),
        code == WAIT_TIMEOUT ==> r == Ok::<WaitResult, ApiError>(WaitResult::Timeout),
        code != WAIT_OBJECT_0 && code != WAIT_TIMEOUT ==> (r matches Err(e) && e.code == Some(
            ErrorCode::LastError(last_error),
        ) && (e.function matches Some(f) && f@ == "WaitForSingleObject"@) && e.file_line is None),
{
    if code == WAIT_OBJECT_0 {
        Ok(WaitResult::Signalled)
    } else if code == WAIT_TIMEOUT {
        Ok(WaitResult::Timeout)
    } else {
        Err(
            ApiError {
                code: Some(ErrorCode::LastError(last_error)),
                function: Some("WaitForSingleObject"),
                file_line: None,
            },
        )
    }
}

/// A completed operation: the byte count when the call succeeded, or the
/// failing call's error.
#[derive(Clone, Copy, Debug, PartialEq, Eq)]
pub struct OverlappedFinished {
    pub bytes_transferred: Option<u32>,
    pub result: Result<i32, ApiError>,
}

/// One issued operation: still pending, or already finished.
#[derive(Clone, Copy, Debug, PartialEq, Eq)]
pub enum OverlappedResult {
    Pending,
    Finished(OverlappedFinished),
}

/// Packs a raw completion into a `OverlappedFinished`.  A zero result with
/// a pending or incomplete code is not a completion, so those inputs are
/// excluded.
pub fn finished_new(
    function: Option<&'static str>,
    file_line: Option<FileLine>,
    bytes_transferred: u32,
    result: i32,
    last_error: u32,
) -> (r: OverlappedFinished)
    requires
        result == 0 ==> last_error != ERROR_IO_PENDING && last_error != ERROR_IO_INCOMPLETE,
    ensures
        result == 0 ==> r == (OverlappedFinished {
            bytes_transferred: None,
            result: Err(
                ApiError { code: Some(ErrorCode::LastError(last_error)), function, file_line },
            ),
        }),
        result != 0 ==> r == (OverlappedFinished {
            bytes_transferred: Some(bytes_transferred),
            result: Ok(result),
        }),
{
    if result == 0 {
        OverlappedFinished {
            bytes_transferred: None,
            result: Err(
                ApiError { code: Some(ErrorCode::LastError(last_error)), function, file_line },
            ),
        }
    } else {
        OverlappedFinished { bytes_transferred: Some(bytes_transferred), result: Ok(result) }
    }
}

/// Reads the raw outcome of issuing an operation: pending exactly when the
/// call reported failure with the pending code; anything else finished,
/// successfully or not.  Immediate completion is a normal outcome, not an
/// error.
pub fn classify_issue(
    function: Option<&'static str>,
    file_line: Option<FileLine>,
    bytes_transferred: u32,
    result: i32,
    last_error: u32,
) -> (r: OverlappedResult)
    requires
        result == 0 ==> last_error != ERROR_IO_INCOMPLETE,
    ensures
        result == 0 && last_error == ERROR_IO_PENDING ==> r is Pending,
        !(result == 0 && last_error == ERROR_IO_PENDING) ==> r == OverlappedResult::Finished(
            if result == 0 {
                OverlappedFinished {
                    bytes_transferred: None,
                    result: Err(
                        ApiError {
                            code: Some(ErrorCode::LastError(last_error)),
                            function,
                            file_line,
                        },
                    ),
                }
            } else {
                OverlappedFinished { bytes_transferred: Some(bytes_transferred), result: Ok(result) }
            },
        ),
{
    if result == 0 && last_error == ERROR_IO_PENDING {
        OverlappedResult::Pending
    } else {
        OverlappedResult::Finished(
            finished_new(function, file_line, bytes_transferred, result, last_error),
        )
    }
}

/// A connect call that finds the client already there has still connected:
/// that raw outcome is rewritten as success before classification.
pub fn connect_result_adjusted(result: i32, last_error: u32) -> (r: i32)
    ensures
        last_error == ERROR_PIPE_CONNECTED ==> r == 1,
        last_error != ERROR_PIPE_CONNECTED ==> r == result,
{
    if last_error == ERROR_PIPE_CONNECTED {
        1
    } else {
        result
    }
}

/// Reads the raw outcome of a non-blocking poll on a pending operation:
/// still pending exactly on the incomplete code.
pub fn classify_poll(
    function: Option<&'static str>,
    file_line: Option<FileLine>,
    bytes_transferred: u32,
    result: i32,
    last_error: u32,
) -> (r: OverlappedResult)
    requires
        result == 0 ==> last_error != ERROR_IO_PENDING,
    ensures
        result == 0 && last_error == ERROR_IO_INCOMPLETE ==> r is Pending,
        !(result == 0 && last_error == ERROR_IO_INCOMPLETE) ==> r == OverlappedResult::Finished(
            if result == 0 {
                OverlappedFinished {
                    bytes_transferred: None,
                    result: Err(
                        ApiError {
                            code: Some(ErrorCode::LastError(last_error)),
                            function,
                            file_line,
                        },
                    ),
                }
            } else {
                OverlappedFinished { bytes_transferred: Some(bytes_transferred), result: Ok(result) }
            },
        ),
{
    if result == 0 && last_error == ERROR_IO_INCOMPLETE {
        OverlappedResult::Pending
    } else {
        OverlappedResult::Finished(
            finished_new(function, file_line, bytes_transferred, result, last_error),
        )
    }
}

/// Finishing a pending operation after its wait: a timed-out wait yields
/// no completion without consuming the pending state; a failed wait or a
/// failed operation surfaces its error; a signalled wait must have found
/// the poll complete.
pub fn finish_after_wait(wait: Result<WaitResult, ApiError>, polled: OverlappedResult) -> (r:
    Result<Option<OverlappedFinished>, ApiError>)
    requires
        wait == Ok::<WaitResult, ApiError>(WaitResult::Signalled) ==> polled is Finished,
    ensures
        wait matches Err(e) ==> r == Err::<Option<OverlappedFinished>, ApiError>(e),
        wait == Ok::<WaitResult, ApiError>(WaitResult::Timeout) ==> r == Ok::<
            Option<OverlappedFinished>,
            ApiError,
        >(None),
        wait == Ok::<WaitResult, ApiError>(WaitResult::Signalled) ==> (polled matches
            OverlappedResult::Finished(f) && (match f.result {
            Ok(v) => r == Ok::<Option<OverlappedFinished>, ApiError>(Some(f)),
            Err(e) => r == Err::<Option<OverlappedFinished>, ApiError>(e),
        })),
{
    match wait {
        Err(e) => Err(e),
        Ok(WaitResult::Timeout) => Ok(None),
        Ok(WaitResult::Signalled) => match polled {
            OverlappedResult::Pending => Err(
                ApiError { code: None, function: None, file_line: None },
            ),
            OverlappedResult::Finished(f) => match f.result {
                Ok(_) => Ok(Some(f)),
                Err(e) => Err(e),
            },
        },
    }
}

/// The lifecycle of one operation's resources: issued and pending, then
/// finished (by completion or acknowledged cancellation), and only then
/// released.
#[derive(Clone, Copy, Debug, PartialEq, Eq, Structural)]
pub enum OpState {
    Pending,
    Finished,
    Released,
}

/// The steps the engine permits.  There is no step from `Pending` straight
/// to `Released`: resources (and any buffer the operation referenced) are
/// freed only after the operation has been seen to finish.
pub open spec fn op_step_allowed(from: OpState, to: OpState) -> bool {
    match (from, to) {
        (OpState::Pending, OpState::Pending) => true,
        (OpState::Pending, OpState::Finished) => true,
        (OpState::Finished, OpState::Finished) => true,
        (OpState::Finished, OpState::Released) => true,
        (OpState::Released, OpState::Released) => true,
        _ => false,
    }
}

pub open spec fn op_trace_ok(t: Seq<OpState>) -> bool {
    forall|i: int| 0 <= i < t.len() - 1 ==> #[trigger] op_step_allowed(t[i], t[i + 1])
}

/// Abandoning a pending operation first cancels it and waits out the
/// acknowledgment; an operation already finished can be released at once.
#[derive(Clone, Copy, Debug, PartialEq, Eq, Structural)]
pub enum AbandonAction {
    CancelThenAwait,
    ReleaseNow,
}

pub fn abandon_action(state: &OpState) -> (r: AbandonAction)
    ensures
        *state is Pending <==> r is CancelThenAwait,
{
    match state {
        OpState::Pending => AbandonAction::CancelThenAwait,
        _ => AbandonAction::ReleaseNow,
    }
}

/// In any permitted history that starts pending and ends with the
/// resources released, the operation finished first: an abandoned
/// operation's buffer is never freed while the call could still touch it.
pub proof fn lemma_release_waits_for_finish(t: Seq<OpState>)
    requires
        t.len() > 0,
        t[0] is Pending,
        op_trace_ok(t),
        t[t.len() - 1] is Released,
    ensures
        exists|i: int| 0 <= i < t.len() && #[trigger] t[i] is Finished,
    decreases t.len(),
{
    let n = t.len() as int;
    if n >= 2 {
        let j = n - 2;
        assert(op_step_allowed(t[j], t[j + 1]));
        if t[n - 2] is Finished {
            assert(t[n - 2] is Finished);
        } else {
            assert(t[n - 2] is Released);
            let s = t.drop_last();
            assert(s[0] is Pending);
            assert(op_trace_ok(s)) by {
                assert forall|i: int| 0 <= i < s.len() - 1 implies #[trigger] op_step_allowed(
                    s[i],
                    s[i + 1],
                ) by {
                    assert(op_step_allowed(t[i], t[i + 1]));
                }
            }
            lemma_release_waits_for_finish(s);
            let w = choose|i: int| 0 <= i < s.len() && #[trigger] s[i] is Finished;
            assert(t[w] is Finished);
        }
    }
}

} // verus!
