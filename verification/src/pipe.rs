//! The named-pipe transport's connection lifecycle and message semantics.
//!
//! An endpoint is connected or disconnected; every read or write carries an
//! explicit timeout; an error or timeout on any operation disconnects the
//! endpoint, and further calls fail "not connected" until it reconnects.
//! The asynchronous calls themselves live with the process owning the
//! handles; their completions arrive here as plain events, and everything
//! the transport decides from them is verified.
//!
//! The channel itself is message-mode: each write is delivered as one whole
//! message and each read takes exactly one, modelled by `MessageChannel`.

use vstd::prelude::*;

use crate::guid::{is_hex_digit, lemma_spec_hex_digits, push_hex, spec_hex};
use crate::oserror::ApiError;
use vstd::slice::slice_to_vec;
use vstd::string::StringExecFns;

verus! {

/// What can go wrong on the transport.
#[derive(Clone, Copy, Debug, PartialEq, Eq)]
pub enum PipeError {
    /// The endpoint is not connected.
    NotConnected,
    /// The operation's timeout elapsed first.
    Timeout,
    /// A write was not accepted whole: expected and actual byte counts.
    WriteCount(usize, u32),
    /// The OS reported an error.
    Api(ApiError),
}

/// Who may open the far end of a server pipe.
#[derive(Clone, Copy, Debug, PartialEq, Eq, Structural)]
pub enum PipeAccess {
    /// Default access control.
    Default,
    /// Only the local service principal.
    LocalService,
}

/// How the completion of one issued read or write was observed.
#[derive(Clone, Copy, Debug, PartialEq, Eq)]
pub enum IoEvent {
    /// The operation completed, moving this many bytes.
    Completed(u32),
    /// The wait timed out before completion.
    TimedOut,
    /// The operation failed.
    Failed(ApiError),
}

/// How a server-side connect was observed.
#[derive(Clone, Copy, Debug, PartialEq, Eq)]
pub enum ConnectEvent {
    Connected,
    TimedOut,
    Failed(ApiError),
}

/// One end of a named pipe: its name, who may open the far end, and
/// whether a connection stands.
#[derive(Clone, Debug, PartialEq, Eq)]
pub struct PipeEndpoint {
    pub name: String,
    pub access: PipeAccess,
    pub connected: bool,
}

/// The state and result of a read step: disconnected endpoints refuse, a
/// completion hands the byte count through, a timeout or failure
/// disconnects.
pub open spec fn spec_read_step(connected: bool, event: IoEvent) -> (bool, Result<u32, PipeError>) {
    if !connected {
        (false, Err(PipeError::NotConnected))
    } else {
        match event {
            IoEvent::Completed(n) => (true, Ok(n)),
            IoEvent::TimedOut => (false, Err(PipeError::Timeout)),
            IoEvent::Failed(e) => (false, Err(PipeError::Api(e))),
        }
    }
}

/// The state and result of a write step: as for a read, and a write that
/// was not accepted whole is its own error and also disconnects.
pub open spec fn spec_write_step(connected: bool, len: usize, event: IoEvent) -> (
    bool,
    Result<(), PipeError>,
) {
    if !connected {
        (false, Err(PipeError::NotConnected))
    } else {
        match event {
            IoEvent::Completed(n) => if n == len {
                (true, Ok(()))
            } else {
                (false, Err(PipeError::WriteCount(len, n)))
            },
            IoEvent::TimedOut => (false, Err(PipeError::Timeout)),
            IoEvent::Failed(e) => (false, Err(PipeError::Api(e))),
        }
    }
}

impl PipeEndpoint {
    /// A fresh endpoint under the given name and access restriction;
    /// nothing is connected yet.
    pub fn new(name: String, access: PipeAccess) -> (r: PipeEndpoint)
        ensures
            r.name@ == name@,
            r.access == access,
            !r.connected,
    {
        PipeEndpoint { name, access, connected: false }
    }

    pub fn is_connected(&self) -> (r: bool)
        ensures
            r == self.connected,
    {
        self.connected
    }

    pub fn name(&self) -> (r: &str)
        ensures
            r@ == self.name@,
    {
        self.name.as_str()
    }

    /// Takes up a server-side connect that was observed to end as `event`.
    /// Only a completed connect leaves the endpoint connected.
    pub fn connect(&mut self, event: ConnectEvent) -> (r: Result<(), PipeError>)
        ensures
            final(self).name@ == old(self).name@,
            final(self).access == old(self).access,
            match event {
                ConnectEvent::Connected => final(self).connected && r is Ok,
                ConnectEvent::TimedOut => !final(self).connected && r == Err::<(), PipeError>(
                    PipeError::Timeout,
                ),
                ConnectEvent::Failed(e) => !final(self).connected && r == Err::<(), PipeError>(
                    PipeError::Api(e),
                ),
            },
    {
        match event {
            ConnectEvent::Connected => {
                self.connected = true;
                Ok(())
            },
            ConnectEvent::TimedOut => {
                self.connected = false;
                Err(PipeError::Timeout)
            },
            ConnectEvent::Failed(e) => {
                self.connected = false;
                Err(PipeError::Api(e))
            },
        }
    }

    /// Drops the connection; disconnecting an idle endpoint is harmless.
    pub fn disconnect(&mut self) -> (r: Result<(), PipeError>)
        ensures
            final(self).name@ == old(self).name@,
            final(self).access == old(self).access,
            !final(self).connected,
            r is Ok,
    {
        self.connected = false;
        Ok(())
    }

    /// Takes up a read whose completion was observed as `event`.
    pub fn read(&mut self, event: IoEvent) -> (r: Result<u32, PipeError>)
        ensures
            final(self).name@ == old(self).name@,
            final(self).access == old(self).access,
            (final(self).connected, r) == spec_read_step(old(self).connected, event),
    {
        if !self.connected {
            return Err(PipeError::NotConnected);
        }
        match event {
            IoEvent::Completed(n) => Ok(n),
            IoEvent::TimedOut => {
                self.connected = false;
                Err(PipeError::Timeout)
            },
            IoEvent::Failed(e) => {
                self.connected = false;
                Err(PipeError::Api(e))
            },
        }
    }

    /// Takes up a write of `len` bytes whose completion was observed as
    /// `event`.  The whole buffer must have been accepted in one
    /// operation: a short write is its own error, distinct from a timeout.
    pub fn write(&mut self, len: usize, event: IoEvent) -> (r: Result<(), PipeError>)
        requires
            len <= 0xffff_ffff,
        ensures
            final(self).name@ == old(self).name@,
            final(self).access == old(self).access,
            (final(self).connected, r) == spec_write_step(old(self).connected, len, event),
    {
        if !self.connected {
            return Err(PipeError::NotConnected);
        }
        match event {
            IoEvent::Completed(n) => {
                if n as usize == len {
                    Ok(())
                } else {
                    self.connected = false;
                    Err(PipeError::WriteCount(len, n))
                }
            },
            IoEvent::TimedOut => {
                self.connected = false;
                Err(PipeError::Timeout)
            },
            IoEvent::Failed(e) => {
                self.connected = false;
                Err(PipeError::Api(e))
            },
        }
    }
}

/// A timeout yields the timeout error and disconnects, and whatever the
/// wire does afterwards, the next read or write on the same endpoint fails
/// "not connected".
pub proof fn lemma_timeout_then_not_connected(next: IoEvent, len: usize)
    ensures
        spec_read_step(true, IoEvent::TimedOut) == (
            false,
            Err::<u32, PipeError>(PipeError::Timeout),
        ),
        spec_read_step(spec_read_step(true, IoEvent::TimedOut).0, next).1 == Err::<
            u32,
            PipeError,
        >(PipeError::NotConnected),
        spec_write_step(spec_read_step(true, IoEvent::TimedOut).0, len, next).1 == Err::<
            (),
            PipeError,
        >(PipeError::NotConnected),
{
}

/// An in-memory message-mode channel: writes append whole messages, reads
/// take exactly one, in order; messages are never merged or split.
#[derive(Debug)]
pub struct MessageChannel {
    messages: Vec<Vec<u8>>,
}

impl View for MessageChannel {
    type V = Seq<Seq<u8>>;

    closed spec fn view(&self) -> Seq<Seq<u8>> {
        self.messages@.map_values(|m: Vec<u8>| m@)
    }
}

impl MessageChannel {
    pub fn new() -> (r: MessageChannel)
        ensures
            r@ == Seq::<Seq<u8>>::empty(),
    {
        let r = MessageChannel { messages: Vec::new() };
        assert(r@ =~= Seq::<Seq<u8>>::empty());
        r
    }

    /// Sends one message: it is queued whole, after everything already
    /// queued.
    pub fn write(&mut self, msg: &[u8])
        ensures
            final(self)@ == old(self)@.push(msg@),
    {
        self.messages.push(slice_to_vec(msg));
        assert(final(self)@ =~= old(self)@.push(msg@));
    }

    /// Receives one message: exactly the oldest queued one, whole.
    pub fn read(&mut self) -> (r: Option<Vec<u8>>)
        ensures
            old(self)@.len() == 0 ==> r is None && final(self)@ == old(self)@,
            old(self)@.len() > 0 ==> (r matches Some(m) && m@ == old(self)@[0] && final(self)@
                == old(self)@.drop_first()),
    {
        if self.messages.len() == 0 {
            return None;
        }
        let m = self.messages.remove(0);
        assert(final(self)@ =~= old(self)@.drop_first());
        Some(m)
    }
}

/// Message-mode law: a write followed by a read of the lone queued message
/// hands back exactly the written bytes and leaves the channel as it was.
pub proof fn lemma_message_mode(q: Seq<Seq<u8>>, m: Seq<u8>)
    requires
        q.len() == 0,
    ensures
        q.push(m).len() == 1,
        q.push(m)[0] == m,
        q.push(m).drop_first() == q,
{
    assert(q.push(m).drop_first() =~= q);
}

/// Relies on `rand::random`: a fresh 128-bit value; nothing is assumed
/// about which one.
#[verifier::external_body]
fn random_u128() -> u128 {
    rand::random::<u128>()
}

/// A fresh server instance name: 32 random hex digits.  Two endpoints get
/// the same name only by coincidence of the random source.
pub fn generate_pipe_name() -> (r: String)
    ensures
        r@.len() == 32,
        forall|i: int| 0 <= i < 32 ==> is_hex_digit(#[trigger] r@[i]),
{
    let x = random_u128();
    let hi: u64 = (x >> 64u128) as u64;
    let lo: u64 = #[verifier::truncate] (x as u64);
    let mut s = String::new();
    push_hex(&mut s, hi, 16);
    push_hex(&mut s, lo, 16);
    proof {
        lemma_spec_hex_digits(hi as int, 16);
        lemma_spec_hex_digits(lo as int, 16);
        assert forall|i: int| 0 <= i < 32 implies is_hex_digit(#[trigger] s@[i]) by {
            if i < 16 {
                assert(s@[i] == spec_hex(hi as int, 16)[i]);
            } else {
                assert(s@[i] == spec_hex(lo as int, 16)[i - 16]);
            }
        }
    }
    s
}

/// The path of a local pipe with the given name, under the fixed local
/// namespace.
pub fn format_local_pipe_path(name: &str) -> (r: String)
    ensures
        r@ == r"\\.\pipe\"@ + name@,
{
    let mut path = String::from_str(r"\\.\pipe\");
    path.append(name);
    path
}

} // verus!
