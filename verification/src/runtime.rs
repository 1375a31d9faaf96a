//! The daemon's runtime decisions: what the accept loops select when
//! shutdown races a ready connection, what one control-channel connection
//! does with each event, how a finished task's outcome is classified, and
//! how the socket-activation handle is validated.

use crate::protocol::SocketReply;
use crate::protocol::decode_message;
use crate::protocol::enc_reply;
use crate::protocol::encode_reply;
use crate::protocol::sp_message;
use crate::settings::Settings;
use crate::settings::SettingsView;
use crate::store::apply_request;
use crate::store::apply_spec;
use crate::wire::p_u64;
use crate::wire::push_char;
use crate::wire::skip_ws;
use crate::wire::sp_u64;
use vstd::prelude::*;

verus! {

/// How many seconds the daemon waits for outstanding connections to finish
/// once shutdown has been requested, before exiting regardless.
pub const GRACE_PERIOD_SECONDS: u64 = 5;

/// The shutdown notification cell: a persistent last-value flag, not a
/// single-fire event. Observers may re-check it forever; once it has fired
/// it stays fired.
pub struct ShutdownSignal {
    pub fired: bool,
}

impl ShutdownSignal {
    /// A fresh cell: no termination was requested yet.
    pub fn new() -> (r: ShutdownSignal)
        ensures
            !r.fired,
    {
        ShutdownSignal { fired: false }
    }

    /// Broadcasts the termination request. Idempotent: notifying an already
    /// fired cell leaves it fired.
    pub fn notify(&mut self)
        ensures
            final(self).fired,
    {
        self.fired = true;
    }

    /// Whether a termination was requested. Checking never consumes the
    /// notification.
    pub fn is_fired(&self) -> (r: bool)
        ensures
            r == self.fired,
    {
        self.fired
    }
}

/// What an accept loop's selection chose in one round.
#[derive(Clone, Copy, Debug, PartialEq, Eq, Structural)]
pub enum Selected {
    /// Stop accepting: the shutdown notification fired.
    Shutdown,
    /// Admit the ready connection.
    Connection,
    /// Nothing is ready: wait again.
    Idle,
}

/// The biased selection both accept loops use: the shutdown notification is
/// checked before any ready connection, so no new work is admitted during
/// shutdown.
pub open spec fn select_spec(shutdown_ready: bool, connection_ready: bool) -> Selected {
    if shutdown_ready {
        Selected::Shutdown
    } else if connection_ready {
        Selected::Connection
    } else {
        Selected::Idle
    }
}

/// Decides one round of an accept loop's selection.
pub fn select_accept(shutdown_ready: bool, connection_ready: bool) -> (r: Selected)
    ensures
        r == select_spec(shutdown_ready, connection_ready),
{
    if shutdown_ready {
        Selected::Shutdown
    } else if connection_ready {
        Selected::Connection
    } else {
        Selected::Idle
    }
}

/// Once the termination notification has fired, a connection that is ready
/// at the same instant is not admitted by either loop.
pub proof fn law_no_admission_after_shutdown(connection_ready: bool)
    ensures
        select_spec(true, connection_ready) == Selected::Shutdown,
        select_spec(true, connection_ready) != Selected::Connection,
{
}

// ---------------------------------------------------------------------------
// Task outcomes
// ---------------------------------------------------------------------------

/// A transport failure of the control-channel loop.
#[derive(Clone, Copy, Debug, PartialEq, Eq, Structural)]
pub enum SocketError {
    /// Accepting one connection failed.
    Accept,
    /// The listener could not be created: fatal at startup.
    CreateListener,
    /// The loop stopped for no reason it could name.
    Crash,
}

/// A transport failure of the public HTTP loop.
#[derive(Clone, Copy, Debug, PartialEq, Eq, Structural)]
pub enum ServerError {
    /// Accepting one connection failed.
    Accept,
    /// The listener could not be bound: fatal at startup.
    CreateListener,
}

/// Which long-lived task is meant.
#[derive(Clone, Copy, Debug, PartialEq, Eq, Structural)]
pub enum Task {
    Socket,
    Server,
}

/// Why the whole daemon failed.
#[derive(Clone, Copy, Debug, PartialEq, Eq, Structural)]
pub enum Failure {
    /// The shutdown listener could not be installed.
    Signal,
    /// The control-channel loop failed.
    Socket(SocketError),
    /// The public HTTP loop failed.
    Server(ServerError),
    /// A task ended without reporting: it panicked.
    Task(Task),
}

/// The scheduler could not report the task's own result: it panicked or was
/// aborted. Stands for the join error of the task scheduler.
#[derive(Clone, Copy, Debug, PartialEq, Eq, Structural)]
pub struct JoinFailure;

/// Classifies how the control-channel task ended: a clean exit after
/// shutdown is fine, its own error is a socket failure, and a join failure
/// means the task crashed. Either ends the whole daemon with a failure.
pub fn handle_socket_exit(output: Result<Result<(), SocketError>, JoinFailure>) -> (r: Result<
    (),
    Failure,
>)
    ensures
        match output {
            Ok(Ok(())) => r is Ok,
            Ok(Err(e)) => r == Err::<(), Failure>(Failure::Socket(e)),
            Err(_) => r == Err::<(), Failure>(Failure::Task(Task::Socket)),
        },
{
    match output {
        Ok(Ok(())) => Ok(()),
        Ok(Err(socket_error)) => Err(Failure::Socket(socket_error)),
        Err(_) => Err(Failure::Task(Task::Socket)),
    }
}

/// Classifies how the public HTTP task ended, the same way.
pub fn handle_server_exit(output: Result<Result<(), ServerError>, JoinFailure>) -> (r: Result<
    (),
    Failure,
>)
    ensures
        match output {
            Ok(Ok(())) => r is Ok,
            Ok(Err(e)) => r == Err::<(), Failure>(Failure::Server(e)),
            Err(_) => r == Err::<(), Failure>(Failure::Task(Task::Server)),
        },
{
    match output {
        Ok(Ok(())) => Ok(()),
        Ok(Err(server_error)) => Err(Failure::Server(server_error)),
        Err(_) => Err(Failure::Task(Task::Server)),
    }
}

// ---------------------------------------------------------------------------
// Socket activation
// ---------------------------------------------------------------------------

/// Why the pre-opened control-channel handle could not be validated.
#[derive(Clone, Copy, Debug, PartialEq, Eq, Structural)]
pub enum FileDescriptorError {
    /// The supervisor did not say how many handles it passed.
    Missing,
    /// The count is not a small number.
    Parsing,
    /// A count other than exactly one handle was passed.
    Unexpected(u8),
}

/// What validating the handle count yields: the daemon expects exactly one
/// pre-opened listening handle from its supervisor.
pub open spec fn activation_spec(var: Option<Seq<char>>) -> Result<(), FileDescriptorError> {
    match var {
        None => Err(FileDescriptorError::Missing),
        Some(text) => match sp_u64(skip_ws(text)) {
            Some((v, rest)) => if rest.len() != 0 {
                Err(FileDescriptorError::Parsing)
            } else if v > 255 {
                Err(FileDescriptorError::Parsing)
            } else if v != 1 {
                Err(FileDescriptorError::Unexpected(v as u8))
            } else {
                Ok(())
            },
            None => Err(FileDescriptorError::Parsing),
        },
    }
}

/// Validates the handle count handed over by the supervisor; any count but
/// exactly one is a fatal startup error.
pub fn check_socket_activation(var: Option<&String>) -> (r: Result<(), FileDescriptorError>)
    ensures
        r == activation_spec(
            match var {
                Some(text) => Some(text@),
                None => None,
            },
        ),
{
    let text = match var {
        Some(text) => text,
        None => {
            return Err(FileDescriptorError::Missing);
        },
    };
    proof {
        assert(text@.skip(0) =~= text@);
    }
    match p_u64(text.as_str(), 0) {
        Some((v, j)) => {
            let n = text.as_str().unicode_len();
            if j < n {
                proof {
                    assert(text@.skip(j as int).len() > 0);
                }
                Err(FileDescriptorError::Parsing)
            } else if v > 255 {
                Err(FileDescriptorError::Parsing)
            } else if v != 1 {
                Err(FileDescriptorError::Unexpected(v as u8))
            } else {
                Ok(())
            }
        },
        None => Err(FileDescriptorError::Parsing),
    }
}

/// Why one of the two long-lived loops could not start. A half-started
/// daemon is worse than none: either failure aborts the whole daemon.
#[derive(Clone, Copy, Debug, PartialEq, Eq, Structural)]
pub enum StartupFailure {
    /// The public HTTP listener could not be bound.
    Listen,
    /// The pre-opened control-channel handle could not be attached.
    SocketAttachment(FileDescriptorError),
}

// ---------------------------------------------------------------------------
// One control-channel connection
// ---------------------------------------------------------------------------

/// What the transport saw while waiting for the next record.
#[derive(Clone, Debug, PartialEq, Eq)]
pub enum ConnectionEvent {
    /// One newline-delimited record arrived.
    Line(String),
    /// The peer closed the stream: zero bytes, a clean end.
    EndOfStream,
    /// Reading failed.
    ReadFailed,
}

/// The mathematical value of a [`ConnectionEvent`].
#[verifier::ext_equal]
pub enum ConnectionEventView {
    Line(Seq<char>),
    EndOfStream,
    ReadFailed,
}

impl View for ConnectionEvent {
    type V = ConnectionEventView;

    open spec fn view(&self) -> ConnectionEventView {
        match *self {
            ConnectionEvent::Line(l) => ConnectionEventView::Line(l@),
            ConnectionEvent::EndOfStream => ConnectionEventView::EndOfStream,
            ConnectionEvent::ReadFailed => ConnectionEventView::ReadFailed,
        }
    }
}

/// Why one connection stopped being served.
#[derive(Clone, Copy, Debug, PartialEq, Eq, Structural)]
pub enum HandlerError {
    /// The record did not decode: protocol desync cannot be recovered on a
    /// line-oriented channel, so the connection is closed.
    InvalidRequest,
    /// The transport failed while reading.
    ReadFailed,
}

/// What the connection loop does next.
#[derive(Debug, PartialEq, Eq)]
pub enum ConnectionStep {
    /// Write this text to the peer, flush, and await the next record.
    Reply(String),
    /// Stop cleanly: the peer is done.
    CloseClean,
    /// Abort the connection.
    Close(HandlerError),
}

/// The mathematical value of a [`ConnectionStep`].
#[verifier::ext_equal]
pub enum ConnectionStepView {
    Reply(Seq<char>),
    CloseClean,
    Close(HandlerError),
}

impl View for ConnectionStep {
    type V = ConnectionStepView;

    open spec fn view(&self) -> ConnectionStepView {
        match *self {
            ConnectionStep::Reply(text) => ConnectionStepView::Reply(text@),
            ConnectionStep::CloseClean => ConnectionStepView::CloseClean,
            ConnectionStep::Close(e) => ConnectionStepView::Close(e),
        }
    }
}

/// One turn of the per-connection state machine: decode the record,
/// dispatch it against the settings, encode the reply. The reply envelope
/// carries the request's own id back unchanged, and ends with the newline
/// that delimits records on the wire.
pub open spec fn connection_step_spec(s: SettingsView, ev: ConnectionEventView) -> (
    SettingsView,
    ConnectionStepView,
) {
    match ev {
        ConnectionEventView::Line(l) => match sp_message(l) {
            Some(m) => {
                let (s1, outcome) = apply_spec(s, m.request);
                let reply = crate::protocol::SocketReplyView {
                    regarding: m.id,
                    response: outcome,
                };
                (s1, ConnectionStepView::Reply(enc_reply(reply) + "\n"@))
            },
            None => (s, ConnectionStepView::Close(HandlerError::InvalidRequest)),
        },
        ConnectionEventView::EndOfStream => (s, ConnectionStepView::CloseClean),
        ConnectionEventView::ReadFailed => (s, ConnectionStepView::Close(HandlerError::ReadFailed)),
    }
}

/// The name-uniqueness invariant survives every connection event: whatever
/// one control-channel turn does, it never leaves duplicate names behind.
pub proof fn law_connection_preserves_wf(s: SettingsView, ev: ConnectionEventView)
    requires
        s.wf(),
    ensures
        connection_step_spec(s, ev).0.wf(),
{
    match ev {
        ConnectionEventView::Line(l) => match sp_message(l) {
            Some(m) => {
                crate::store::law_wf_preserved(s, m.request);
            },
            None => {},
        },
        _ => {},
    }
}

/// Serves one event of one control-channel connection against the settings.
pub fn connection_step(settings: &mut Settings, event: &ConnectionEvent) -> (r: ConnectionStep)
    ensures
        final(settings)@ == connection_step_spec(old(settings)@, event@).0,
        r@ == connection_step_spec(old(settings)@, event@).1,
{
    match event {
        ConnectionEvent::Line(l) => {
            match decode_message(l.as_str()) {
                Some(message) => {
                    let outcome = apply_request(settings, &message.request);
                    let reply = SocketReply { regarding: message.id, response: outcome };
                    let mut text = encode_reply(&reply);
                    push_char(&mut text, '\n');
                    proof {
                        reveal_strlit("\n");
                        assert(text@ =~= enc_reply(reply@) + "\n"@);
                    }
                    ConnectionStep::Reply(text)
                },
                None => ConnectionStep::Close(HandlerError::InvalidRequest),
            }
        },
        ConnectionEvent::EndOfStream => ConnectionStep::CloseClean,
        ConnectionEvent::ReadFailed => ConnectionStep::Close(HandlerError::ReadFailed),
    }
}

} // verus!
