//! The server side of the peer protocol.
//!
//! A peer that connects first opens a handshake stream; only once the
//! handshake succeeded does the node serve the peer's further streams, each
//! carrying one request and its answer.

use crate::bytes::{FromBytes, WireFormat};
use vstd::prelude::*;
use vstd::string::StringExecFns;

verus! {

/// The largest request, in bytes, a node reads from a peer's stream.
pub const MAX_SERVER_READ_SIZE: usize = 512 << 20;

/// The largest handshake request, in bytes, a node reads from a peer.
pub const MAX_HANDSHAKE_SIZE: usize = 32 << 10;

/// How reading a stream to its end went, as the transport reports it.
#[derive(Debug, PartialEq, Eq)]
pub enum ReadOutcome {
    /// The whole stream was read.
    Complete(Vec<u8>),
    /// The stream was longer than the limit it was read with.
    TooLong,
    /// Reading failed.
    Failed,
}

/// Why a request could not be read from a stream.
#[derive(Debug, Clone, Copy, PartialEq, Eq, Structural)]
pub enum RequestError {
    /// The stream was too long, or could not be read.
    TooLong,
    /// The bytes of the stream are no request.
    Invalid,
}

impl RequestError {
    /// The text a request error is reported with.
    pub open spec fn spec_message(self) -> Seq<char> {
        match self {
            RequestError::TooLong => "peer request too long"@,
            RequestError::Invalid => "peer request invalid"@,
        }
    }

    /// The text a request error is reported with.
    pub fn message(&self) -> (m: String)
        ensures
            m@ == self.spec_message(),
    {
        match self {
            RequestError::TooLong => String::from_str("peer request too long"),
            RequestError::Invalid => String::from_str("peer request invalid"),
        }
    }
}

/// The request a stream carries, given how reading it went.
pub open spec fn spec_read_request<R: FromBytes>(outcome: ReadOutcome) -> Result<R, RequestError> {
    match outcome {
        ReadOutcome::Complete(data) => match R::spec_from_bytes(data@) {
            Some(req) => Ok(req),
            None => Err(RequestError::Invalid),
        },
        _ => Err(RequestError::TooLong),
    }
}

/// The request a stream carries, given how reading it went.
///
/// A stream that could not be read whole, because it was too long or
/// because reading failed, is reported as too long; one whose bytes decode
/// to no request is invalid.
pub fn read_request<R: FromBytes>(outcome: ReadOutcome) -> (r: Result<R, RequestError>)
    ensures
        r == spec_read_request::<R>(outcome),
{
    match outcome {
        ReadOutcome::Complete(data) => match R::from_bytes(data.as_slice()) {
            Ok(req) => Ok(req),
            Err(_) => Err(RequestError::Invalid),
        },
        ReadOutcome::TooLong => Err(RequestError::TooLong),
        ReadOutcome::Failed => Err(RequestError::TooLong),
    }
}

/// A request that a peer encoded and sent whole is read back as itself, for
/// every message type of the wire format.
pub proof fn lemma_read_request_roundtrip<R: WireFormat>(v: R, data: Vec<u8>)
    requires
        data@ == v.spec_as_bytes(),
    ensures
        spec_read_request::<R>(ReadOutcome::Complete(data)) == Ok::<R, RequestError>(v),
{
    crate::bytes::lemma_from_bytes_undoes_as_bytes(v);
}

/// Where the node stands with one connected peer.
#[derive(Debug, Clone, Copy, PartialEq, Eq, Structural)]
pub enum PeerConnectionPhase {
    /// Waiting for the peer's first stream, the handshake.
    AwaitingHandshake,
    /// The handshake stream is being handled.
    Handshaking,
    /// The handshake succeeded: each further stream is served.
    Serving,
    /// The connection is done with.
    Closed,
}

/// What just happened on a peer's connection.
#[derive(Debug, Clone, Copy, PartialEq, Eq, Structural)]
pub enum PeerConnectionEvent {
    /// The peer opened a stream.
    StreamOpened,
    /// The peer opens no further stream: the connection ended or failed.
    StreamsEnded,
    /// The handshake was read, answered and written back.
    HandshakeSucceeded,
    /// The handshake could not be read, answered or written back.
    HandshakeFailed,
}

/// What the node does after a step on a peer's connection.
#[derive(Debug, Clone, Copy, PartialEq, Eq, Structural)]
pub enum PeerConnectionAction {
    /// Nothing.
    Idle,
    /// Handle the stream as the handshake.
    RunHandshake,
    /// Handle the stream as a request, on a task of its own.
    ServeStream,
    /// Stop handling the connection.
    Close,
}

impl PeerConnectionPhase {
    /// The next phase and the action of one step.
    pub open spec fn next(self, event: PeerConnectionEvent) -> (PeerConnectionPhase, PeerConnectionAction) {
        match (self, event) {
            (PeerConnectionPhase::AwaitingHandshake, PeerConnectionEvent::StreamOpened) => (
                PeerConnectionPhase::Handshaking,
                PeerConnectionAction::RunHandshake,
            ),
            (PeerConnectionPhase::AwaitingHandshake, PeerConnectionEvent::StreamsEnded) => (
                PeerConnectionPhase::Closed,
                PeerConnectionAction::Close,
            ),
            (PeerConnectionPhase::Handshaking, PeerConnectionEvent::HandshakeSucceeded) => (
                PeerConnectionPhase::Serving,
                PeerConnectionAction::Idle,
            ),
            (PeerConnectionPhase::Handshaking, PeerConnectionEvent::HandshakeFailed) => (
                PeerConnectionPhase::Closed,
                PeerConnectionAction::Close,
            ),
            (PeerConnectionPhase::Serving, PeerConnectionEvent::StreamOpened) => (
                PeerConnectionPhase::Serving,
                PeerConnectionAction::ServeStream,
            ),
            (PeerConnectionPhase::Serving, PeerConnectionEvent::StreamsEnded) => (
                PeerConnectionPhase::Closed,
                PeerConnectionAction::Close,
            ),
            _ => (self, PeerConnectionAction::Idle),
        }
    }

    /// The phase of a newly accepted connection.
    pub fn start() -> (p: PeerConnectionPhase)
        ensures
            p == PeerConnectionPhase::AwaitingHandshake,
    {
        PeerConnectionPhase::AwaitingHandshake
    }

    /// One step on a peer's connection.
    ///
    /// The first stream is the handshake; when there is none, or the
    /// handshake fails, the connection is dropped. After a successful
    /// handshake every stream is served until the peer opens no more.
    /// Events that cannot happen in a phase change nothing.
    pub fn step(self, event: PeerConnectionEvent) -> (r: (PeerConnectionPhase, PeerConnectionAction))
        ensures
            r == self.next(event),
    {
        match (self, event) {
            (PeerConnectionPhase::AwaitingHandshake, PeerConnectionEvent::StreamOpened) => (
                PeerConnectionPhase::Handshaking,
                PeerConnectionAction::RunHandshake,
            ),
            (PeerConnectionPhase::AwaitingHandshake, PeerConnectionEvent::StreamsEnded) => (
                PeerConnectionPhase::Closed,
                PeerConnectionAction::Close,
            ),
            (PeerConnectionPhase::Handshaking, PeerConnectionEvent::HandshakeSucceeded) => (
                PeerConnectionPhase::Serving,
                PeerConnectionAction::Idle,
            ),
            (PeerConnectionPhase::Handshaking, PeerConnectionEvent::HandshakeFailed) => (
                PeerConnectionPhase::Closed,
                PeerConnectionAction::Close,
            ),
            (PeerConnectionPhase::Serving, PeerConnectionEvent::StreamOpened) => (
                PeerConnectionPhase::Serving,
                PeerConnectionAction::ServeStream,
            ),
            (PeerConnectionPhase::Serving, PeerConnectionEvent::StreamsEnded) => (
                PeerConnectionPhase::Closed,
                PeerConnectionAction::Close,
            ),
            _ => (self, PeerConnectionAction::Idle),
        }
    }
}

/// The phase after a sequence of events, and the actions taken on the way.
pub open spec fn run_connection(phase: PeerConnectionPhase, events: Seq<PeerConnectionEvent>) -> (
    PeerConnectionPhase,
    Seq<PeerConnectionAction>,
)
    decreases events.len(),
{
    if events.len() == 0 {
        (phase, Seq::empty())
    } else {
        let first = phase.next(events[0]);
        let tail = run_connection(first.0, events.drop_first());
        (tail.0, seq![first.1] + tail.1)
    }
}

/// Induction behind [`lemma_no_stream_served_before_handshake`]: from a
/// phase that is not serving, a stream is served only after a successful
/// handshake, and the phase is serving only after one.
proof fn lemma_serving_needs_handshake(phase: PeerConnectionPhase, events: Seq<PeerConnectionEvent>)
    requires
        phase != PeerConnectionPhase::Serving,
    ensures
        run_connection(phase, events).1.len() == events.len(),
        forall|i: int|
            0 <= i < events.len() && #[trigger] run_connection(phase, events).1[i]
                == PeerConnectionAction::ServeStream ==> events.take(i).contains(
                PeerConnectionEvent::HandshakeSucceeded,
            ),
        run_connection(phase, events).0 == PeerConnectionPhase::Serving ==> events.contains(
            PeerConnectionEvent::HandshakeSucceeded,
        ),
    decreases events.len(),
{
    if events.len() > 0 {
        let first = phase.next(events[0]);
        let rest = events.drop_first();
        let tail = run_connection(first.0, rest);
        let acts = run_connection(phase, events).1;
        assert(acts == seq![first.1] + tail.1);
        if first.0 == PeerConnectionPhase::Serving {
            // The first event was the successful handshake.
            assert(events[0] == PeerConnectionEvent::HandshakeSucceeded);
            lemma_run_length(first.0, rest);
            assert forall|i: int|
                0 <= i < events.len() && #[trigger] acts[i] == PeerConnectionAction::ServeStream
                    implies events.take(i).contains(PeerConnectionEvent::HandshakeSucceeded) by {
                assert(i > 0);
                assert(events.take(i)[0] == events[0]);
            }
            assert(events.contains(PeerConnectionEvent::HandshakeSucceeded)) by {
                assert(events[0] == PeerConnectionEvent::HandshakeSucceeded);
            }
        } else {
            lemma_serving_needs_handshake(first.0, rest);
            assert forall|i: int|
                0 <= i < events.len() && #[trigger] acts[i] == PeerConnectionAction::ServeStream
                    implies events.take(i).contains(PeerConnectionEvent::HandshakeSucceeded) by {
                assert(i > 0);
                assert(tail.1[i - 1] == PeerConnectionAction::ServeStream);
                let j = choose|j: int|
                    0 <= j < rest.take(i - 1).len() && #[trigger] rest.take(i - 1)[j]
                        == PeerConnectionEvent::HandshakeSucceeded;
                assert(events.take(i)[j + 1] == PeerConnectionEvent::HandshakeSucceeded);
            }
            if tail.0 == PeerConnectionPhase::Serving {
                let j = choose|j: int|
                    0 <= j < rest.len() && #[trigger] rest[j] == PeerConnectionEvent::HandshakeSucceeded;
                assert(events[j + 1] == PeerConnectionEvent::HandshakeSucceeded);
            }
        }
    }
}

/// A run produces one action per event.
proof fn lemma_run_length(phase: PeerConnectionPhase, events: Seq<PeerConnectionEvent>)
    ensures
        run_connection(phase, events).1.len() == events.len(),
    decreases events.len(),
{
    if events.len() > 0 {
        lemma_run_length(phase.next(events[0]).0, events.drop_first());
    }
}

/// On a newly accepted connection, no stream is served before the peer's
/// handshake succeeded.
pub proof fn lemma_no_stream_served_before_handshake(events: Seq<PeerConnectionEvent>, i: int)
    requires
        0 <= i < events.len(),
        run_connection(PeerConnectionPhase::AwaitingHandshake, events).1[i]
            == PeerConnectionAction::ServeStream,
    ensures
        events.take(i).contains(PeerConnectionEvent::HandshakeSucceeded),
{
    lemma_serving_needs_handshake(PeerConnectionPhase::AwaitingHandshake, events);
}

/// A connection that is closed stays closed.
pub proof fn lemma_closed_is_final(event: PeerConnectionEvent)
    ensures
        PeerConnectionPhase::Closed.next(event) == (
            PeerConnectionPhase::Closed,
            PeerConnectionAction::Idle,
        ),
{
}

} // verus!
