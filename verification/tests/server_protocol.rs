use lnx_distribute::bytes::AsBytes;
use lnx_distribute::net::server::{
    read_request, PeerConnectionAction, PeerConnectionEvent, PeerConnectionPhase, ReadOutcome,
    RequestError, MAX_HANDSHAKE_SIZE, MAX_SERVER_READ_SIZE,
};
use lnx_distribute::raft_network::request::PeerRequest;
use lnx_distribute::rpc;
use PeerConnectionAction as A;
use PeerConnectionEvent as E;

#[test]
fn complete_stream_reads_request() {
    let bytes = PeerRequest::HelloWorld.as_bytes();
    let r: Result<PeerRequest, RequestError> = read_request(ReadOutcome::Complete(bytes));
    assert_eq!(r, Ok(PeerRequest::HelloWorld));
    let r: Result<rpc::PeerRequest, RequestError> = read_request(ReadOutcome::Complete(vec![0, 0, 0, 0]));
    assert_eq!(r, Ok(rpc::PeerRequest::HeartBeat));
}

#[test]
fn unreadable_streams_are_too_long() {
    let r: Result<PeerRequest, RequestError> = read_request(ReadOutcome::TooLong);
    assert_eq!(r, Err(RequestError::TooLong));
    let r: Result<PeerRequest, RequestError> = read_request(ReadOutcome::Failed);
    assert_eq!(r, Err(RequestError::TooLong));
}

#[test]
fn garbage_is_invalid() {
    let r: Result<PeerRequest, RequestError> = read_request(ReadOutcome::Complete(vec![9, 0, 0, 0]));
    assert_eq!(r, Err(RequestError::Invalid));
    let r: Result<PeerRequest, RequestError> = read_request(ReadOutcome::Complete(vec![]));
    assert_eq!(r, Err(RequestError::Invalid));
}

#[test]
fn request_error_messages() {
    assert_eq!(RequestError::TooLong.message(), "peer request too long");
    assert_eq!(RequestError::Invalid.message(), "peer request invalid");
}

#[test]
fn read_limits() {
    assert_eq!(MAX_SERVER_READ_SIZE, 536_870_912);
    assert_eq!(MAX_HANDSHAKE_SIZE, 32_768);
}

fn run(events: &[PeerConnectionEvent]) -> (PeerConnectionPhase, Vec<PeerConnectionAction>) {
    let mut phase = PeerConnectionPhase::start();
    let mut actions = Vec::new();
    for ev in events {
        let (p, a) = phase.step(*ev);
        actions.push(a);
        phase = p;
    }
    (phase, actions)
}

#[test]
fn streams_served_after_handshake() {
    let (phase, actions) = run(&[E::StreamOpened, E::HandshakeSucceeded, E::StreamOpened, E::StreamOpened, E::StreamsEnded]);
    assert_eq!(phase, PeerConnectionPhase::Closed);
    assert_eq!(actions, vec![A::RunHandshake, A::Idle, A::ServeStream, A::ServeStream, A::Close]);
}

#[test]
fn failed_handshake_closes() {
    let (phase, actions) = run(&[E::StreamOpened, E::HandshakeFailed, E::StreamOpened]);
    assert_eq!(phase, PeerConnectionPhase::Closed);
    assert!(!actions.contains(&PeerConnectionAction::ServeStream));
}

#[test]
fn no_handshake_stream_closes() {
    let (phase, actions) = run(&[PeerConnectionEvent::StreamsEnded]);
    assert_eq!(phase, PeerConnectionPhase::Closed);
    assert_eq!(actions, vec![PeerConnectionAction::Close]);
}

#[test]
fn closed_stays_closed() {
    let (p, a) = PeerConnectionPhase::Closed.step(PeerConnectionEvent::StreamOpened);
    assert_eq!((p, a), (PeerConnectionPhase::Closed, PeerConnectionAction::Idle));
}
