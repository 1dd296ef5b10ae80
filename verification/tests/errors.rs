use lnx_distribute::bytes::WireError;
use lnx_distribute::error::{ConnectFailure, ConnectionFailure, Error};

fn message(e: Error) -> String {
    match e {
        Error::ClientConnectionError(m) => m,
        other => panic!("unexpected error {:?}", other),
    }
}

#[test]
fn connect_failures_are_described() {
    assert_eq!(
        message(Error::from_connect_failure(ConnectFailure::TooManyConnections)),
        "too many connection already exist"
    );
    assert_eq!(
        message(Error::from_connect_failure(ConnectFailure::EndpointStopping)),
        "endpoint has been shutdown"
    );
    assert_eq!(
        message(Error::from_connect_failure(ConnectFailure::InvalidDnsName("bad name".to_string()))),
        "invalid DNS name given bad name"
    );
    assert_eq!(
        message(Error::from_connect_failure(ConnectFailure::InvalidRemoteAddress("1.2.3.4:0".to_string()))),
        "invalid address given 1.2.3.4:0"
    );
    assert_eq!(
        message(Error::from_connect_failure(ConnectFailure::UnsupportedVersion)),
        "cryptographic layer does not support the specified QUIC version"
    );
}

#[test]
fn connection_failures_are_described() {
    assert_eq!(
        message(Error::from_connection_failure(ConnectionFailure::VersionMismatch)),
        "peer does not support any compatible versions"
    );
    assert_eq!(
        message(Error::from_connection_failure(ConnectionFailure::TransportError("oops".to_string()))),
        "transport error oops"
    );
    assert_eq!(
        message(Error::from_connection_failure(ConnectionFailure::ConnectionClosed {
            error_code: "PROTOCOL_VIOLATION".to_string(),
            reason: "b\"x\"".to_string(),
        })),
        "client connection closed. code=PROTOCOL_VIOLATION, reason=b\"x\""
    );
    assert_eq!(
        message(Error::from_connection_failure(ConnectionFailure::ApplicationClosed {
            error_code: "7".to_string(),
            reason: "b\"\"".to_string(),
        })),
        "peer aborted connection closed. code=7, reason=b\"\""
    );
    assert_eq!(
        message(Error::from_connection_failure(ConnectionFailure::Reset)),
        "connection was unexpectedly reset"
    );
    assert_eq!(message(Error::from_connection_failure(ConnectionFailure::TimedOut)), "connection timed out");
    assert_eq!(
        message(Error::from_connection_failure(ConnectionFailure::LocallyClosed)),
        "local connection aborted the connection"
    );
}

#[test]
fn client_request_errors() {
    assert_eq!(message(Error::actor_dropped()), "client actor was dropped");
    assert_eq!(message(Error::response_lost()), "system failed to receive response from client");
    assert_eq!(Error::from_wire(WireError::Truncated), Error::SerializationError(WireError::Truncated));
}

#[test]
fn error_messages() {
    assert_eq!(
        Error::TlsFileError("no such file".to_string()).message(),
        "failed to read TLS file due to error no such file"
    );
    assert_eq!(
        Error::TlsError("bad".to_string()).message(),
        "failed to complete TLS operation due to error bad"
    );
    assert_eq!(Error::IoError("closed".to_string()).message(), "closed");
    assert_eq!(
        Error::ClientConnectionError("x".to_string()).message(),
        "failed to establish a connection x"
    );
    assert_eq!(
        Error::SerializationError(WireError::Truncated).message(),
        "failed to serialize value io error: unexpected end of file"
    );
    assert_eq!(
        Error::SerializationError(WireError::UnknownVariant { tag: 42, variants: 2 }).message(),
        "failed to serialize value invalid value: integer `42`, expected variant index 0 <= i < 2"
    );
    assert_eq!(
        Error::UnknownNode(18446744073709551615).message(),
        "attempted to interact with a unknown peer node 18446744073709551615"
    );
    assert_eq!(Error::UnknownNode(0).message(), "attempted to interact with a unknown peer node 0");
}

#[test]
fn truncation_text_is_bincodes() {
    let e = bincode::deserialize::<u32>(&[1, 2]).unwrap_err();
    assert_eq!(e.to_string(), WireError::Truncated.message());
}
