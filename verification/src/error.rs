//! Errors of the distribution layer and how transport failures map onto them.

use crate::bytes::WireError;
use crate::text::{decimal, decimal_text};
use vstd::prelude::*;
use vstd::string::StringExecFns;

verus! {

/// The node this library reports errors about is identified by this number.
pub type NodeId = u64;

/// An error of the distribution layer.
///
/// Errors that come out of the transport or the TLS stack carry their
/// rendered text.
#[derive(Debug, PartialEq, Eq)]
pub enum Error {
    TlsFileError(String),
    TlsError(String),
    IoError(String),
    ClientConnectionError(String),
    SerializationError(WireError),
    UnknownNode(NodeId),
}

/// Why opening a connection to a peer failed, as the transport reports it.
/// Addresses are carried in their rendered text form.
#[derive(Debug, PartialEq, Eq)]
pub enum ConnectFailure {
    TooManyConnections,
    EndpointStopping,
    InvalidDnsName(String),
    InvalidRemoteAddress(String),
    NoDefaultClientConfig,
    UnsupportedVersion,
}

/// Why an established connection ended, as the transport reports it.
/// Codes, reasons and transport errors are carried in their rendered form.
#[derive(Debug, PartialEq, Eq)]
pub enum ConnectionFailure {
    VersionMismatch,
    TransportError(String),
    ConnectionClosed { error_code: String, reason: String },
    ApplicationClosed { error_code: String, reason: String },
    Reset,
    TimedOut,
    LocallyClosed,
}

/// The message a connect failure is reported with.
pub open spec fn connect_failure_message(e: ConnectFailure) -> Seq<char> {
    match e {
        ConnectFailure::TooManyConnections => "too many connection already exist"@,
        ConnectFailure::EndpointStopping => "endpoint has been shutdown"@,
        ConnectFailure::InvalidDnsName(name) => "invalid DNS name given "@ + name@,
        ConnectFailure::InvalidRemoteAddress(addr) => "invalid address given "@ + addr@,
        ConnectFailure::NoDefaultClientConfig => Seq::empty(),
        ConnectFailure::UnsupportedVersion =>
            "cryptographic layer does not support the specified QUIC version"@,
    }
}

/// The message a lost connection is reported with.
pub open spec fn connection_failure_message(e: ConnectionFailure) -> Seq<char> {
    match e {
        ConnectionFailure::VersionMismatch => "peer does not support any compatible versions"@,
        ConnectionFailure::TransportError(t) => "transport error "@ + t@,
        ConnectionFailure::ConnectionClosed { error_code, reason } =>
            "client connection closed. code="@ + error_code@ + ", reason="@ + reason@,
        ConnectionFailure::ApplicationClosed { error_code, reason } =>
            "peer aborted connection closed. code="@ + error_code@ + ", reason="@ + reason@,
        ConnectionFailure::Reset => "connection was unexpectedly reset"@,
        ConnectionFailure::TimedOut => "connection timed out"@,
        ConnectionFailure::LocallyClosed => "local connection aborted the connection"@,
    }
}

impl Error {
    /// The text an error is reported with.
    pub open spec fn spec_message(&self) -> Seq<char> {
        match self {
            Error::TlsFileError(m) => "failed to read TLS file due to error "@ + m@,
            Error::TlsError(m) => "failed to complete TLS operation due to error "@ + m@,
            Error::IoError(m) => m@,
            Error::ClientConnectionError(m) => "failed to establish a connection "@ + m@,
            Error::SerializationError(w) => "failed to serialize value "@ + w.spec_message(),
            Error::UnknownNode(id) => "attempted to interact with a unknown peer node "@ + decimal(
                *id as nat,
            ),
        }
    }

    /// The text an error is reported with.
    pub fn message(&self) -> (m: String)
        ensures
            m@ == self.spec_message(),
    {
        match self {
            Error::TlsFileError(m) => String::from_str("failed to read TLS file due to error ").concat(
                m.as_str(),
            ),
            Error::TlsError(m) => String::from_str(
                "failed to complete TLS operation due to error ",
            ).concat(m.as_str()),
            Error::IoError(m) => m.clone(),
            Error::ClientConnectionError(m) => String::from_str(
                "failed to establish a connection ",
            ).concat(m.as_str()),
            Error::SerializationError(w) => String::from_str("failed to serialize value ").concat(
                w.message().as_str(),
            ),
            Error::UnknownNode(id) => String::from_str(
                "attempted to interact with a unknown peer node ",
            ).concat(decimal_text(*id).as_str()),
        }
    }

    /// The error of a request that could not be handed to the client actor,
    /// because the actor has ended.
    pub fn actor_dropped() -> (e: Error)
        ensures
            e matches Error::ClientConnectionError(m) && m@ == "client actor was dropped"@,
    {
        Error::ClientConnectionError(String::from_str("client actor was dropped"))
    }

    /// The error of a request whose response never came back from the client actor.
    pub fn response_lost() -> (e: Error)
        ensures
            e matches Error::ClientConnectionError(m) && m@
                == "system failed to receive response from client"@,
    {
        Error::ClientConnectionError(String::from_str("system failed to receive response from client"))
    }

    /// The error of a value that could not be decoded.
    pub fn from_wire(e: WireError) -> (r: Error)
        ensures
            r == Error::SerializationError(e),
    {
        Error::SerializationError(e)
    }

    /// Reports a failure to open a connection as a client connection error.
    ///
    /// A missing default client configuration cannot happen: every client
    /// endpoint is given one when it is created.
    pub fn from_connect_failure(e: ConnectFailure) -> (r: Error)
        requires
            !(e is NoDefaultClientConfig),
        ensures
            r matches Error::ClientConnectionError(m) && m@ == connect_failure_message(e),
    {
        let msg = match e {
            ConnectFailure::TooManyConnections => String::from_str(
                "too many connection already exist",
            ),
            ConnectFailure::EndpointStopping => String::from_str("endpoint has been shutdown"),
            ConnectFailure::InvalidDnsName(name) => String::from_str(
                "invalid DNS name given ",
            ).concat(name.as_str()),
            ConnectFailure::InvalidRemoteAddress(addr) => String::from_str(
                "invalid address given ",
            ).concat(addr.as_str()),
            ConnectFailure::NoDefaultClientConfig => String::new(),
            ConnectFailure::UnsupportedVersion => String::from_str(
                "cryptographic layer does not support the specified QUIC version",
            ),
        };
        Error::ClientConnectionError(msg)
    }

    /// Reports the end of an established connection as a client connection error.
    pub fn from_connection_failure(e: ConnectionFailure) -> (r: Error)
        ensures
            r matches Error::ClientConnectionError(m) && m@ == connection_failure_message(e),
    {
        let msg = match e {
            ConnectionFailure::VersionMismatch => String::from_str(
                "peer does not support any compatible versions",
            ),
            ConnectionFailure::TransportError(t) => String::from_str("transport error ").concat(
                t.as_str(),
            ),
            ConnectionFailure::ConnectionClosed { error_code, reason } => String::from_str(
                "client connection closed. code=",
            ).concat(error_code.as_str()).concat(", reason=").concat(reason.as_str()),
            ConnectionFailure::ApplicationClosed { error_code, reason } => String::from_str(
                "peer aborted connection closed. code=",
            ).concat(error_code.as_str()).concat(", reason=").concat(reason.as_str()),
            ConnectionFailure::Reset => String::from_str("connection was unexpectedly reset"),
            ConnectionFailure::TimedOut => String::from_str("connection timed out"),
            ConnectionFailure::LocallyClosed => String::from_str(
                "local connection aborted the connection",
            ),
        };
        Error::ClientConnectionError(msg)
    }
}

} // verus!
