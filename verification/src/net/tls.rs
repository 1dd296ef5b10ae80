//! Transport and TLS settings of the node's endpoints.

use std::sync::Arc;
use vstd::prelude::*;

verus! {

/// Milliseconds a connection may stay idle before it is closed.
pub const IDLE_TIMEOUT_MILLIS: u32 = 120_000;

/// Unidirectional streams a peer may open on a server connection: none,
/// every request travels on a bidirectional stream.
pub const MAX_CONCURRENT_UNI_STREAMS: u8 = 0;

/// The IPv4 address a client endpoint binds to, as a number: the loopback
/// address 127.0.0.1.
pub const CLIENT_BIND_IP: u32 = 0x7f00_0001;

/// The subject name of the self-signed certificate an insecure server uses.
pub fn insecure_cert_subject() -> (name: &'static str)
    ensures
        name@ == "localhost"@,
{
    "localhost"
}

/// The port a client endpoint binds to: any free port.
pub const CLIENT_BIND_PORT: u16 = 0;

/// The server certificate verifier of insecure clients: it accepts every
/// certificate. Not for production use.
#[derive(Debug, Clone, Copy, PartialEq, Eq, Structural)]
pub struct SkipServerVerification;

impl SkipServerVerification {
    /// A shared verifier.
    pub fn new() -> (v: Arc<SkipServerVerification>)
        ensures
            *v == SkipServerVerification,
    {
        Arc::new(SkipServerVerification)
    }

    /// Whether a server certificate is accepted: always.
    pub fn verify_server_cert(&self) -> (accepted: bool)
        ensures
            accepted,
    {
        true
    }
}

} // verus!
