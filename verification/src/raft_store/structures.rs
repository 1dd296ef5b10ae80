//! The data the raft store replicates.

use vstd::prelude::*;

verus! {

/// The position of an entry in the raft log.
#[derive(Debug, Clone, Copy, PartialEq, Eq, Structural)]
pub struct LogId(pub u64);

/// The application data request type.
#[derive(Debug, Clone, PartialEq, Eq)]
pub struct ClientRequest {
    /// The ID of the client which has sent the request.
    pub client: String,
    /// The serial number of this request.
    pub serial: u64,
    /// The payload of the request.
    pub payload: Vec<u8>,
}

} // verus!
