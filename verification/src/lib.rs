//! Verified core of the lnx distribution layer: wire framing of peer
//! requests, the client connection actor, the server-side stream protocol,
//! the peer directory and the log-store encodings.

pub mod bytes;
pub mod error;
pub mod net;
pub mod raft;
pub mod raft_store;
pub mod raft_network;
pub mod rpc;
pub mod text;

pub use error::Error;
