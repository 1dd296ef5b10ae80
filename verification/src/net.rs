//! Node-to-node networking: the client actor that keeps a connection to one
//! peer, the server side of the stream protocol, the peer directory and the
//! socket configuration.

pub mod client;
pub mod config;
pub mod peers;
pub mod server;
pub mod tls;
