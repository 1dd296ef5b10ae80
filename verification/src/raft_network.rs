//! The peer network of a node: the requests peers send each other and how a
//! node answers them.

pub mod network;
pub mod request;
