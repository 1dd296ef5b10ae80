//! The raft log store: the records the log is kept as.

pub mod logs;
pub mod structures;
