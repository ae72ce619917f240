//! Startup orchestration for a process-fleet launcher followed by a reflective
//! RPC host: the decisions, the launch commands and the service set, with the
//! ordering and failure rules proved.

pub mod bootstrap;
pub mod host;
pub mod launcher;
