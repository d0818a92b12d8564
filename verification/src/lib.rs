//! Container-execution layer of a cluster orchestrator.
//!
//! This library holds the verified core of a CLI-driven container lifecycle
//! engine: the in-memory container registry, the classification of the
//! external runtime's command output, the graceful/forceful shutdown state
//! machine, point-in-time log queries, and control-group statistics parsing.
//! The unverified shell around it (process invocation, file reading, the
//! HTTP and CLI front ends) lives outside this crate and hands plain values
//! in and out.

pub mod api;
pub mod classify;
pub mod cli;
pub mod ids;
pub mod lifecycle;
pub mod logs;
pub mod registry;
pub mod stats;
pub mod text;
pub mod types;
