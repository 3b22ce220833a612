//! Supervision of an external worker process and live streaming of its log.
//!
//! The library holds the decisions: when the cached liveness answer may be
//! trusted, which processes belong to the worker, what a start or stop
//! reports, which byte range of the log is delivered next, and how uptime is
//! shown. The program around it performs the process spawns, file reads and
//! timers, and hands the library plain values.

pub mod cache;
pub mod fingerprint;
pub mod logtail;
pub mod network;
pub mod resolver;
pub mod start;
pub mod stats;
pub mod supervisor;
pub mod text;
