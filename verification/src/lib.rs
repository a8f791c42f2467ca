//! Connection lifecycle tracking and admission-controlled command execution
//! for an operational HTTP service.
//!
//! The library holds the decisions of the service: which connections are
//! live and what their history adds up to, how a connection moves through
//! its timeouts, which commands a caller may see and run, and what a finished
//! command reports. Sockets, subprocesses, timers and locks stay with the
//! program that embeds it.

pub mod application;
pub mod config;
pub mod service;
pub mod utils;
