//! The two services of the core: connection tracking and command execution.

pub mod command_service;
pub mod connection_service;
pub mod request_info_service;
pub mod version_service;
