//! Helpers shared by the services.

pub mod request;
pub mod time;
