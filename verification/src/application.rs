//! What the server decides for each connection that it accepts.

pub mod server;
