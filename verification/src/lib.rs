//! Core logic of an FTP (RFC 959 style) server and its companion client:
//! reply encoding, account lookup and the two-step login exchange, the
//! directory jail, an in-memory model of the served file tree, the
//! per-command handlers, and the per-session command dispatcher.
//!
//! Everything here is pure protocol logic over plain values; the network
//! and disk edges live outside the library and hand values in and out.

pub mod reply;
pub mod text;
pub mod paths;
pub mod account;
pub mod session;
pub mod fs;
pub mod server;
pub mod dispatch;
pub mod client;
pub mod laws;
