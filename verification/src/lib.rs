//! The USB/IP protocol engine: wire formats, sessions and the device registry.

pub mod engine;
pub mod port;
pub mod protocol;
pub mod text;
