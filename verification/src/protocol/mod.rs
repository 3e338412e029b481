//! The protocol: how messages are written, and how the two ends of a connection use them.

pub mod buffer;
pub mod bytewise;
pub mod codec;
pub mod conduct;
pub mod constants;
pub mod device;
pub mod exchange;
pub mod framing;
pub mod handshake;
pub mod laws;
pub mod octets;
pub mod server;
pub mod session;
pub mod wire;

pub use codec::ProtocolError;
pub use device::{UsbDeviceDescriptor, UsbDeviceSpeed};
pub use handshake::{import_device, HandshakeError};
pub use server::{accept_device, serve_urb_echo, AcceptError};
pub use session::TcpSession;
pub use wire::{OpRepImport, OpReqImport, UsbipHeader};
