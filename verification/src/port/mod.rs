//! What the engine needs of its surroundings: the values it exchanges with them, and the
//! errors they report.

pub mod discovery;
pub mod host;
pub mod ipc;
pub mod session;
pub mod types;

pub use discovery::DiscoveryError;
pub use host::UsbHostError;
pub use ipc::IpcError;
pub use session::SessionSignalError;
pub use types::{SignalMode, UsbDevice, UsbEvent};
