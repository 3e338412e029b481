//! Access to the USB devices of a host.

use vstd::prelude::*;

verus! {

/// What can go wrong with the USB devices of a host.
#[derive(Debug, Clone, PartialEq, Eq)]
pub enum UsbHostError {
    Io(String),
    DeviceNotFound { busid: String },
    DeviceInUse { busid: String },
    PlatformError(String),
}

impl UsbHostError {
    /// The message that is shown for the error.
    pub open spec fn message(self) -> Seq<char> {
        match self {
            UsbHostError::Io(text) => "I/O error: "@ + text@,
            UsbHostError::DeviceNotFound { busid } => "device not found: "@ + busid@,
            UsbHostError::DeviceInUse { busid } => "device already in use: "@ + busid@,
            UsbHostError::PlatformError(text) => "platform error: "@ + text@,
        }
    }

    /// The message that is shown for the error.
    pub fn to_string(&self) -> (message: String)
        ensures
            message@ == self.message(),
    {
        match self {
            UsbHostError::Io(text) => "I/O error: ".to_string().concat(text.as_str()),
            UsbHostError::DeviceNotFound { busid } => "device not found: ".to_string().concat(busid.as_str()),
            UsbHostError::DeviceInUse { busid } => "device already in use: ".to_string().concat(busid.as_str()),
            UsbHostError::PlatformError(text) => "platform error: ".to_string().concat(text.as_str()),
        }
    }
}

/// What is said of each error: the words for its kind, and the text that it holds.
pub proof fn law_messages(text: String)
    ensures
        UsbHostError::Io(text).message() == "I/O error: "@ + text@,
        (UsbHostError::DeviceNotFound { busid: text }).message() == "device not found: "@ + text@,
        (UsbHostError::DeviceInUse { busid: text }).message() == "device already in use: "@ + text@,
        UsbHostError::PlatformError(text).message() == "platform error: "@ + text@,
{
}

} // verus!
