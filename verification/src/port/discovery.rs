//! Finding servers on the network.

use vstd::prelude::*;

verus! {

/// What can go wrong with finding servers.
#[derive(Debug, Clone, PartialEq, Eq)]
pub enum DiscoveryError {
    AdvertiseFailed(String),
    ScanFailed(String),
    WithdrawFailed(String),
    NotInitialized(String),
}

impl DiscoveryError {
    /// The message that is shown for the error.
    pub open spec fn message(self) -> Seq<char> {
        match self {
            DiscoveryError::AdvertiseFailed(text) => "advertise failed: "@ + text@,
            DiscoveryError::ScanFailed(text) => "scan failed: "@ + text@,
            DiscoveryError::WithdrawFailed(text) => "withdraw failed: "@ + text@,
            DiscoveryError::NotInitialized(text) => "not initialized: "@ + text@,
        }
    }

    /// The message that is shown for the error.
    pub fn to_string(&self) -> (message: String)
        ensures
            message@ == self.message(),
    {
        match self {
            DiscoveryError::AdvertiseFailed(text) => "advertise failed: ".to_string().concat(text.as_str()),
            DiscoveryError::ScanFailed(text) => "scan failed: ".to_string().concat(text.as_str()),
            DiscoveryError::WithdrawFailed(text) => "withdraw failed: ".to_string().concat(text.as_str()),
            DiscoveryError::NotInitialized(text) => "not initialized: ".to_string().concat(text.as_str()),
        }
    }
}

/// What is said of each error: the words for its kind, and the text that it holds.
pub proof fn law_messages(text: String)
    ensures
        DiscoveryError::AdvertiseFailed(text).message() == "advertise failed: "@ + text@,
        DiscoveryError::ScanFailed(text).message() == "scan failed: "@ + text@,
        DiscoveryError::WithdrawFailed(text).message() == "withdraw failed: "@ + text@,
        DiscoveryError::NotInitialized(text).message() == "not initialized: "@ + text@,
{
}

} // verus!
