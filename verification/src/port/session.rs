//! Signals that a session starts or stops.

use vstd::prelude::*;

verus! {

/// What can go wrong with the signals of a session.
#[derive(Debug, Clone, PartialEq, Eq)]
pub enum SessionSignalError {
    SignalFailed(String),
    AlreadyRegistered,
    NotRegistered,
}

impl SessionSignalError {
    /// The message that is shown for the error.
    pub open spec fn message(self) -> Seq<char> {
        match self {
            SessionSignalError::SignalFailed(text) => "signal failed: "@ + text@,
            SessionSignalError::AlreadyRegistered => "already registered"@,
            SessionSignalError::NotRegistered => "not registered"@,
        }
    }

    /// The message that is shown for the error.
    pub fn to_string(&self) -> (message: String)
        ensures
            message@ == self.message(),
    {
        match self {
            SessionSignalError::SignalFailed(text) => "signal failed: ".to_string().concat(text.as_str()),
            SessionSignalError::AlreadyRegistered => "already registered".to_string(),
            SessionSignalError::NotRegistered => "not registered".to_string(),
        }
    }
}

/// What is said of each error: the words for its kind, and the text that it holds.
pub proof fn law_messages(text: String)
    ensures
        SessionSignalError::SignalFailed(text).message() == "signal failed: "@ + text@,
        SessionSignalError::AlreadyRegistered.message() == "already registered"@,
        SessionSignalError::NotRegistered.message() == "not registered"@,
{
}

} // verus!
