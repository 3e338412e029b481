//! The local interface that other programs call.

use vstd::prelude::*;

verus! {

/// What can go wrong with the local interface.
#[derive(Debug, Clone, PartialEq, Eq)]
pub enum IpcError {
    BindFailed(String),
    RouteNotFound { path: String },
    ShutdownFailed(String),
    AlreadyServing,
}

impl IpcError {
    /// The message that is shown for the error.
    pub open spec fn message(self) -> Seq<char> {
        match self {
            IpcError::BindFailed(text) => "bind failed: "@ + text@,
            IpcError::RouteNotFound { path } => "route not found: "@ + path@,
            IpcError::ShutdownFailed(text) => "shutdown failed: "@ + text@,
            IpcError::AlreadyServing => "already serving"@,
        }
    }

    /// The message that is shown for the error.
    pub fn to_string(&self) -> (message: String)
        ensures
            message@ == self.message(),
    {
        match self {
            IpcError::BindFailed(text) => "bind failed: ".to_string().concat(text.as_str()),
            IpcError::RouteNotFound { path } => "route not found: ".to_string().concat(path.as_str()),
            IpcError::ShutdownFailed(text) => "shutdown failed: ".to_string().concat(text.as_str()),
            IpcError::AlreadyServing => "already serving".to_string(),
        }
    }
}

/// What is said of each error: the words for its kind, and the text that it holds.
pub proof fn law_messages(text: String)
    ensures
        IpcError::BindFailed(text).message() == "bind failed: "@ + text@,
        (IpcError::RouteNotFound { path: text }).message() == "route not found: "@ + text@,
        IpcError::ShutdownFailed(text).message() == "shutdown failed: "@ + text@,
        IpcError::AlreadyServing.message() == "already serving"@,
{
}

} // verus!
