//! Why an operation of the engine did not succeed.

use vstd::prelude::*;

verus! {

/// The failures that the engine reports. None of them ends the process.
#[derive(Debug)]
pub enum EngineError {
    /// No identity is available to sign a call with.
    NoAccountConfigured,
    /// An object was to be deleted and no bucket was named.
    NoBucketSpecified,
    /// The remote service refused a call. The message is the service's own
    /// where it gave one, else the engine's description of the call.
    Protocol { message: String },
    /// The local file system failed.
    Io { message: String },
}

/// What an [`EngineError`] holds, as plain values.
pub enum EngineErrorView {
    NoAccountConfigured,
    NoBucketSpecified,
    Protocol { message: Seq<char> },
    Io { message: Seq<char> },
}

impl View for EngineError {
    type V = EngineErrorView;

    open spec fn view(&self) -> EngineErrorView {
        match self {
            EngineError::NoAccountConfigured => EngineErrorView::NoAccountConfigured,
            EngineError::NoBucketSpecified => EngineErrorView::NoBucketSpecified,
            EngineError::Protocol { message } => EngineErrorView::Protocol { message: message@ },
            EngineError::Io { message } => EngineErrorView::Io { message: message@ },
        }
    }
}

impl EngineErrorView {
    /// The text that a caller shows for the error.
    pub open spec fn message(self) -> Seq<char> {
        match self {
            EngineErrorView::NoAccountConfigured => {
                "No default account configured. Please set up an AWS account first."@
            },
            EngineErrorView::NoBucketSpecified => "No bucket specified!"@,
            EngineErrorView::Protocol { message } => message,
            EngineErrorView::Io { message } => message,
        }
    }
}

impl EngineError {
    /// The text that a caller shows for the error.
    pub fn message(&self) -> (text: String)
        ensures
            text@ == self@.message(),
    {
        match self {
            EngineError::NoAccountConfigured => {
                "No default account configured. Please set up an AWS account first.".to_owned()
            },
            EngineError::NoBucketSpecified => "No bucket specified!".to_owned(),
            EngineError::Protocol { message } => message.clone(),
            EngineError::Io { message } => message.clone(),
        }
    }
}

/// The text of a call that the service rejected: the service's own message
/// where it gave one, else the description of the failure.
pub fn rejection_text(message: Option<String>, description: String) -> (text: String)
    ensures
        text@ == match message {
            Some(message) => message@,
            None => description@,
        },
{
    match message {
        Some(message) => message,
        None => description,
    }
}

impl Clone for EngineError {
    fn clone(&self) -> (copy: Self)
        ensures
            copy == *self,
    {
        match self {
            EngineError::NoAccountConfigured => EngineError::NoAccountConfigured,
            EngineError::NoBucketSpecified => EngineError::NoBucketSpecified,
            EngineError::Protocol { message } => EngineError::Protocol { message: message.clone() },
            EngineError::Io { message } => EngineError::Io { message: message.clone() },
        }
    }
}

} // verus!
