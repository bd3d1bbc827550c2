//! What can go wrong in the store and around it.

use vstd::prelude::*;
use vstd::string::StringExecFns;

verus! {

/// The error that tells the consensus engine to shut the node down.
#[derive(Clone, Copy, Debug, PartialEq, Eq, Structural)]
pub enum ShutdownError {
    UnsafeStorageError,
}

impl ShutdownError {
    /// The message of the error, as it is shown to a user.
    pub fn message(&self) -> (msg: String)
        ensures
            msg@ == "unsafe storage error"@,
    {
        String::from_str("unsafe storage error")
    }
}

/// A failure of the store or of the node around it.
#[derive(Debug, PartialEq, Eq)]
pub enum MetaError {
    /// The log holds no entry at the index that the state machine was
    /// applied through, so no snapshot can be cut there.
    InconsistentLog,
    /// The directory holds no address under this node key.
    NodeNotFound { key: String },
    /// The directory holds nothing under this key.
    KeyNotFound { key: String },
    /// The consensus engine turned a write down; `reason` is what it said.
    WriteRejected { reason: String },
}

/// What a [`MetaError`] says.
pub enum MetaErrorView {
    InconsistentLog,
    NodeNotFound { key: Seq<char> },
    KeyNotFound { key: Seq<char> },
    WriteRejected { reason: Seq<char> },
}

impl MetaErrorView {
    /// The message of the error.
    pub open spec fn message(self) -> Seq<char> {
        match self {
            MetaErrorView::InconsistentLog => "a query was received which was expecting data to be in place which does not exist in the log"@,
            MetaErrorView::NodeNotFound { key } => "node not found: "@ + key,
            MetaErrorView::KeyNotFound { key } => "meta data key not found: "@ + key,
            MetaErrorView::WriteRejected { reason } => reason,
        }
    }
}

impl View for MetaError {
    type V = MetaErrorView;

    open spec fn view(&self) -> MetaErrorView {
        match self {
            MetaError::InconsistentLog => MetaErrorView::InconsistentLog,
            MetaError::NodeNotFound { key } => MetaErrorView::NodeNotFound { key: key@ },
            MetaError::KeyNotFound { key } => MetaErrorView::KeyNotFound { key: key@ },
            MetaError::WriteRejected { reason } => MetaErrorView::WriteRejected { reason: reason@ },
        }
    }
}

impl MetaError {
    /// The message of the error, as it is shown to a user.
    pub fn message(&self) -> (msg: String)
        ensures
            msg@ == self@.message(),
    {
        match self {
            MetaError::InconsistentLog => String::from_str(
                "a query was received which was expecting data to be in place which does not exist in the log",
            ),
            MetaError::NodeNotFound { key } => {
                let mut msg = String::from_str("node not found: ");
                msg.append(key.as_str());
                msg
            },
            MetaError::KeyNotFound { key } => {
                let mut msg = String::from_str("meta data key not found: ");
                msg.append(key.as_str());
                msg
            },
            MetaError::WriteRejected { reason } => reason.clone(),
        }
    }
}

} // verus!
