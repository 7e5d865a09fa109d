//! Failures that the queue reports to its caller.

use vstd::prelude::*;
use vstd::string::StringExecFns;

verus! {

/// Why a request to the queue was refused.
#[derive(Debug, PartialEq, Eq)]
pub enum QueueError {
    /// No job has the given id.
    NotFound,
    /// The job table could not take the record; the payload says why.
    Persistence(String),
    /// The concurrency limit is not a positive integer.
    Config,
}

impl QueueError {
    /// Text shown to the user for this failure.
    pub open spec fn message_text(self) -> Seq<char> {
        match self {
            QueueError::NotFound => "Download task not found"@,
            QueueError::Persistence(detail) => detail@,
            QueueError::Config => "Concurrency limit must be at least 1"@,
        }
    }

    pub fn message(&self) -> (text: String)
        ensures
            text@ == self.message_text(),
    {
        match self {
            QueueError::NotFound => String::from_str("Download task not found"),
            QueueError::Persistence(detail) => detail.clone(),
            QueueError::Config => String::from_str("Concurrency limit must be at least 1"),
        }
    }
}

/// Why work on the external tools failed. Each payload is the text shown
/// to the user.
#[derive(Debug, PartialEq, Eq)]
pub enum AppError {
    /// No usable copy of a tool was found.
    BinaryNotFound(String),
    /// The server refused to hand out the tool.
    DownloadError(String),
    /// Anything else.
    Custom(String),
}

impl AppError {
    /// Text shown to the user for this failure.
    pub open spec fn message_text(self) -> Seq<char> {
        match self {
            AppError::BinaryNotFound(text) => text@,
            AppError::DownloadError(text) => text@,
            AppError::Custom(text) => text@,
        }
    }

    pub fn message(&self) -> (text: String)
        ensures
            text@ == self.message_text(),
    {
        match self {
            AppError::BinaryNotFound(text) => text.clone(),
            AppError::DownloadError(text) => text.clone(),
            AppError::Custom(text) => text.clone(),
        }
    }
}

} // verus!
