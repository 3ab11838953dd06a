//! The error type shared by log destinations.
//!
//! Failures carry an optional human-readable cause; rendering never drops
//! it, so a caller always sees which phase failed and why.

use vstd::prelude::*;
use vstd::string::StringExecFns;

verus! {

/// The error type for one log destination.
#[derive(Debug)]
pub enum LogError {
    /// The destination could not be created or opened.
    LogFileCreationError(Option<String>),
    /// The destination could not be written to.
    LogFileWriteError(Option<String>),
}

/// The rendered cause: the cause itself when there is one, and a fixed
/// phrase when there is none.
pub open spec fn cause_text(cause: Option<String>) -> Seq<char> {
    match cause {
        Some(c) => c@,
        None => "unspecified reason"@,
    }
}

/// The rendered text of a creation failure with the given cause.
pub open spec fn creation_error_text(cause: Seq<char>) -> Seq<char> {
    "failed to create log file\n\t- "@ + cause
}

/// The rendered text of a write failure with the given cause.
pub open spec fn write_error_text(cause: Seq<char>) -> Seq<char> {
    "failed to write to log file\n\t- "@ + cause
}

impl LogError {
    /// The characters of the rendered error: which phase failed, then the
    /// cause on an indented line of its own.
    pub open spec fn spec_message(&self) -> Seq<char> {
        match self {
            LogError::LogFileCreationError(cause) => creation_error_text(cause_text(*cause)),
            LogError::LogFileWriteError(cause) => write_error_text(cause_text(*cause)),
        }
    }

    /// Renders the error as text, preserving the cause.
    pub fn message(&self) -> (r: String)
        ensures
            r@ == self.spec_message(),
    {
        match self {
            LogError::LogFileCreationError(cause) => {
                let mut r = String::from_str("failed to create log file\n\t- ");
                append_cause(&mut r, cause);
                r
            },
            LogError::LogFileWriteError(cause) => {
                let mut r = String::from_str("failed to write to log file\n\t- ");
                append_cause(&mut r, cause);
                r
            },
        }
    }
}

/// Appends the rendered cause to a message under construction.
fn append_cause(r: &mut String, cause: &Option<String>)
    ensures
        final(r)@ == old(r)@ + cause_text(*cause),
{
    match cause {
        Some(c) => r.append(c.as_str()),
        None => r.append("unspecified reason"),
    }
}

} // verus!
