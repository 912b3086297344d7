//! The error taxonomy of the shell.
//!
//! Every failure an operation can report is an explicit variant here; none of
//! the operations panics or aborts on external misbehaviour. The caller-facing
//! surface turns each variant into a plain message string via [`PassError::message`].

use vstd::prelude::*;

verus! {

/// A failure of one of the three store operations.
#[derive(Debug, Clone, PartialEq, Eq)]
pub enum PassError {
    /// A required environment value (the home directory) was missing.
    Configuration,
    /// The external tool could not be launched; carries the launch error text.
    Process(String),
    /// The external tool ran but exited with a non-zero status.
    ToolFailed,
    /// The external tool's captured output was not valid UTF-8.
    NonUtf8Output,
    /// The store directory could not be opened; carries the open error text.
    StoreUnreadable(String),
}

impl PassError {
    /// The plain message string surfaced to the calling shell for this error.
    pub fn message(&self) -> (r: String)
        ensures
            match self {
                PassError::Configuration => r@ == "Could not get 'HOME' environment variable"@,
                PassError::Process(m) => r@ == m@,
                PassError::ToolFailed => r@ == "The password tool exited with a failure status"@,
                PassError::NonUtf8Output => r@ == "The password tool produced output that is not valid UTF-8"@,
                PassError::StoreUnreadable(m) => r@ == m@,
            },
    {
        match self {
            PassError::Configuration => String::from_str(
                "Could not get 'HOME' environment variable",
            ),
            PassError::Process(m) => m.clone(),
            PassError::ToolFailed => String::from_str(
                "The password tool exited with a failure status",
            ),
            PassError::NonUtf8Output => String::from_str(
                "The password tool produced output that is not valid UTF-8",
            ),
            PassError::StoreUnreadable(m) => m.clone(),
        }
    }
}

} // verus!
