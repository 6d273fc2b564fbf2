//! The ways in which handling a message can fail.

use vstd::prelude::*;

verus! {

/// Why a message could not be handled.
#[derive(Clone, Copy, Debug, PartialEq, Eq, Structural)]
pub enum PingError {
    /// The role-mention pattern was rejected, so no message can be classified.
    PatternRejected,
    /// A tally without a single mention was handed to the counter store.
    InvariantViolation,
    /// The counter store could not take the write; nothing was changed.
    StorageError,
}

impl PingError {
    /// A line for the log.
    pub fn message(&self) -> (text: String)
        ensures
            text@ == (match *self {
                PingError::PatternRejected => "Role mention pattern was rejected"@,
                PingError::InvariantViolation =>
                    "Attempted to upsert new guild ping data when there were no pings"@,
                PingError::StorageError => "Failed to upsert guild ping data"@,
            }),
    {
        match self {
            PingError::PatternRejected => "Role mention pattern was rejected".to_owned(),
            PingError::InvariantViolation => {
                "Attempted to upsert new guild ping data when there were no pings".to_owned()
            },
            PingError::StorageError => "Failed to upsert guild ping data".to_owned(),
        }
    }
}

} // verus!
