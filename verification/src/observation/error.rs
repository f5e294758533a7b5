//! Failures to collect or select an observation.
use vstd::prelude::*;
use vstd::string::StringExecFns;
use crate::domain::text::push_decimal;

verus! {

/// Failure to collect or select an observation.
#[derive(Debug, PartialEq, Eq)]
pub enum ObservationError {
    /// This target has no observation adapter.
    Unsupported,
    /// Missing may mean exited, inaccessible, or not present; never proof of exit.
    NotVisible(u32),
    /// A previously observed PID now has a different reported start time.
    IdentityChanged(u32),
    /// Native observation failed.
    Backend(String),
}

impl ObservationError {
    /// The message of the error.
    pub open spec fn text(self) -> Seq<char> {
        match self {
            ObservationError::Unsupported => "process observation is unsupported on this platform"@,
            ObservationError::NotVisible(pid) => "process "@ + crate::domain::text::decimal(
                pid as nat,
            ) + " is not visible in the snapshot"@,
            ObservationError::IdentityChanged(pid) => "process "@ + crate::domain::text::decimal(
                pid as nat,
            ) + " has a different observed identity"@,
            ObservationError::Backend(cause) => "process observation failed: "@ + cause@,
        }
    }

    /// Renders the error for people.
    #[must_use]
    pub fn message(&self) -> (message: String)
        ensures
            message@ == self.text(),
    {
        match self {
            ObservationError::Unsupported => String::from_str(
                "process observation is unsupported on this platform",
            ),
            ObservationError::NotVisible(pid) => {
                let mut message = String::from_str("process ");
                push_decimal(&mut message, *pid as u64);
                message.append(" is not visible in the snapshot");
                message
            },
            ObservationError::IdentityChanged(pid) => {
                let mut message = String::from_str("process ");
                push_decimal(&mut message, *pid as u64);
                message.append(" has a different observed identity");
                message
            },
            ObservationError::Backend(cause) => {
                let mut message = String::from_str("process observation failed: ");
                message.append(cause.as_str());
                message
            },
        }
    }
}

} // verus!
