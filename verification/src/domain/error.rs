//! Errors of the pure rules (no I/O errors here).
use vstd::prelude::*;
use vstd::string::StringExecFns;
use crate::domain::ids::{ProcessId, ProcessScopeId};

verus! {

/// An illegal lifecycle transition was attempted.
///
/// These are guarded internally; a returned value indicates a bug in the caller of the
/// aggregate, not a normal runtime condition.
#[derive(Debug, Clone, Copy, PartialEq, Eq)]
pub struct InvalidTransition {
    /// The state the process/scope was in.
    pub from: &'static str,
    /// The event/operation that was rejected.
    pub event: &'static str,
}

impl InvalidTransition {
    /// The message of the error.
    pub open spec fn text(self) -> Seq<char> {
        "invalid transition from "@ + self.from@ + " on event '"@ + self.event@ + "'"@
    }

    /// Renders the error for people.
    #[must_use]
    pub fn message(&self) -> (message: String)
        ensures
            message@ == self.text(),
    {
        let mut message = String::from_str("invalid transition from ");
        message.append(self.from);
        message.append(" on event '");
        message.append(self.event);
        message.append("'");
        message
    }
}

/// Errors produced when an operation is not valid for the current state.
#[derive(Debug, Clone, Copy, PartialEq, Eq)]
pub enum DomainError {
    /// Attempted to spawn into a scope that is draining or closed.
    ScopeClosed(ProcessScopeId),
    /// Referenced a process that the scope does not own.
    UnknownProcess(ProcessId),
    /// Referenced a scope that does not exist.
    UnknownScope(ProcessScopeId),
    /// A lifecycle transition was requested that is illegal for the current state.
    InvalidTransition(InvalidTransition),
}

impl DomainError {
    /// The message of the error.
    pub open spec fn text(self) -> Seq<char> {
        match self {
            DomainError::ScopeClosed(scope) => "scope "@ + crate::domain::ids::scope_label(scope)
                + " is not accepting new processes"@,
            DomainError::UnknownProcess(pid) => "unknown process "@ + crate::domain::ids::process_label(pid),
            DomainError::UnknownScope(scope) => "unknown scope "@ + crate::domain::ids::scope_label(scope),
            DomainError::InvalidTransition(cause) => cause.text(),
        }
    }

    /// Renders the error for people.
    #[must_use]
    pub fn message(&self) -> (message: String)
        ensures
            message@ == self.text(),
    {
        match self {
            DomainError::ScopeClosed(scope) => {
                let mut message = String::from_str("scope ");
                message.append(scope.label().as_str());
                message.append(" is not accepting new processes");
                message
            },
            DomainError::UnknownProcess(pid) => {
                let mut message = String::from_str("unknown process ");
                message.append(pid.label().as_str());
                message
            },
            DomainError::UnknownScope(scope) => {
                let mut message = String::from_str("unknown scope ");
                message.append(scope.label().as_str());
                message
            },
            DomainError::InvalidTransition(cause) => cause.message(),
        }
    }
}

} // verus!
