//! Typed operation errors. Each operation has its own error so callers can branch.
use vstd::prelude::*;
use vstd::string::StringExecFns;
use crate::domain::error::DomainError;
use crate::domain::ids::{ProcessId, ProcessScopeId};
use crate::domain::text::push_decimal;

verus! {

/// Error admitting a new process scope.
#[derive(Debug, Clone, Copy, PartialEq, Eq, Structural)]
pub enum ScopeCreationError {
    /// Shutdown has started, so no new scopes can be admitted.
    SupervisorClosed,
}

impl ScopeCreationError {
    /// Renders the error for people.
    #[must_use]
    pub fn message(&self) -> (message: String)
        ensures
            message@ == "supervisor is no longer accepting scopes"@,
    {
        String::from_str("supervisor is no longer accepting scopes")
    }
}

/// Error creating a process.
#[derive(Debug, PartialEq, Eq)]
pub enum SpawnError {
    /// The target scope does not exist.
    UnknownScope(ProcessScopeId),
    /// The scope is draining/closed and cannot accept new processes.
    ScopeClosed(ProcessScopeId),
    /// The OS failed to create the process.
    Os(String),
    /// A domain rule rejected the operation.
    Domain(DomainError),
}

impl SpawnError {
    /// The message of the error.
    pub open spec fn text(self) -> Seq<char> {
        match self {
            SpawnError::UnknownScope(scope) => "unknown scope "@
                + crate::domain::ids::scope_label(scope),
            SpawnError::ScopeClosed(scope) => "scope "@ + crate::domain::ids::scope_label(scope)
                + " is not accepting new processes"@,
            SpawnError::Os(cause) => "failed to spawn process: "@ + cause@,
            SpawnError::Domain(cause) => cause.text(),
        }
    }

    /// Renders the error for people.
    #[must_use]
    pub fn message(&self) -> (message: String)
        ensures
            message@ == self.text(),
    {
        match self {
            SpawnError::UnknownScope(scope) => {
                let mut message = String::from_str("unknown scope ");
                message.append(scope.label().as_str());
                message
            },
            SpawnError::ScopeClosed(scope) => {
                let mut message = String::from_str("scope ");
                message.append(scope.label().as_str());
                message.append(" is not accepting new processes");
                message
            },
            SpawnError::Os(cause) => {
                let mut message = String::from_str("failed to spawn process: ");
                message.append(cause.as_str());
                message
            },
            SpawnError::Domain(cause) => cause.message(),
        }
    }
}

/// Error terminating a process or scope.
#[derive(Debug, PartialEq, Eq)]
pub enum TerminateError {
    /// The referenced process is unknown.
    UnknownProcess(ProcessId),
    /// The referenced scope is unknown.
    UnknownScope(ProcessScopeId),
    /// Sending the signal failed.
    Signal(String),
    /// A domain rule rejected the operation.
    Domain(DomainError),
}

impl Clone for TerminateError {
    fn clone(&self) -> (copy: Self)
        ensures
            copy == *self,
    {
        match self {
            TerminateError::UnknownProcess(pid) => TerminateError::UnknownProcess(*pid),
            TerminateError::UnknownScope(scope) => TerminateError::UnknownScope(*scope),
            TerminateError::Signal(cause) => TerminateError::Signal(cause.clone()),
            TerminateError::Domain(cause) => TerminateError::Domain(*cause),
        }
    }
}

impl TerminateError {
    /// The message of the error.
    pub open spec fn text(self) -> Seq<char> {
        match self {
            TerminateError::UnknownProcess(pid) => "unknown process "@
                + crate::domain::ids::process_label(pid),
            TerminateError::UnknownScope(scope) => "unknown scope "@
                + crate::domain::ids::scope_label(scope),
            TerminateError::Signal(cause) => "failed to signal process: "@ + cause@,
            TerminateError::Domain(cause) => cause.text(),
        }
    }

    /// Renders the error for people.
    #[must_use]
    pub fn message(&self) -> (message: String)
        ensures
            message@ == self.text(),
    {
        match self {
            TerminateError::UnknownProcess(pid) => {
                let mut message = String::from_str("unknown process ");
                message.append(pid.label().as_str());
                message
            },
            TerminateError::UnknownScope(scope) => {
                let mut message = String::from_str("unknown scope ");
                message.append(scope.label().as_str());
                message
            },
            TerminateError::Signal(cause) => {
                let mut message = String::from_str("failed to signal process: ");
                message.append(cause.as_str());
                message
            },
            TerminateError::Domain(cause) => cause.message(),
        }
    }
}

/// Error collecting statistics.
#[derive(Debug, PartialEq, Eq)]
pub enum StatsError {
    /// The sampler has not completed its first observation.
    NotReady(ProcessId),
    /// The referenced process is unknown or no longer live.
    UnknownProcess(ProcessId),
    /// The backend failed to sample.
    Backend(String),
}

impl Clone for StatsError {
    fn clone(&self) -> (copy: Self)
        ensures
            copy == *self,
    {
        match self {
            StatsError::NotReady(pid) => StatsError::NotReady(*pid),
            StatsError::UnknownProcess(pid) => StatsError::UnknownProcess(*pid),
            StatsError::Backend(cause) => StatsError::Backend(cause.clone()),
        }
    }
}

impl StatsError {
    /// The message of the error.
    pub open spec fn text(self) -> Seq<char> {
        match self {
            StatsError::NotReady(pid) => "no sample available yet for process "@
                + crate::domain::ids::process_label(pid),
            StatsError::UnknownProcess(pid) => "unknown or exited process "@
                + crate::domain::ids::process_label(pid),
            StatsError::Backend(cause) => "failed to sample process: "@ + cause@,
        }
    }

    /// Renders the error for people.
    #[must_use]
    pub fn message(&self) -> (message: String)
        ensures
            message@ == self.text(),
    {
        match self {
            StatsError::NotReady(pid) => {
                let mut message = String::from_str("no sample available yet for process ");
                message.append(pid.label().as_str());
                message
            },
            StatsError::UnknownProcess(pid) => {
                let mut message = String::from_str("unknown or exited process ");
                message.append(pid.label().as_str());
                message
            },
            StatsError::Backend(cause) => {
                let mut message = String::from_str("failed to sample process: ");
                message.append(cause.as_str());
                message
            },
        }
    }
}

/// Error waiting for a process.
#[derive(Debug, PartialEq, Eq)]
pub enum WaitError {
    /// The referenced process is unknown.
    UnknownProcess(ProcessId),
    /// The backend failed while waiting.
    Backend(String),
}

impl WaitError {
    /// The message of the error.
    pub open spec fn text(self) -> Seq<char> {
        match self {
            WaitError::UnknownProcess(pid) => "unknown process "@
                + crate::domain::ids::process_label(pid),
            WaitError::Backend(cause) => "failed to wait for process: "@ + cause@,
        }
    }

    /// Renders the error for people.
    #[must_use]
    pub fn message(&self) -> (message: String)
        ensures
            message@ == self.text(),
    {
        match self {
            WaitError::UnknownProcess(pid) => {
                let mut message = String::from_str("unknown process ");
                message.append(pid.label().as_str());
                message
            },
            WaitError::Backend(cause) => {
                let mut message = String::from_str("failed to wait for process: ");
                message.append(cause.as_str());
                message
            },
        }
    }
}

/// Error during supervisor shutdown.
#[derive(Debug, Clone, Copy, PartialEq, Eq, Structural)]
pub enum ShutdownError {
    /// One or more scopes could not be verified as fully cleaned up.
    Unverified(usize),
}

impl ShutdownError {
    /// The message of the error.
    pub open spec fn text(self) -> Seq<char> {
        match self {
            ShutdownError::Unverified(count) => "shutdown could not verify cleanup of "@
                + crate::domain::text::decimal(count as nat) + " scope(s)"@,
        }
    }

    /// Renders the error for people.
    #[must_use]
    pub fn message(&self) -> (message: String)
        ensures
            message@ == self.text(),
    {
        match self {
            ShutdownError::Unverified(count) => {
                let mut message = String::from_str("shutdown could not verify cleanup of ");
                push_decimal(&mut message, *count as u64);
                message.append(" scope(s)");
                message
            },
        }
    }
}

/// Error surfaced by an event handler. Never swallowed.
#[derive(Debug, PartialEq, Eq)]
pub struct HandlerError {
    /// The handler that failed.
    pub handler: &'static str,
    /// A human-readable message.
    pub message: String,
}

impl HandlerError {
    /// Creates a handler error.
    #[must_use]
    pub fn new(handler: &'static str, message: String) -> (error: Self)
        ensures
            error.handler == handler,
            error.message == message,
    {
        Self { handler, message }
    }

    /// The message of the error.
    pub open spec fn text(self) -> Seq<char> {
        "event handler '"@ + self.handler@ + "' failed: "@ + self.message@
    }

    /// Renders the error for people.
    #[must_use]
    pub fn message(&self) -> (message: String)
        ensures
            message@ == self.text(),
    {
        let mut message = String::from_str("event handler '");
        message.append(self.handler);
        message.append("' failed: ");
        message.append(self.message.as_str());
        message
    }
}

} // verus!
