//! Domain events (in-process facts) and integration events (boundary-crossing facts).
use vstd::prelude::*;
use crate::domain::exit::{ProcessExit, TerminationOutcome};
use crate::domain::ids::{ProcessId, ProcessScopeId};

verus! {

/// A fact that happened inside process supervision.
///
/// Domain events are **returned** by aggregate transitions (the aggregate never dispatches)
/// and are handled **in-process**.
#[derive(Debug, Clone, Copy, PartialEq, Eq, Structural)]
pub enum DomainEvent {
    /// A process was successfully spawned into a scope.
    ProcessSpawned {
        /// The owning scope.
        scope: ProcessScopeId,
        /// The spawned process.
        pid: ProcessId,
    },
    /// Termination was requested for a process.
    TerminationRequested {
        /// The owning scope.
        scope: ProcessScopeId,
        /// The process being terminated.
        pid: ProcessId,
    },
    /// A process was observed to have exited (before reaping).
    ProcessExited {
        /// The owning scope.
        scope: ProcessScopeId,
        /// The exited process.
        pid: ProcessId,
    },
    /// An exited process's resources were reaped; its terminal state is confirmed.
    ProcessReaped {
        /// The owning scope.
        scope: ProcessScopeId,
        /// The reaped process.
        pid: ProcessId,
        /// The verified terminal exit.
        exit: ProcessExit,
    },
    /// A scope reached the closed state; all its processes are reaped.
    ScopeClosed {
        /// The closed scope.
        scope: ProcessScopeId,
    },
}

/// A lifecycle fact published across the library's boundary.
///
/// Decoupled from internal invariants; delivery is bounded and lossy-tolerant.
#[derive(Debug, Clone, Copy, PartialEq, Eq, Structural)]
pub enum IntegrationEvent {
    /// A process reached a terminal, reaped state.
    ProcessTerminated {
        /// The owning scope.
        scope: ProcessScopeId,
        /// The terminated process.
        pid: ProcessId,
        /// The verified outcome.
        outcome: TerminationOutcome,
    },
    /// A whole scope was terminated and closed.
    ScopeTerminated {
        /// The terminated scope.
        scope: ProcessScopeId,
    },
}

} // verus!
