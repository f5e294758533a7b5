//! Lifecycle state machines for a process and a scope.
use vstd::prelude::*;

verus! {

/// The supervised lifecycle state of a process.
///
/// ```text
/// Spawning -- ok --> Running -- exit --> ExitedUnreaped -- reap --> Reaped
///    |                 |
///    | err             | terminate(graceful)
///    v                 v
/// SpawnFailed     GracefulRequested -- grace elapsed --> Forcing --> ExitedUnreaped
/// ```
#[derive(Debug, Clone, Copy, PartialEq, Eq, Structural)]
pub enum ProcessLifecycle {
    /// Being created (transient; modelled at the application boundary).
    Spawning,
    /// Alive and supervised.
    Running,
    /// A graceful termination has been requested.
    GracefulRequested,
    /// Being force-terminated.
    Forcing,
    /// Exited but not yet reaped (zombie).
    ExitedUnreaped,
    /// Exited and reaped; terminal.
    Reaped,
    /// Creation failed; terminal.
    SpawnFailed,
}

impl ProcessLifecycle {
    /// The stable name of the state.
    pub open spec fn label(self) -> Seq<char> {
        match self {
            ProcessLifecycle::Spawning => "Spawning"@,
            ProcessLifecycle::Running => "Running"@,
            ProcessLifecycle::GracefulRequested => "GracefulRequested"@,
            ProcessLifecycle::Forcing => "Forcing"@,
            ProcessLifecycle::ExitedUnreaped => "ExitedUnreaped"@,
            ProcessLifecycle::Reaped => "Reaped"@,
            ProcessLifecycle::SpawnFailed => "SpawnFailed"@,
        }
    }

    /// The states in which the process still counts as alive.
    pub open spec fn live(self) -> bool {
        self is Spawning || self is Running || self is GracefulRequested || self is Forcing
    }

    /// The states that no transition leaves.
    pub open spec fn terminal(self) -> bool {
        self is Reaped || self is SpawnFailed
    }

    /// A stable name for diagnostics / transition errors.
    #[must_use]
    pub fn name(self) -> (name: &'static str)
        ensures
            name@ == self.label(),
    {
        match self {
            Self::Spawning => "Spawning",
            Self::Running => "Running",
            Self::GracefulRequested => "GracefulRequested",
            Self::Forcing => "Forcing",
            Self::ExitedUnreaped => "ExitedUnreaped",
            Self::Reaped => "Reaped",
            Self::SpawnFailed => "SpawnFailed",
        }
    }

    /// Whether the process is still alive from the supervisor's point of view.
    #[must_use]
    pub fn is_live(self) -> (live: bool)
        ensures
            live == self.live(),
    {
        matches!(self, Self::Spawning | Self::Running | Self::GracefulRequested | Self::Forcing)
    }

    /// Whether the process has reached a terminal state.
    #[must_use]
    pub fn is_terminal(self) -> (terminal: bool)
        ensures
            terminal == self.terminal(),
    {
        matches!(self, Self::Reaped | Self::SpawnFailed)
    }

    /// Whether a termination has been requested (graceful or forceful).
    #[must_use]
    pub fn is_terminating(self) -> (terminating: bool)
        ensures
            terminating == (self is GracefulRequested || self is Forcing),
    {
        matches!(self, Self::GracefulRequested | Self::Forcing)
    }
}

/// The lifecycle state of a scope.
#[derive(Debug, Clone, Copy, PartialEq, Eq, Structural)]
pub enum ScopeState {
    /// Accepting new processes.
    Open,
    /// Terminating; no new processes accepted.
    Draining,
    /// All processes reaped; terminal.
    Closed,
}

impl ScopeState {
    /// The stable name of the state.
    pub open spec fn label(self) -> Seq<char> {
        match self {
            ScopeState::Open => "Open"@,
            ScopeState::Draining => "Draining"@,
            ScopeState::Closed => "Closed"@,
        }
    }

    /// How far along its one-way life a scope in this state is.
    pub open spec fn rank(self) -> int {
        match self {
            ScopeState::Open => 0,
            ScopeState::Draining => 1,
            ScopeState::Closed => 2,
        }
    }

    /// A stable name for diagnostics.
    #[must_use]
    pub fn name(self) -> (name: &'static str)
        ensures
            name@ == self.label(),
    {
        match self {
            Self::Open => "Open",
            Self::Draining => "Draining",
            Self::Closed => "Closed",
        }
    }

    /// Whether the scope will accept new processes.
    #[must_use]
    pub fn accepts_processes(self) -> (accepts: bool)
        ensures
            accepts == (self is Open),
    {
        matches!(self, Self::Open)
    }
}

} // verus!
