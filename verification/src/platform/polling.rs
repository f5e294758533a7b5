//! Waiting, in bounded steps, for a kernel container to run empty.
use vstd::prelude::*;
use crate::domain::time::Duration;

verus! {

/// How often a container is looked at before its cleanup is given up.
pub const CLEANUP_ATTEMPTS: u32 = 500;

/// Milliseconds between two looks at a container.
pub const CLEANUP_PAUSE_MILLIS: u64 = 10;

/// What one look at a container shows.
#[derive(Debug, Clone, Copy, PartialEq, Eq, Structural)]
pub enum ContainerState {
    /// There is no such container.
    Gone,
    /// Nothing runs in it.
    Empty,
    /// Something still runs in it.
    Busy,
}

/// What follows from one look at a container.
#[derive(Debug, Clone, Copy, PartialEq, Eq, Structural)]
pub enum CleanupStep {
    /// There is nothing left to do.
    Done,
    /// Remove the container; that completes the cleanup.
    Remove,
    /// Look again after a pause.
    Pause(Duration),
}

/// The cleanup of one container.
#[derive(Debug, Clone, Copy, PartialEq, Eq, Structural)]
pub struct ContainerCleanup {
    /// How often the container may still be looked at.
    pub left: u32,
}

impl ContainerCleanup {
    /// A cleanup that has not looked yet.
    #[must_use]
    pub fn new() -> (cleanup: Self)
        ensures
            cleanup.left == CLEANUP_ATTEMPTS,
    {
        ContainerCleanup { left: CLEANUP_ATTEMPTS }
    }

    /// Whether the cleanup has to be reported as failed.
    #[must_use]
    pub fn is_exhausted(&self) -> (exhausted: bool)
        ensures
            exhausted == (self.left == 0),
    {
        self.left == 0
    }

    /// Takes note of one look. A container is only removed when it was seen empty.
    pub fn observe(&mut self, seen: ContainerState) -> (step: CleanupStep)
        requires
            old(self).left > 0,
        ensures
            match seen {
                ContainerState::Gone => step is Done && *final(self) == *old(self),
                ContainerState::Empty => step is Remove && *final(self) == *old(self),
                ContainerState::Busy => {
                    &&& step matches CleanupStep::Pause(pause)
                    &&& pause.nanos == CLEANUP_PAUSE_MILLIS * 1_000_000
                    &&& final(self).left == old(self).left - 1
                },
            },
    {
        match seen {
            ContainerState::Gone => CleanupStep::Done,
            ContainerState::Empty => CleanupStep::Remove,
            ContainerState::Busy => {
                self.left = self.left - 1;
                CleanupStep::Pause(Duration::from_millis(CLEANUP_PAUSE_MILLIS))
            },
        }
    }
}

} // verus!
