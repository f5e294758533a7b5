//! Values exchanged with the platform backend.
use vstd::prelude::*;
use crate::domain::os::OsIdentity;
use crate::domain::spec::GracePeriod;
use crate::domain::time::Duration;

verus! {

/// A successfully spawned OS process, as seen by the supervisor.
#[derive(Debug, Clone, Copy, PartialEq, Eq, Structural)]
pub struct Spawned {
    /// The OS identity (pid + reuse token).
    pub os: OsIdentity,
}

/// Options controlling a termination request.
#[derive(Debug, Clone, Copy, PartialEq, Eq, Structural)]
pub struct TerminateOptions {
    /// How long to wait after the graceful signal before escalating to force.
    pub grace: GracePeriod,
    /// Maximum time to wait for exit after force before giving up (`None` = wait forever).
    pub force_timeout: Option<Duration>,
}

impl Default for TerminateOptions {
    /// Five seconds of grace, ten seconds for force.
    fn default() -> (options: Self)
        ensures
            options.grace.0.nanos == 5_000_000_000,
            options.force_timeout is Some,
            options.force_timeout->0.nanos == 10_000_000_000,
    {
        Self { grace: GracePeriod::default(), force_timeout: Some(Duration::from_secs(10)) }
    }
}

} // verus!
