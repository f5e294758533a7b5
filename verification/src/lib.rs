//! Process supervision: ownership of process trees, their termination and what may be
//! claimed about it afterwards.
pub mod blocking;
pub mod domain;
pub mod observation;
pub mod platform;
pub mod supervision;
pub mod testing;

pub use domain::capability::{Capabilities, Containment, Support};
pub use domain::error::{DomainError, InvalidTransition};
pub use domain::event::{DomainEvent, IntegrationEvent};
pub use domain::exit::{ProcessExit, RawExit, TerminationOutcome, UnverifiedReason};
pub use domain::ids::{ProcessId, ProcessScopeId};
pub use domain::lifecycle::{ProcessLifecycle, ScopeState};
pub use domain::os::{OsIdentity, ReuseToken};
pub use domain::process::Process;
pub use domain::scope::ProcessScope;
pub use domain::spec::{EnvPolicy, GracePeriod, NativeString, OutputMode, ProcessSpec, Signal};
pub use domain::stats::{CpuUsage, ProcessState, ProcessStats, RawStats};
pub use domain::time::{Duration, Instant};
pub use observation::error::ObservationError;
pub use observation::snapshot::{
    ObservedProcess, ObservedProcessIdentity, ProcessSnapshot, ProcessTree,
};
pub use observation::usage::{
    AccountingSource, ProcessUsage, ScopeAccounting, ScopeUsage, TreeUsage, UsageEntry,
    UsageFailure, UsageSelection, UsageSnapshot, UsageTotal, UsageTotals,
};
pub use platform::null::NullBackend;
pub use platform::unix::UnixProcessBackend;
pub use platform::windows::WindowsJobBackend;
pub use supervision::dispatch::EventDispatcher;
pub use supervision::error::{
    HandlerError, ScopeCreationError, ShutdownError, SpawnError, StatsError, TerminateError,
    WaitError,
};
pub use supervision::output::{OutputChunk, OutputSnapshot, OutputStream, ProcessOutput};
pub use supervision::ports::{Spawned, TerminateOptions};
pub use supervision::registry::ScopeRegistry;
pub use supervision::report::{ScopeTerminationReport, ShutdownReport, WithScopeResult};
pub use supervision::supervisor::ProcessSupervisor;
pub use supervision::waiters::InMemoryWaiters;
