//! One process, run to its end or to a deadline, and cleaned up after.
use vstd::prelude::*;
use vstd::string::StringExecFns;
use crate::domain::exit::ProcessExit;
use crate::domain::ids::ProcessId;
use crate::domain::spec::GracePeriod;
use crate::domain::time::{Duration, Instant};
use crate::supervision::error::{ScopeCreationError, SpawnError, TerminateError, WaitError};
use crate::supervision::output::{OutputChunk, OutputSnapshot};
use crate::supervision::ports::TerminateOptions;
use crate::supervision::report::ScopeTerminationReport;

verus! {

/// Milliseconds between two reads of a capture that is being drained.
pub const DRAIN_PAUSE_MILLIS: u64 = 10;

/// Options of a run.
#[derive(Debug, Clone, Copy, PartialEq, Eq, Structural)]
pub struct RunOptions {
    /// Wall-clock bound covering spawn *and* wait, not only output reads.
    pub deadline: Duration,
    /// Grace and force budgets used for verified cleanup.
    pub terminate: TerminateOptions,
    /// How long to keep draining capture pipes after the process is reaped.
    pub output_drain: Duration,
}

impl RunOptions {
    /// A deadline with short cleanup defaults.
    #[must_use]
    pub fn with_deadline(deadline: Duration) -> (options: Self)
        ensures
            options == (RunOptions {
                deadline,
                terminate: TerminateOptions {
                    grace: GracePeriod(Duration { nanos: 100_000_000 }),
                    force_timeout: Some(Duration { nanos: 5_000_000_000 }),
                },
                output_drain: Duration { nanos: 1_000_000_000 },
            }),
    {
        RunOptions {
            deadline,
            terminate: TerminateOptions {
                grace: GracePeriod::new(Duration::from_millis(100)),
                force_timeout: Some(Duration::from_secs(5)),
            },
            output_drain: Duration::from_secs(1),
        }
    }
}

/// Result of a deadline-bounded run.
#[derive(Debug, Clone)]
pub enum BlockingRun {
    /// The process exited before the deadline; the scope was then cleaned up.
    Completed {
        /// Process exit.
        exit: ProcessExit,
        /// Combined capture snapshot when the spec requested output.
        output: Option<OutputSnapshot>,
        /// Scope cleanup after the natural exit.
        termination: ScopeTerminationReport,
    },
    /// The deadline expired; the whole scope was terminated.
    TimedOut {
        /// Capture snapshot if anything was admitted and captured.
        output: Option<OutputSnapshot>,
        /// Verified (or explicitly unverified) scope cleanup.
        termination: ScopeTerminationReport,
    },
}

impl BlockingRun {
    /// The cleanup report of the run.
    pub open spec fn cleanup(self) -> ScopeTerminationReport {
        match self {
            BlockingRun::Completed { termination, .. } => termination,
            BlockingRun::TimedOut { termination, .. } => termination,
        }
    }

    /// What the run captured.
    pub open spec fn captured(self) -> Option<OutputSnapshot> {
        match self {
            BlockingRun::Completed { output, .. } => output,
            BlockingRun::TimedOut { output, .. } => output,
        }
    }

    /// Whether the attempt ended because the deadline expired.
    #[must_use]
    pub fn timed_out(&self) -> (expired: bool)
        ensures
            expired == (self is TimedOut),
    {
        matches!(self, BlockingRun::TimedOut { .. })
    }

    /// Whether every process in the cleanup report reached a verified outcome.
    #[must_use]
    pub fn all_verified(&self) -> (verified: bool)
        ensures
            verified == self.cleanup()@.verified(),
    {
        self.termination().all_verified()
    }

    /// The scope cleanup report.
    #[must_use]
    pub fn termination(&self) -> (report: &ScopeTerminationReport)
        ensures
            *report == self.cleanup(),
    {
        match self {
            BlockingRun::Completed { termination, .. } => termination,
            BlockingRun::TimedOut { termination, .. } => termination,
        }
    }

    /// Captured output, if any.
    #[must_use]
    pub fn output(&self) -> (output: Option<&OutputSnapshot>)
        ensures
            match output {
                Some(snapshot) => self.captured() == Some(*snapshot),
                None => self.captured() is None,
            },
    {
        match self {
            BlockingRun::Completed { output, .. } => output.as_ref(),
            BlockingRun::TimedOut { output, .. } => output.as_ref(),
        }
    }

    /// Turns an unverified cleanup report into an error, for callers that treat anything short
    /// of a confirmed reap as a failure.
    ///
    /// # Errors
    /// Returns [`BlockingRunError::Unverified`] if the cleanup was not verified.
    pub fn into_verified(self) -> (run: Result<Self, BlockingRunError>)
        ensures
            match run {
                Ok(same) => same == self && self.cleanup()@.verified(),
                Err(BlockingRunError::Unverified { run: cause, termination }) => {
                    &&& !self.cleanup()@.verified()
                    &&& cause is None
                    &&& termination@ == self.cleanup()@
                },
                Err(_) => false,
            },
    {
        if self.all_verified() {
            Ok(self)
        } else {
            Err(
                BlockingRunError::Unverified { run: None, termination: self.termination().clone() },
            )
        }
    }
}

/// Failure of a deadline-bounded run other than timeout.
#[derive(Debug)]
pub enum BlockingRunError {
    /// The supervisor no longer admits scopes.
    Scope(ScopeCreationError),
    /// Spawn failed after the scope was admitted. Cleanup was still attempted.
    Spawn(SpawnError),
    /// Waiting for the process failed. Cleanup was still attempted.
    Wait(WaitError),
    /// Scope cleanup itself failed (preferred over a swallowed spawn/wait error).
    Terminate(TerminateError),
    /// Spawn or wait failed, or the caller asked for a verified report, and scope cleanup
    /// returned without confirming reap.
    Unverified {
        /// The original spawn/wait error, when cleanup ran because that failed.
        run: Option<Box<BlockingRunError>>,
        /// The cleanup report. Inspect outcomes before assuming children are gone.
        termination: ScopeTerminationReport,
    },
}

impl BlockingRunError {
    /// The message of the error.
    pub open spec fn text(self) -> Seq<char> {
        match self {
            BlockingRunError::Scope(_) => "supervisor is no longer accepting scopes"@,
            BlockingRunError::Spawn(cause) => cause.text(),
            BlockingRunError::Wait(cause) => cause.text(),
            BlockingRunError::Terminate(cause) => cause.text(),
            BlockingRunError::Unverified { .. } => "scope cleanup was not verified"@,
        }
    }

    /// Renders the error for people.
    #[must_use]
    pub fn message(&self) -> (message: String)
        ensures
            message@ == self.text(),
    {
        match self {
            BlockingRunError::Scope(cause) => cause.message(),
            BlockingRunError::Spawn(cause) => cause.message(),
            BlockingRunError::Wait(cause) => cause.message(),
            BlockingRunError::Terminate(cause) => cause.message(),
            BlockingRunError::Unverified { .. } => String::from_str(
                "scope cleanup was not verified",
            ),
        }
    }
}

/// How the attempt to run the process came out.
#[derive(Debug)]
pub enum RunAttempt {
    /// The process was spawned and its exit was seen, before the deadline.
    Exited(ProcessId, ProcessExit),
    /// It could not be spawned, or not be waited for.
    Failed(BlockingRunError),
    /// The deadline expired.
    Expired,
}

/// What is left of a run once the attempt is over.
#[derive(Debug)]
pub struct RunEnding {
    /// How the attempt came out.
    pub attempt: RunAttempt,
    /// The process whose capture is claimed before the scope is cleaned up.
    pub capture: Option<ProcessId>,
}

/// The process whose capture is claimed once an attempt is over.
pub open spec fn claimed(
    attempt: RunAttempt,
    admitted: Option<ProcessId>,
    listed: Option<Seq<ProcessId>>,
) -> Option<ProcessId> {
    match attempt {
        RunAttempt::Exited(pid, _) => Some(pid),
        RunAttempt::Failed(_) => None,
        RunAttempt::Expired => match (admitted, listed) {
            (Some(pid), _) => Some(pid),
            (None, Some(pids)) => if pids.len() > 0 {
                Some(pids[0])
            } else {
                None
            },
            (None, None) => None,
        },
    }
}

/// The result of a run, given how its attempt and its cleanup came out.
pub open spec fn finished(
    attempt: RunAttempt,
    cleanup: Result<ScopeTerminationReport, TerminateError>,
    output: Option<OutputSnapshot>,
) -> Result<BlockingRun, BlockingRunError> {
    match (attempt, cleanup) {
        (_, Err(error)) => Err(BlockingRunError::Terminate(error)),
        (RunAttempt::Exited(_, exit), Ok(termination)) => Ok(
            BlockingRun::Completed { exit, output, termination },
        ),
        (RunAttempt::Expired, Ok(termination)) => Ok(
            BlockingRun::TimedOut { output, termination },
        ),
        (RunAttempt::Failed(error), Ok(termination)) => if termination@.verified() {
            Err(error)
        } else {
            Err(BlockingRunError::Unverified { run: Some(Box::new(error)), termination })
        },
    }
}

impl RunEnding {
    /// Ends an attempt. `admitted` is the process that was spawned, as far as that was seen;
    /// `listed` are the processes of the scope. A capture is claimed before the cleanup, so that
    /// the cleanup cannot make it expire.
    #[must_use]
    pub fn new(attempt: RunAttempt, admitted: Option<ProcessId>, listed: Option<&Vec<ProcessId>>) -> (
        ending: Self)
        ensures
            ending.attempt == attempt,
            ending.capture == (match attempt {
                RunAttempt::Exited(pid, _) => Some(pid),
                RunAttempt::Failed(_) => None,
                RunAttempt::Expired => match (admitted, listed) {
                    (Some(pid), _) => Some(pid),
                    (None, Some(pids)) => if pids@.len() > 0 {
                        Some(pids@[0])
                    } else {
                        None
                    },
                    (None, None) => None,
                },
            }),
            ending.capture == claimed(
                attempt,
                admitted,
                match listed {
                    Some(pids) => Some(pids@),
                    None => None,
                },
            ),
    {
        let capture: Option<ProcessId> = match &attempt {
            RunAttempt::Exited(pid, _) => Some(*pid),
            RunAttempt::Failed(_) => None,
            RunAttempt::Expired => match admitted {
                Some(pid) => Some(pid),
                None => match listed {
                    Some(pids) => if pids.len() > 0 {
                        Some(pids[0])
                    } else {
                        None
                    },
                    None => None,
                },
            },
        };
        RunEnding { attempt, capture }
    }

    /// The result of the run, given how its scope was cleaned up and what was captured. An error
    /// of the attempt is only returned as it is if the cleanup was verified.
    ///
    /// # Errors
    /// Returns [`BlockingRunError::Terminate`] if the cleanup failed, the error of the attempt
    /// if that failed, and [`BlockingRunError::Unverified`] if the attempt failed and the
    /// cleanup was not verified.
    pub fn finish(
        self,
        cleanup: Result<ScopeTerminationReport, TerminateError>,
        output: Option<OutputSnapshot>,
    ) -> (run: Result<BlockingRun, BlockingRunError>)
        ensures
            run == (match (self.attempt, cleanup) {
                (_, Err(error)) => Err(BlockingRunError::Terminate(error)),
                (RunAttempt::Exited(_, exit), Ok(termination)) => Ok(
                    BlockingRun::Completed { exit, output, termination },
                ),
                (RunAttempt::Expired, Ok(termination)) => Ok(
                    BlockingRun::TimedOut { output, termination },
                ),
                (RunAttempt::Failed(error), Ok(termination)) => if termination@.verified() {
                    Err(error)
                } else {
                    Err(BlockingRunError::Unverified { run: Some(Box::new(error)), termination })
                },
            }),
            run == finished(self.attempt, cleanup, output),
    {
        let termination = match cleanup {
            Ok(termination) => termination,
            Err(error) => {
                return Err(BlockingRunError::Terminate(error));
            },
        };
        match self.attempt {
            RunAttempt::Exited(_, exit) => Ok(BlockingRun::Completed { exit, output, termination }),
            RunAttempt::Expired => Ok(BlockingRun::TimedOut { output, termination }),
            RunAttempt::Failed(error) => if termination.all_verified() {
                Err(error)
            } else {
                Err(BlockingRunError::Unverified { run: Some(Box::new(error)), termination })
            },
        }
    }
}

/// The drain of a capture: every chunk that was read, and the state of the capture at the last
/// read.
#[derive(Debug)]
pub struct OutputDrain {
    chunks: Vec<OutputChunk>,
    latest: OutputSnapshot,
}

impl OutputDrain {
    /// All chunks read so far, oldest first.
    pub closed spec fn collected(self) -> Seq<OutputChunk> {
        self.chunks@
    }

    /// The capture at the last read, without its chunks.
    pub closed spec fn last_read(self) -> OutputSnapshot {
        self.latest
    }

    /// Whether both pipes were at their end at the last read.
    pub open spec fn ended(self) -> bool {
        self.last_read().stdout_closed && self.last_read().stderr_closed
    }

    /// Starts a drain with the first read.
    #[must_use]
    pub fn new(first: OutputSnapshot) -> (drain: Self)
        ensures
            drain.collected() == first.chunks@,
            drain.last_read() == (OutputSnapshot {
                chunks: drain.last_read().chunks,
                ..first
            }),
    {
        OutputDrain {
            chunks: first.chunks,
            latest: OutputSnapshot {
                chunks: Vec::new(),
                tail: first.tail,
                dropped_bytes: first.dropped_bytes,
                stdout_closed: first.stdout_closed,
                stderr_closed: first.stderr_closed,
                errors: first.errors,
            },
        }
    }

    /// Whether to read once more: until both pipes are at their end, or the time is up.
    #[must_use]
    pub fn goes_on(&self, now: Instant, deadline: Instant) -> (more: bool)
        ensures
            more == (!self.ended() && now.nanos < deadline.nanos),
    {
        !(self.latest.stdout_closed && self.latest.stderr_closed) && now.nanos < deadline.nanos
    }

    /// Adds another read.
    pub fn add_read(&mut self, next: OutputSnapshot)
        ensures
            final(self).collected() == old(self).collected() + next.chunks@,
            final(self).last_read() == (OutputSnapshot {
                chunks: final(self).last_read().chunks,
                ..next
            }),
    {
        let mut more: Vec<OutputChunk> = next.chunks;
        self.chunks.append(&mut more);
        self.latest = OutputSnapshot {
            chunks: Vec::new(),
            tail: next.tail,
            dropped_bytes: next.dropped_bytes,
            stdout_closed: next.stdout_closed,
            stderr_closed: next.stderr_closed,
            errors: next.errors,
        };
    }

    /// The whole capture: every chunk once, in order, and everything else as of the last read.
    #[must_use]
    pub fn finish(self) -> (snapshot: OutputSnapshot)
        ensures
            snapshot.chunks@ == self.collected(),
            snapshot == (OutputSnapshot { chunks: snapshot.chunks, ..self.last_read() }),
    {
        OutputSnapshot {
            chunks: self.chunks,
            tail: self.latest.tail,
            dropped_bytes: self.latest.dropped_bytes,
            stdout_closed: self.latest.stdout_closed,
            stderr_closed: self.latest.stderr_closed,
            errors: self.latest.errors,
        }
    }
}

} // verus!
