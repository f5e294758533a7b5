//! What callers without an async context can count on.
use vstd::prelude::*;
use crate::blocking::drive::{CallerRuntime, DriveMode, DriveRefusal, Driver};
use crate::blocking::run::{BlockingRun, BlockingRunError, RunAttempt};
use crate::domain::exit::ProcessExit;
use crate::domain::ids::ProcessId;
use crate::supervision::error::TerminateError;
use crate::supervision::output::OutputSnapshot;
use crate::supervision::report::ScopeTerminationReport;

verus! {

/// A cleanup that failed is told before anything else, whatever came of the attempt.
pub proof fn a_failed_cleanup_is_always_told(
    attempt: RunAttempt,
    error: TerminateError,
    output: Option<OutputSnapshot>,
)
    ensures
        crate::blocking::run::finished(attempt, Err(error), output) == Err::<BlockingRun, _>(
            BlockingRunError::Terminate(error),
        ),
{
}

/// A run that was cleaned up tells the exit of its process, or that the deadline expired; with its
/// capture and its report as they are.
pub proof fn a_run_tells_how_it_came_out(
    pid: ProcessId,
    exit: ProcessExit,
    error: BlockingRunError,
    report: ScopeTerminationReport,
    output: Option<OutputSnapshot>,
)
    ensures
        ({
            let ended = crate::blocking::run::finished(
                RunAttempt::Exited(pid, exit),
                Ok(report),
                output,
            );
            let expired = crate::blocking::run::finished(RunAttempt::Expired, Ok(report), output);
            let failed = crate::blocking::run::finished(
                RunAttempt::Failed(error),
                Ok(report),
                output,
            );
            &&& ended is Ok && ended->Ok_0 is Completed && ended->Ok_0->exit == exit
            &&& ended->Ok_0.captured() == output && ended->Ok_0.cleanup() == report
            &&& expired is Ok && expired->Ok_0 is TimedOut
            &&& expired->Ok_0.captured() == output && expired->Ok_0.cleanup() == report
            &&& report@.verified() ==> failed == Err::<BlockingRun, _>(error)
            &&& !report@.verified() ==> {
                &&& failed is Err
                &&& failed->Err_0 is Unverified
                &&& failed->Err_0->run == Some(Box::new(error))
                &&& failed->Err_0->termination == report
            }
        }),
{
}

/// The capture that is claimed is that of the process that exited, or of the one that was still
/// there when the deadline expired.
pub proof fn the_capture_of_the_run_is_claimed(
    pid: ProcessId,
    exit: ProcessExit,
    error: BlockingRunError,
    admitted: Option<ProcessId>,
    listed: Option<Seq<ProcessId>>,
)
    ensures
        crate::blocking::run::claimed(RunAttempt::Exited(pid, exit), admitted, listed) == Some(pid),
        crate::blocking::run::claimed(RunAttempt::Failed(error), admitted, listed) is None,
        admitted is Some ==> crate::blocking::run::claimed(RunAttempt::Expired, admitted, listed)
            == admitted,
        admitted is None && listed is Some && listed->0.len() > 0
            ==> crate::blocking::run::claimed(RunAttempt::Expired, admitted, listed) == Some(
            listed->0[0],
        ),
        admitted is None && (listed is None || listed->0.len() == 0)
            ==> crate::blocking::run::claimed(RunAttempt::Expired, admitted, listed) is None,
{
}

/// A call is refused in two cases only: from the one thread of the runtime that would have to drive
/// it, and on a borrowed runtime of one thread that the caller cannot drive for it.
pub proof fn calls_are_refused_for_a_reason(driver: Driver, caller: Option<CallerRuntime>)
    ensures
        ({
            let inside = caller is Some && caller->0.driving;
            let borrowed = driver == (Driver::Borrowed { current_thread: true });
            let mode = driver.mode(caller);
            &&& mode == Err::<DriveMode, _>(DriveRefusal::NestedCurrentThread) <==> inside
                && caller->0.current_thread
            &&& mode == Err::<DriveMode, _>(DriveRefusal::BorrowedCurrentThread) <==> borrowed && !(
            inside && (caller->0.current_thread || caller->0.may_block_in_place))
            &&& mode == Ok::<_, DriveRefusal>(DriveMode::Direct) <==> caller is None && !borrowed
            &&& mode == Ok::<_, DriveRefusal>(DriveMode::InPlace) <==> inside
                && !caller->0.current_thread && caller->0.may_block_in_place
            &&& mode == Ok::<_, DriveRefusal>(DriveMode::HelperThread) <==> caller is Some
                && !borrowed && !(inside && (caller->0.current_thread
                || caller->0.may_block_in_place))
        }),
{
}

} // verus!
