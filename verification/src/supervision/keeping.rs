//! What is delivered, remembered, captured and gathered, told by what went in.
use vstd::prelude::*;
use crate::domain::event::{DomainEvent, IntegrationEvent};
use crate::domain::exit::{ProcessExit, TerminationOutcome, UnverifiedReason};
use crate::domain::ids::{ProcessId, ProcessScopeId};
use crate::domain::os::OsIdentity;
use crate::domain::process::ProcessView;
use crate::domain::spec::ProcessSpec;
use crate::domain::stats::ProcessStats;
use crate::domain::time::Instant;
use crate::supervision::error::{SpawnError, StatsError, TerminateError, WaitError};
use crate::supervision::history::OsPidHistoryView;
use crate::supervision::output::{ChunkView, OutputStream, OutputView};
use crate::supervision::ports::TerminateOptions;
use crate::supervision::registry::RegistryView;
use crate::supervision::report::{CleanupView, ReportView};
use crate::supervision::supervisor::sampler::{SampleResult, SampleTarget};
use crate::supervision::supervisor::scope_termination::ScopeTarget;
use crate::supervision::supervisor::terminate::{Retry, TerminationTarget};
use crate::supervision::supervisor::SupervisorView;
use crate::supervision::waiters::WaitersView;

verus! {

/// The outcome confirms no end.
pub open spec fn doubtful(outcome: TerminationOutcome) -> bool {
    outcome is Failed || outcome is CleanupUnverified
}

/// Every event reaches every handler once: event by event, and within an event handler by handler.
pub proof fn every_event_reaches_every_handler(events: nat, handlers: nat, e: int, h: int)
    requires
        0 <= e < events <= usize::MAX,
        0 <= h < handlers <= usize::MAX,
    ensures
        crate::supervision::dispatch::delivery_order(events, handlers).len() == events * handlers,
        0 <= e * handlers + h < events * handlers,
        crate::supervision::dispatch::delivery_order(events, handlers)[e * handlers + h].0 == e,
        crate::supervision::dispatch::delivery_order(events, handlers)[e * handlers + h].1 == h,
    decreases events,
{
    let order = crate::supervision::dispatch::delivery_order(events, handlers);
    let fewer = (events - 1) as nat;
    lemma_deliveries(fewer, handlers);
    assert(events * handlers == fewer * handlers + handlers) by (nonlinear_arith)
        requires
            events == fewer + 1,
    ;
    if e < fewer {
        every_event_reaches_every_handler(fewer, handlers, e, h);
    }
    assert(e == fewer ==> e * handlers == fewer * handlers);
    assert(0 <= fewer * handlers) by (nonlinear_arith);
}

/// There are as many deliveries as pairs of an event and a handler.
proof fn lemma_deliveries(events: nat, handlers: nat)
    ensures
        crate::supervision::dispatch::delivery_order(events, handlers).len() == events * handlers,
    decreases events,
{
    if events > 0 {
        let fewer = (events - 1) as nat;
        lemma_deliveries(fewer, handlers);
        assert(events * handlers == fewer * handlers + handlers) by (nonlinear_arith)
            requires
                events == fewer + 1,
        ;
    } else {
        assert(events * handlers == 0) by (nonlinear_arith)
            requires
                events == 0,
        ;
    }
}

/// Only the end of a process and the closing of a scope are published, with what they say.
pub proof fn ends_are_published_as_they_were(
    scope: ProcessScopeId,
    pid: ProcessId,
    exit: ProcessExit,
    event: DomainEvent,
)
    ensures
        crate::supervision::dispatch::translated(
            DomainEvent::ProcessReaped { scope, pid, exit },
        ) == Some(IntegrationEvent::ProcessTerminated { scope, pid, outcome: exit.outcome }),
        crate::supervision::dispatch::translated(DomainEvent::ScopeClosed { scope }) == Some(
            IntegrationEvent::ScopeTerminated { scope },
        ),
        crate::supervision::dispatch::translated(event) is Some <==> event is ProcessReaped
            || event is ScopeClosed,
{
}

/// Waiters are told of a reaped process, as it was reaped. An unverified end that the registry no
/// longer holds as such is kept from them.
pub proof fn waiters_are_told_of_the_reap(
    registry: RegistryView,
    scope: ProcessScopeId,
    pid: ProcessId,
    exit: ProcessExit,
    event: DomainEvent,
)
    ensures
        ({
            let reap = DomainEvent::ProcessReaped { scope, pid, exit };
            let told = crate::supervision::dispatch::notification(reap, Some(registry));
            &&& crate::supervision::dispatch::notification(reap, None) == Some((pid, exit))
            &&& told is Some ==> told == Some((pid, exit))
            &&& !doubtful(exit.outcome) ==> told is Some
            &&& doubtful(exit.outcome) ==> (told is Some <==> {
                &&& registry.scopes.contains_key(scope.0)
                &&& registry.scopes[scope.0].processes.contains_key(pid.0)
                &&& registry.scopes[scope.0].processes[pid.0].exit is Some
                &&& doubtful(registry.scopes[scope.0].processes[pid.0].exit->0.outcome)
            })
        }),
        event !is ProcessReaped ==> crate::supervision::dispatch::notification(
            event,
            Some(registry),
        ) is None && crate::supervision::dispatch::notification(event, None) is None,
{
}

/// Only a confirmed end makes the registry forget: the process itself, and no other scope changes.
pub proof fn only_a_confirmed_end_is_pruned_for(
    registry: RegistryView,
    scope: ProcessScopeId,
    pid: ProcessId,
    exit: ProcessExit,
    event: DomainEvent,
    other: u64,
)
    requires
        other != scope.0,
    ensures
        ({
            let reap = DomainEvent::ProcessReaped { scope, pid, exit };
            let after = crate::supervision::dispatch::pruned_after(registry, reap);
            &&& doubtful(exit.outcome) ==> after == registry
            &&& !registry.scopes.contains_key(scope.0) ==> after == registry
            &&& !doubtful(exit.outcome) && registry.scopes.contains_key(scope.0)
                ==> after.scopes[scope.0] == registry.scopes[scope.0].pruned(pid)
            &&& after.scopes.contains_key(other) <==> registry.scopes.contains_key(other)
            &&& registry.scopes.contains_key(other) ==> after.scopes[other]
                == registry.scopes[other]
            &&& after.next_scope == registry.next_scope
            &&& after.next_process == registry.next_process
        }),
        event !is ProcessReaped ==> crate::supervision::dispatch::pruned_after(registry, event)
            == registry,
{
}

/// A history keeps 256 entries: the newest ones, in order.
pub proof fn a_history_keeps_its_newest_entries(order: Seq<u64>, i: int)
    ensures
        ({
            let kept = crate::supervision::history::newest(order);
            &&& order.len() <= 256 ==> kept == order
            &&& order.len() > 256 ==> kept.len() == 256
            &&& 0 <= i < kept.len() ==> kept[kept.len() - 1 - i] == order[order.len() - 1 - i]
        }),
{
}

/// A PID that was attached is known, and so are the 255 that were attached before it.
pub proof fn attached_pids_are_remembered(
    history: OsPidHistoryView,
    pid: ProcessId,
    os_pid: u32,
    other: u64,
)
    requires
        history.wf(),
        other != pid.0,
    ensures
        ({
            let after = history.remembered(pid, os_pid);
            &&& after.by_pid.contains_key(pid.0)
            &&& after.by_pid[pid.0] == os_pid
            &&& after.by_pid.contains_key(other) ==> history.by_pid.contains_key(other)
                && after.by_pid[other] == history.by_pid[other]
            &&& history.by_pid.contains_key(other) && !after.by_pid.contains_key(other) ==> {
                &&& history.order.len() == 256
                &&& history.order[0] == other
                &&& !history.by_pid.contains_key(pid.0)
            }
            &&& history.by_pid.contains_key(pid.0) ==> after.order == history.order
            &&& !history.by_pid.contains_key(pid.0) ==> after.order.last() == pid.0
        }),
{
    if !history.by_pid.contains_key(pid.0) {
        assert(!history.order.to_set().contains(pid.0));
        if history.order.len() == 256 {
            assert(history.order.contains(history.order[0]));
            assert(history.order.to_set().contains(history.order[0]));
        }
    }
}

/// The exit of a process is on record as it was reported last, until it is verified. What is on
/// record of other processes stays, but for the oldest exit of 256.
pub proof fn waiters_remember_the_exits(
    waiters: WaitersView,
    pid: ProcessId,
    exit: ProcessExit,
    other: ProcessId,
)
    requires
        waiters.wf(),
        other != pid,
    ensures
        ({
            let before = waiters.recorded(pid);
            let after = waiters.signalled(pid, exit);
            &&& before is Some && !doubtful(before->0.outcome) ==> after == waiters
            &&& before is None || doubtful(before->0.outcome) ==> after.recorded(pid)
                == Some(exit)
            &&& after.recorded(other) is Some ==> after.recorded(other) == waiters.recorded(other)
            &&& waiters.recorded(other) is Some && after.recorded(other) is None ==> {
                &&& before is None
                &&& waiters.completed.len() == 256
                &&& waiters.completed[0] == other.0
                &&& waiters.expiring(pid) == Some(other)
            }
            &&& waiters.expiring(pid) is Some <==> before is None && waiters.completed.len() == 256
        }),
{
    if waiters.completed.len() == 256 {
        let oldest = waiters.completed[0];
        assert(waiters.completed.contains(oldest));
        assert(waiters.slots[oldest] is Some);
    }
}

/// Output goes to the consumer and to the tail alike. What the queue cannot hold is counted: every
/// byte that came is held, was read or was dropped.
pub proof fn every_byte_is_held_or_counted(
    output: OutputView,
    stream: OutputStream,
    bytes: Seq<u8>,
    i: int,
)
    requires
        output.wf(),
    ensures
        ({
            let after = output.pushed(stream, bytes);
            let came = crate::supervision::output::tagged(output.queue)
                + crate::supervision::output::tagged_bytes(stream, bytes);
            let held = crate::supervision::output::tagged(after.queue);
            let ended = crate::supervision::output::tagged(output.tail)
                + crate::supervision::output::tagged_bytes(stream, bytes);
            let tail = crate::supervision::output::tagged(after.tail);
            &&& came.len() <= output.capacity ==> held == came
            &&& came.len() > output.capacity ==> held.len() == output.capacity
            &&& 0 <= i < held.len() ==> held[held.len() - 1 - i] == came[came.len() - 1 - i]
            &&& ended.len() <= output.tail_capacity ==> tail == ended
            &&& ended.len() > output.tail_capacity ==> tail.len() == output.tail_capacity
            &&& 0 <= i < tail.len() ==> tail[tail.len() - 1 - i] == ended[ended.len() - 1 - i]
            &&& output.dropped + came.len() - held.len() <= u64::MAX ==> after.dropped + held.len()
                == output.dropped + came.len()
            &&& output.dropped + came.len() - held.len() > u64::MAX ==> after.dropped == u64::MAX
            &&& after.capacity == output.capacity
            &&& after.tail_capacity == output.tail_capacity
            &&& after.stdout_closed == output.stdout_closed
            &&& after.stderr_closed == output.stderr_closed
            &&& after.errors == output.errors
        }),
{
    crate::supervision::output::queue_keeps_the_newest_bytes(
        output.queue,
        output.capacity,
        stream,
        bytes,
    );
    crate::supervision::output::queue_keeps_the_newest_bytes(
        output.tail,
        output.tail_capacity,
        stream,
        bytes,
    );
}

/// Output that fits stands in a chunk of its own behind the chunks that were there.
pub proof fn output_that_fits_is_a_chunk_of_its_own(
    chunks: Seq<ChunkView>,
    capacity: nat,
    stream: OutputStream,
    bytes: Seq<u8>,
)
    requires
        crate::supervision::output::tagged(chunks).len() + bytes.len() <= capacity,
    ensures
        bytes.len() > 0 ==> crate::supervision::output::appended(chunks, capacity, stream, bytes)
            == chunks.push(ChunkView { stream, bytes }),
        bytes.len() == 0 ==> crate::supervision::output::appended(chunks, capacity, stream, bytes)
            == chunks,
{
}

/// A stream ends once, with the error of its first end, and leaves the other stream and all that
/// was captured alone.
pub proof fn a_stream_ends_once(
    output: OutputView,
    stream: OutputStream,
    error: Option<String>,
    later: Option<String>,
)
    ensures
        ({
            let after = output.closed(stream, error);
            &&& after.closed(stream, later) == after
            &&& after.stdout_closed <==> output.stdout_closed || stream is Stdout
            &&& after.stderr_closed <==> output.stderr_closed || stream is Stderr
            &&& (stream is Stdout && output.stdout_closed) || (stream is Stderr
                && output.stderr_closed) || error is None ==> after.errors == output.errors
            &&& (stream is Stdout && !output.stdout_closed) || (stream is Stderr
                && !output.stderr_closed) ==> (error is Some ==> after.errors
                == output.errors.push(error->0))
            &&& after.queue == output.queue
            &&& after.tail == output.tail
            &&& after.dropped == output.dropped
            &&& after.capacity == output.capacity
            &&& after.tail_capacity == output.tail_capacity
        }),
{
}

/// Reading empties the queue and nothing else.
pub proof fn reading_empties_the_queue_only(output: OutputView)
    ensures
        output.drained().queue.len() == 0,
        output.drained().tail == output.tail,
        output.drained().dropped == output.dropped,
        output.drained().errors == output.errors,
        output.drained().capacity == output.capacity,
        output.drained().tail_capacity == output.tail_capacity,
        output.drained().stdout_closed == output.stdout_closed,
        output.drained().stderr_closed == output.stderr_closed,
{
}

/// A cleanup is verified if it was reported and none of the reported outcomes is doubtful. A
/// failed one never is.
pub proof fn a_cleanup_is_as_good_as_its_worst_outcome(report: ReportView, error: TerminateError)
    ensures
        CleanupView::Reported(report).verified() <==> forall|i: int|
            0 <= i < report.outcomes.len() ==> !doubtful((#[trigger] report.outcomes[i]).1),
        !CleanupView::Failed(error).verified(),
{
    if forall|i: int|
        0 <= i < report.outcomes.len() ==> !doubtful((#[trigger] report.outcomes[i]).1) {
        assert forall|i: int| 0 <= i < report.outcomes.len() implies crate::domain::exit::verified(
            (#[trigger] report.outcomes[i]).1,
        ) by {}
    }
}

/// Unverified cleanups are counted one by one.
pub proof fn unverified_cleanups_add_up(
    first: Seq<CleanupView>,
    second: Seq<CleanupView>,
    one: CleanupView,
)
    ensures
        crate::supervision::supervisor::shutdown::unverified_count(first + second)
            == crate::supervision::supervisor::shutdown::unverified_count(first)
            + crate::supervision::supervisor::shutdown::unverified_count(second),
        one.verified() ==> crate::supervision::supervisor::shutdown::unverified_count(seq![one])
            == 0,
        !one.verified() ==> crate::supervision::supervisor::shutdown::unverified_count(seq![one])
            == 1,
        crate::supervision::supervisor::shutdown::unverified_count(Seq::empty()) == 0,
    decreases second.len(),
{
    reveal_with_fuel(crate::supervision::supervisor::shutdown::unverified_count, 2);
    assert(seq![one].drop_last() =~= Seq::empty());
    if second.len() == 0 {
        assert(first + second =~= first);
    } else {
        unverified_cleanups_add_up(first, second.drop_last(), one);
        assert((first + second).drop_last() =~= first + second.drop_last());
        assert((first + second).last() == second.last());
    }
}

/// A cleanup that is not verified gives way to the next one that is published.
pub proof fn an_unverified_cleanup_gives_way(slot: Option<CleanupView>, result: CleanupView)
    ensures
        slot is None || !slot->0.verified()
            ==> crate::supervision::supervisor::scoped::published(slot, result) == Some(result),
        slot is Some && slot->0.verified() ==> crate::supervision::supervisor::scoped::published(
            slot,
            result,
        ) == slot,
{
}

/// Outcomes are gathered process by process: a verified one stays, any other one gives way, and
/// no other process is touched. Gathering many is gathering each of them.
pub proof fn gathered_outcomes_only_get_better(
    outcomes: Map<u64, TerminationOutcome>,
    more: Map<u64, TerminationOutcome>,
    pid: u64,
    outcome: TerminationOutcome,
    other: u64,
)
    requires
        other != pid,
    ensures
        ({
            let one = crate::supervision::supervisor::scope_termination::merged(
                outcomes,
                pid,
                outcome,
            );
            &&& one.contains_key(pid)
            &&& outcomes.contains_key(pid) && !doubtful(outcomes[pid]) ==> one[pid]
                == outcomes[pid]
            &&& !outcomes.contains_key(pid) || doubtful(outcomes[pid]) ==> one[pid]
                == outcome
            &&& one.contains_key(other) <==> outcomes.contains_key(other)
            &&& outcomes.contains_key(other) ==> one[other] == outcomes[other]
        }),
        ({
            let all = crate::supervision::supervisor::scope_termination::merged_all(outcomes, more);
            &&& all.contains_key(pid) <==> outcomes.contains_key(pid) || more.contains_key(pid)
            &&& outcomes.contains_key(pid) && (!doubtful(outcomes[pid])
                || !more.contains_key(pid)) ==> all[pid] == outcomes[pid]
            &&& more.contains_key(pid) && (!outcomes.contains_key(pid)
                || doubtful(outcomes[pid])) ==> all[pid] == more[pid]
        }),
{
}

/// The exits that are recorded when a termination begins are gathered, under those gathered before.
pub proof fn recorded_exits_are_gathered(
    outcomes: Map<u64, TerminationOutcome>,
    processes: Map<u64, ProcessView>,
    pid: u64,
)
    ensures
        ({
            let all = crate::supervision::supervisor::scope_termination::captured(
                outcomes,
                processes,
            );
            let ended = processes.contains_key(pid) && processes[pid].exit is Some;
            &&& all.contains_key(pid) <==> outcomes.contains_key(pid) || ended
            &&& outcomes.contains_key(pid) ==> all[pid] == outcomes[pid]
            &&& ended && !outcomes.contains_key(pid) ==> all[pid]
                == processes[pid].exit->0.outcome
        }),
{
}

/// A process that was joined counts with the outcome of its exit, and one whose end could not be
/// told as unverified.
pub proof fn a_joined_process_counts_as_it_ended(exit: ProcessExit, error: TerminateError)
    ensures
        crate::supervision::supervisor::scope_termination::joined_outcome(Ok(exit))
            == exit.outcome,
        crate::supervision::supervisor::scope_termination::joined_outcome(Err(error))
            == TerminationOutcome::CleanupUnverified(UnverifiedReason::ProcessDisappeared),
{
}

/// What is known of a scope without asking: its report if it was released, that nobody owns it, or
/// nothing as long as it is owned.
pub proof fn a_released_scope_answers_with_its_report<O>(
    view: SupervisorView<O>,
    scope: ProcessScopeId,
)
    ensures
        view.reports.contains_key(scope.0) ==> view.scope_known(scope) == Some(
            Ok::<_, TerminateError>(view.reports[scope.0]),
        ),
        !view.reports.contains_key(scope.0) && !view.registry.scopes.contains_key(scope.0)
            ==> view.scope_known(scope) == Some(
            Err::<ReportView, _>(TerminateError::UnknownScope(scope)),
        ),
        view.scope_known(scope) is None <==> !view.reports.contains_key(scope.0)
            && view.registry.scopes.contains_key(scope.0),
{
}

/// Releasing a scope forgets it and keeps its report. The other scopes, their processes and what
/// was gathered for them stay; the oldest of 256 reports goes.
pub proof fn a_release_forgets_one_scope<O>(
    view: SupervisorView<O>,
    scope: ProcessScopeId,
    report: ReportView,
    other: u64,
)
    requires
        view.wf(),
        view.registry.scopes.contains_key(scope.0),
        other != scope.0,
    ensures
        ({
            let after = view.released(scope, report);
            &&& !after.registry.scopes.contains_key(scope.0)
            &&& !after.pending.contains_key(scope.0)
            &&& after.registry.scopes.contains_key(other)
                <==> view.registry.scopes.contains_key(other)
            &&& view.registry.scopes.contains_key(other) ==> after.registry.scopes[other]
                == view.registry.scopes[other]
            &&& after.pending.contains_key(other) <==> view.pending.contains_key(other)
            &&& view.pending.contains_key(other) ==> after.pending[other] == view.pending[other]
            &&& after.registry.next_scope == view.registry.next_scope
            &&& after.registry.next_process == view.registry.next_process
            &&& after.reports.contains_key(scope.0)
            &&& after.reports[scope.0] == report
            &&& after.reports.contains_key(other) ==> view.reports.contains_key(other)
                && after.reports[other] == view.reports[other]
            &&& view.reports.contains_key(other) && !after.reports.contains_key(other) ==> {
                &&& view.completed_scopes.len() == 256
                &&& view.completed_scopes[0] == other
            }
            &&& after.completed_scopes.last() == scope.0
            &&& !view.scoped.contains(scope.0) ==> after.scoped == view.scoped
                && after.completed_scoped == view.completed_scoped
            &&& view.scoped.contains(scope.0) ==> after.completed_scoped.last() == scope.0
                && after.scoped.contains(scope.0)
            &&& view.scoped.contains(other) && !after.scoped.contains(other) ==> {
                &&& view.scoped.contains(scope.0)
                &&& view.completed_scoped.len() == 256
                &&& view.completed_scoped[0] == other
                &&& view.expiring(scope) == Some(ProcessScopeId(other))
            }
            &&& after.outputs == view.outputs
            &&& after.completed == view.completed
            &&& after.samples == view.samples
            &&& after.spawn_times == view.spawn_times
            &&& after.os_pids == view.os_pids
            &&& after.shutting_down == view.shutting_down
            &&& after.owners_dropped == view.owners_dropped
        }),
{
    if view.completed_scopes.len() == 256 {
        assert(view.completed_scopes.contains(view.completed_scopes[0]));
        assert(view.completed_scopes.to_set().contains(view.completed_scopes[0]));
        assert(view.reports.contains_key(view.completed_scopes[0]));
    }
    if view.scoped.contains(scope.0) && view.completed_scoped.len() == 256 {
        assert(view.completed_scoped.contains(view.completed_scoped[0]));
        assert(view.registry.scopes.contains_key(scope.0) != view.completed_scoped.contains(
            scope.0,
        ));
        assert(view.completed_scoped[0] != scope.0);
    }
}

/// A scope under termination drains, keeps its processes and hands its recorded exits over; nothing
/// else of the supervisor changes.
pub proof fn draining_a_scope_changes_only_that<O>(
    view: SupervisorView<O>,
    scope: ProcessScopeId,
    other: u64,
    pid: u64,
)
    requires
        view.registry.scopes.contains_key(scope.0),
        other != scope.0,
    ensures
        ({
            let after = view.drained(scope);
            let ended = view.registry.scopes[scope.0].processes.contains_key(pid)
                && view.registry.scopes[scope.0].processes[pid].exit is Some;
            &&& after.registry.scopes[scope.0] == view.registry.scopes[scope.0].draining()
            &&& after.registry.scopes.contains_key(other)
                <==> view.registry.scopes.contains_key(other)
            &&& view.registry.scopes.contains_key(other) ==> after.registry.scopes[other]
                == view.registry.scopes[other]
            &&& after.gathered(scope).contains_key(pid) <==> view.gathered(scope).contains_key(pid)
                || ended
            &&& ended && !view.gathered(scope).contains_key(pid) ==> after.gathered(scope)[pid]
                == view.registry.scopes[scope.0].processes[pid].exit->0.outcome
            &&& view.gathered(scope).contains_key(pid) ==> after.gathered(scope)[pid]
                == view.gathered(scope)[pid]
            &&& after.gathered(ProcessScopeId(other)) == view.gathered(ProcessScopeId(other))
            &&& after.reports == view.reports
            &&& after.outputs == view.outputs
            &&& after.samples == view.samples
            &&& after.scoped == view.scoped
        }),
{
}

/// The end of a process is gathered for its scope while that is owned, and for no other one.
pub proof fn ends_are_gathered_for_their_scope<O>(
    view: SupervisorView<O>,
    scope: ProcessScopeId,
    pid: ProcessId,
    outcome: TerminationOutcome,
    outcomes: Map<u64, TerminationOutcome>,
    other: ProcessScopeId,
)
    requires
        other != scope,
    ensures
        ({
            let after = view.joined(scope, pid, outcome);
            &&& !view.registry.scopes.contains_key(scope.0) ==> after == view
            &&& view.registry.scopes.contains_key(scope.0) ==> {
                &&& after.gathered(scope).contains_key(pid.0)
                &&& view.gathered(scope).contains_key(pid.0) && !doubtful(
                    view.gathered(scope)[pid.0],
                ) ==> after.gathered(scope)[pid.0]
                    == view.gathered(scope)[pid.0]
                &&& !view.gathered(scope).contains_key(pid.0)
                    || doubtful(view.gathered(scope)[pid.0]) ==> after.gathered(
                    scope,
                )[pid.0] == outcome
            }
            &&& after.gathered(other) == view.gathered(other)
            &&& after.registry == view.registry
            &&& after.reports == view.reports
        }),
        view.outcome_recorded(scope, pid, outcome).gathered(scope) == view.gathered(scope).insert(
            pid.0,
            outcome,
        ),
        view.outcome_recorded(scope, pid, outcome).gathered(other) == view.gathered(other),
        view.outcome_recorded(scope, pid, outcome).registry == view.registry,
        view.settled(scope, outcomes).gathered(other) == view.gathered(other),
        view.settled(scope, outcomes).registry == view.registry,
        outcomes.contains_key(pid.0) && !view.gathered(scope).contains_key(pid.0)
            ==> view.settled(scope, outcomes).gathered(scope)[pid.0] == outcomes[pid.0],
        view.gathered(scope).contains_key(pid.0) && !doubtful(
            view.gathered(scope)[pid.0],
        ) ==> view.settled(
            scope,
            outcomes,
        ).gathered(scope)[pid.0] == view.gathered(scope)[pid.0],
{
}

/// A capture stays unclaimed until it is taken, given back or the oldest of 256 that ended.
pub proof fn captures_are_kept_for_their_process<O>(
    view: SupervisorView<O>,
    pid: ProcessId,
    output: O,
    other: u64,
)
    requires
        view.captures_wf(),
        other != pid.0,
    ensures
        ({
            let kept = view.output_retained(pid);
            let taken = view.output_taken(pid);
            let back = taken.output_returned(pid, output);
            &&& kept.outputs.contains_key(pid.0) <==> view.outputs.contains_key(pid.0)
            &&& view.outputs.contains_key(pid.0) ==> kept.outputs[pid.0] == view.outputs[pid.0]
                && kept.completed.contains(pid.0)
            &&& kept.outputs.contains_key(other) ==> view.outputs.contains_key(other)
                && kept.outputs[other] == view.outputs[other]
            &&& view.outputs.contains_key(other) && !kept.outputs.contains_key(other) ==> {
                &&& view.completed.len() == 256
                &&& view.completed[0] == other
            }
            &&& kept.registry == view.registry && taken.registry == view.registry
            &&& !taken.outputs.contains_key(pid.0)
            &&& !taken.completed.contains(pid.0)
            &&& taken.outputs.contains_key(other) <==> view.outputs.contains_key(other)
            &&& view.outputs.contains_key(other) ==> taken.outputs[other] == view.outputs[other]
            &&& back.outputs.contains_key(pid.0)
            &&& back.outputs[pid.0] == output
            &&& !back.ended(pid) ==> !back.completed.contains(pid.0)
        }),
{
    let kept = view.output_retained(pid);
    let taken = view.output_taken(pid);
    if view.completed.len() == 256 {
        assert(view.completed.contains(view.completed[0]));
    }
    if view.outputs.contains_key(pid.0) && !view.completed.contains(pid.0) {
        let last = kept.completed.len() - 1;
        assert(kept.completed[last] == pid.0);
    }
    crate::supervision::history::lemma_forget(view.completed, pid.0);
    assert(!taken.completed.contains(pid.0)) by {
        assert(!taken.completed.to_set().contains(pid.0));
    }
    let back = taken.output_returned(pid, output);
    assert(taken.owned(pid) == view.owned(pid)) by {
        assert(taken.registry == view.registry);
    }
    if taken.ended(pid) && taken.completed.len() == 256 {
        assert(taken.completed.contains(taken.completed[0]));
        assert(taken.completed[0] != pid.0);
    }
}

/// Spawning is refused in a scope that is released, unknown or not open, and while the supervisor
/// shuts down; it is admitted otherwise.
pub proof fn spawning_needs_an_open_scope<O>(
    view: SupervisorView<O>,
    scope: ProcessScopeId,
    finished: bool,
)
    ensures
        view.spawn_admission(scope, finished) is Ok <==> {
            &&& !finished
            &&& !view.shutting_down
            &&& !view.reports.contains_key(scope.0)
            &&& view.registry.scopes.contains_key(scope.0)
            &&& view.registry.scopes[scope.0].state is Open
        },
        view.spawn_admission(scope, finished) is Err ==> (view.spawn_admission(scope, finished)
            == Err::<(), _>(SpawnError::UnknownScope(scope)) <==> {
            &&& !finished
            &&& !view.shutting_down
            &&& !view.reports.contains_key(scope.0)
            &&& !view.registry.scopes.contains_key(scope.0)
        }),
        view.spawn_admission(scope, finished) is Err ==> view.spawn_admission(scope, finished)
            == Err::<(), _>(SpawnError::UnknownScope(scope)) || view.spawn_admission(
            scope,
            finished,
        ) == Err::<(), _>(SpawnError::ScopeClosed(scope)),
        view.spawn_request(scope) is Ok <==> view.registry.scopes.contains_key(scope.0),
        !view.registry.scopes.contains_key(scope.0) && view.reports.contains_key(scope.0)
            ==> view.spawn_request(scope) == Err::<(), _>(SpawnError::ScopeClosed(scope)),
        !view.registry.scopes.contains_key(scope.0) && !view.reports.contains_key(scope.0)
            ==> view.spawn_request(scope) == Err::<(), _>(SpawnError::UnknownScope(scope)),
{
}

/// A started process cannot be attached once its scope is gone or no longer open, or once nobody is
/// left to own it; only then everything is swept.
pub proof fn a_started_process_needs_its_scope<O>(view: SupervisorView<O>, scope: ProcessScopeId)
    ensures
        view.orphaned(scope) is None <==> {
            &&& !view.owners_dropped
            &&& view.registry.scopes.contains_key(scope.0)
            &&& view.registry.scopes[scope.0].state is Open
        },
        view.orphaned(scope) is Some ==> (view.orphaned(scope)->0.sweep <==> view.owners_dropped),
        view.orphaned(scope) is Some ==> (view.orphaned(scope)->0.error
            == SpawnError::UnknownScope(scope) <==> !view.owners_dropped
            && !view.registry.scopes.contains_key(scope.0)),
        view.orphaned(scope) is Some ==> view.orphaned(scope)->0.error == SpawnError::UnknownScope(
            scope,
        ) || view.orphaned(scope)->0.error == SpawnError::ScopeClosed(scope),
{
}

/// An attached process runs in its scope under the next identifier, with its start on record; no
/// other process and no other scope changes.
pub proof fn attaching_adds_one_process<O>(
    view: SupervisorView<O>,
    scope: ProcessScopeId,
    pid: ProcessId,
    spec: ProcessSpec,
    os: OsIdentity,
    now: Instant,
    output: Option<O>,
    other: u64,
)
    requires
        view.wf(),
        view.registry.scopes.contains_key(scope.0),
        view.registry.next_process < u64::MAX,
        pid.0 == view.registry.next_process + 1,
        other != pid.0,
    ensures
        ({
            let after = view.attached(scope, pid, spec, os, now, output);
            let there = after.registry.scopes[scope.0];
            &&& after.registry.next_process == pid.0
            &&& after.registry.next_scope == view.registry.next_scope
            &&& there.processes.contains_key(pid.0)
            &&& there.processes[pid.0].os == os
            &&& there.processes[pid.0].spec == spec
            &&& there.processes[pid.0].state is Running
            &&& there.processes[pid.0].exit is None
            &&& there.state == view.registry.scopes[scope.0].state
            &&& there.id == view.registry.scopes[scope.0].id
            &&& there.processes.contains_key(other)
                <==> view.registry.scopes[scope.0].processes.contains_key(other)
            &&& there.processes.contains_key(other) ==> there.processes[other]
                == view.registry.scopes[scope.0].processes[other]
            &&& after.registry.scopes.remove(scope.0) == view.registry.scopes.remove(scope.0)
            &&& after.spawn_times.contains_key(pid.0) && after.spawn_times[pid.0] == now
            &&& after.spawn_times.remove(pid.0) == view.spawn_times.remove(pid.0)
            &&& after.os_pids.by_pid.contains_key(pid.0) && after.os_pids.by_pid[pid.0] == os.pid
            &&& output is Some ==> after.outputs.contains_key(pid.0) && after.outputs[pid.0]
                == output->0
            &&& output is None ==> after.outputs == view.outputs
            &&& after.outputs.remove(pid.0) == view.outputs.remove(pid.0)
            &&& after.reports == view.reports
            &&& after.pending == view.pending
            &&& after.samples == view.samples
            &&& after.shutting_down == view.shutting_down
        }),
{
    let after = view.attached(scope, pid, spec, os, now, output);
    assert(after.registry.scopes.remove(scope.0) =~= view.registry.scopes.remove(scope.0));
    assert(after.spawn_times.remove(pid.0) =~= view.spawn_times.remove(pid.0));
    assert(after.outputs.remove(pid.0) =~= view.outputs.remove(pid.0));
    attached_pids_are_remembered(view.os_pids, pid, os.pid, other);
}

/// Uptime leads from the attachment to now; it is zero where the attachment is unknown or lies
/// ahead.
pub proof fn uptime_leads_from_the_attachment<O>(view: SupervisorView<O>, pid: ProcessId, now: Instant)
    ensures
        view.spawn_times.contains_key(pid.0) && view.spawn_times[pid.0].nanos <= now.nanos
            ==> view.spawn_times[pid.0].nanos + view.uptime(pid, now).nanos == now.nanos,
        !view.spawn_times.contains_key(pid.0) || view.spawn_times[pid.0].nanos > now.nanos
            ==> view.uptime(pid, now).nanos == 0,
{
}

/// An observation is filed under its process, with every figure as the backend told it; a failed
/// one is filed as a failure.
pub proof fn observations_are_filed_as_they_were<O>(
    view: SupervisorView<O>,
    pid: ProcessId,
    observed: SampleResult,
    now: Instant,
    sample: Result<ProcessStats, StatsError>,
)
    requires
        view.sample_of(pid, observed, now, sample),
    ensures
        observed !is Aborted,
        observed is Panicked || observed is TimedOut ==> sample is Err,
        observed is Observed ==> (sample is Ok <==> observed->Observed_0 is Ok),
        sample is Err && observed is Observed ==> sample->Err_0 == observed->Observed_0->Err_0,
        sample is Ok ==> {
            let told = sample->Ok_0;
            let raw = observed->Observed_0->Ok_0;
            &&& told.pid == pid
            &&& told.cpu_usage == raw.cpu_usage
            &&& told.memory_rss_bytes == raw.memory_rss_bytes
            &&& told.virtual_memory_bytes == raw.virtual_memory_bytes
            &&& told.peak_rss_bytes == raw.peak_rss_bytes
            &&& told.io_read_bytes == raw.io_read_bytes
            &&& told.io_write_bytes == raw.io_write_bytes
            &&& told.descendant_count == raw.descendant_count
            &&& told.state == raw.state
            &&& view.spawn_times.contains_key(pid.0) && view.spawn_times[pid.0].nanos <= now.nanos
                ==> view.spawn_times[pid.0].nanos + told.uptime.nanos == now.nanos
        },
{
}

/// The processes that are sampled are those that some scope owns and that have not ended.
pub proof fn live_processes_are_sampled<O>(view: SupervisorView<O>, scope: u64, pid: u64)
    requires
        view.wf(),
        view.registry.owns(scope, pid),
    ensures
        view.live().contains(pid) <==> {
            let state = view.registry.scopes[scope].processes[pid].state;
            state is Spawning || state is Running || state is GracefulRequested || state is Forcing
        },
{
    assert(view.registry.owns(view.owner(ProcessId(pid)), pid));
    assert(view.owner(ProcessId(pid)) == scope);
    assert(view.owned(ProcessId(pid)));
}

/// Whoever asks for an owned process is told what its scope holds of it.
pub proof fn owned_processes_are_told_from_their_scope<O>(
    view: SupervisorView<O>,
    scope: u64,
    pid: ProcessId,
    recorded: ProcessExit,
)
    requires
        view.wf(),
        view.registry.owns(scope, pid.0),
    ensures
        ({
            let process = view.registry.scopes[scope].processes[pid.0];
            let live = process.state is Spawning || process.state is Running
                || process.state is GracefulRequested || process.state is Forcing;
            &&& view.told_os_pid(pid) == Some(process.os.pid)
            &&& !live ==> view.told_stats(pid) == Err::<ProcessStats, _>(
                StatsError::UnknownProcess(pid),
            )
            &&& live && view.samples.contains_key(pid.0) ==> view.told_stats(pid)
                == view.samples[pid.0]
            &&& live && !view.samples.contains_key(pid.0) ==> view.told_stats(pid) == Err::<
                ProcessStats,
                _,
            >(StatsError::NotReady(pid))
            &&& process.exit is Some ==> view.told_exit(pid, None) == Some(
                Ok::<_, WaitError>(process.exit->0),
            )
            &&& process.exit is None ==> view.told_exit(pid, None) is None
            &&& view.told_exit(pid, Some(recorded)) == Some(Ok::<_, WaitError>(recorded))
        }),
{
    assert(view.registry.owns(view.owner(pid), pid.0));
    assert(view.owner(pid) == scope);
    assert(view.owned(pid));
}

/// Of a process that nobody owns only what is on record is told.
pub proof fn forgotten_processes_are_told_from_the_record<O>(
    view: SupervisorView<O>,
    pid: ProcessId,
    recorded: ProcessExit,
)
    requires
        forall|scope: u64| !#[trigger] view.registry.owns(scope, pid.0),
    ensures
        view.told_os_pid(pid) is Some <==> view.os_pids.by_pid.contains_key(pid.0),
        view.os_pids.by_pid.contains_key(pid.0) ==> view.told_os_pid(pid) == Some(
            view.os_pids.by_pid[pid.0],
        ),
        view.told_stats(pid) == Err::<ProcessStats, _>(StatsError::UnknownProcess(pid)),
        view.told_exit(pid, None) == Some(Err::<ProcessExit, _>(WaitError::UnknownProcess(pid))),
        view.told_exit(pid, Some(recorded)) == Some(Ok::<_, WaitError>(recorded)),
{
    assert(!view.owned(pid));
}

/// A retry starts with the graceful signal of its process and waits for the whole grace period.
pub proof fn a_retry_starts_gracefully(target: TerminationTarget, options: TerminateOptions)
    ensures
        ({
            let action = Retry::first_action(target, options);
            &&& action is Signal
            &&& action->signal == target.graceful
            &&& action->observe
            &&& action->limit is Some
            &&& action->limit->0 == options.grace.0
        }),
{
}

/// Processes are sampled scope by scope and within a scope one by one, the earlier ones first.
pub proof fn earlier_processes_are_sampled_first<O>(
    view: SupervisorView<O>,
    targets: Seq<SampleTarget>,
    i: int,
    j: int,
    one: u64,
    other: u64,
)
    requires
        view.wf(),
        view.in_order(targets),
        0 <= i < targets.len(),
        0 <= j < targets.len(),
        view.registry.owns(one, targets[i].pid.0),
        view.registry.owns(other, targets[j].pid.0),
    ensures
        one < other ==> i < j,
        one == other && targets[i].pid.0 < targets[j].pid.0 ==> i < j,
        i < j ==> one <= other,
        i < j && one == other ==> targets[i].pid.0 < targets[j].pid.0,
{
    assert(view.owner(targets[i].pid) == one) by {
        assert(view.registry.owns(view.owner(targets[i].pid), targets[i].pid.0));
    }
    assert(view.owner(targets[j].pid) == other) by {
        assert(view.registry.owns(view.owner(targets[j].pid), targets[j].pid.0));
    }
    if i < j {
        assert(view.samples_before(targets[i], targets[j]));
    } else if j < i {
        assert(view.samples_before(targets[j], targets[i]));
    }
}

/// The targets of a termination are the processes of its scope: each one once, in ascending order,
/// with the exit that is recorded of it.
pub proof fn a_termination_aims_at_every_process(
    targets: Seq<ScopeTarget>,
    processes: Map<u64, ProcessView>,
    pid: u64,
    i: int,
    j: int,
)
    requires
        crate::supervision::supervisor::scope_termination::targets_of(targets, processes),
    ensures
        processes.contains_key(pid) ==> exists|k: int|
            0 <= k < targets.len() && (#[trigger] targets[k]).pid.0 == pid && targets[k].exit
                == processes[pid].exit,
        0 <= i < targets.len() ==> processes.contains_key(targets[i].pid.0) && targets[i].exit
            == processes[targets[i].pid.0].exit,
        0 <= i < j < targets.len() ==> targets[i].pid.0 < targets[j].pid.0,
{
    let pids = Seq::new(targets.len(), |k: int| targets[k].pid.0);
    if processes.contains_key(pid) {
        assert(pids.contains(pid));
        let k = pids.index_of(pid);
        assert(targets[k].pid.0 == pid);
    }
    if 0 <= i < targets.len() {
        assert(pids[i] == targets[i].pid.0);
        assert(pids.contains(pids[i]));
    }
    if 0 <= i < j < targets.len() {
        assert(pids[i] < pids[j]);
    }
}

/// A report names each process that outcomes were gathered for once, in ascending order, with its
/// outcome.
pub proof fn a_report_names_every_outcome(
    report: ReportView,
    outcomes: Map<u64, TerminationOutcome>,
    pid: u64,
    i: int,
    j: int,
)
    requires
        report.reports(outcomes),
    ensures
        outcomes.contains_key(pid) ==> exists|k: int|
            0 <= k < report.outcomes.len() && (#[trigger] report.outcomes[k]).0.0 == pid
                && report.outcomes[k].1 == outcomes[pid],
        0 <= i < report.outcomes.len() ==> outcomes.contains_key(report.outcomes[i].0.0)
            && report.outcomes[i].1 == outcomes[report.outcomes[i].0.0],
        0 <= i < j < report.outcomes.len() ==> report.outcomes[i].0.0 < report.outcomes[j].0.0,
{
    let pids = Seq::new(report.outcomes.len(), |k: int| report.outcomes[k].0.0);
    if outcomes.contains_key(pid) {
        assert(pids.contains(pid));
        let k = pids.index_of(pid);
        assert(report.outcomes[k].0.0 == pid);
    }
    if 0 <= i < report.outcomes.len() {
        assert(pids[i] == report.outcomes[i].0.0);
        assert(pids.contains(pids[i]));
    }
    if 0 <= i < j < report.outcomes.len() {
        assert(pids[i] < pids[j]);
    }
}

/// Labels tell what they are of, by kind and number.
pub proof fn labels_can_be_read_back(scope: ProcessScopeId, pid: ProcessId)
    ensures
        ({
            let one = crate::domain::ids::scope_label(scope);
            let other = crate::domain::ids::process_label(pid);
            &&& crate::platform::text::after_prefix(one, "scope#"@) is Some
            &&& crate::platform::text::number(
                crate::platform::text::after_prefix(one, "scope#"@)->0,
            ) == Some(scope.0)
            &&& crate::platform::text::after_prefix(other, "proc#"@) is Some
            &&& crate::platform::text::number(
                crate::platform::text::after_prefix(other, "proc#"@)->0,
            ) == Some(pid.0)
        }),
{
    let one = crate::domain::text::decimal(scope.0 as nat);
    let other = crate::domain::text::decimal(pid.0 as nat);
    crate::platform::reading::a_prefix_comes_off("scope#"@, one, one);
    crate::platform::reading::a_prefix_comes_off("proc#"@, other, other);
    crate::platform::reading::written_numbers_are_read_back(scope.0 as nat);
    crate::platform::reading::written_numbers_are_read_back(pid.0 as nat);
}

} // verus!
