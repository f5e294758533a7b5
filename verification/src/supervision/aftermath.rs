//! What stays of terminations and shutdowns over the lifetime of a supervisor.
use vstd::prelude::*;
use crate::domain::exit::TerminationOutcome;
use crate::domain::ids::{ProcessId, ProcessScopeId};
use crate::domain::time::Duration;
use crate::supervision::error::{SpawnError, TerminateError};
use crate::supervision::laws::Step;
use crate::supervision::report::{CleanupView, ReportView};
use crate::supervision::supervisor::SupervisorView;

verus! {

/// A beginning of a possible lifetime is possible.
proof fn lemma_beginning<O>(stats_interval: Duration, steps: Seq<Step<O>>, at: int)
    requires
        crate::supervision::lifetime::possible(stats_interval, steps),
        0 <= at <= steps.len(),
    ensures
        crate::supervision::lifetime::possible(stats_interval, steps.take(at)),
        crate::supervision::lifetime::lived(stats_interval, steps.take(at)).sound(),
        at < steps.len() ==> {
            &&& crate::supervision::lifetime::lived(stats_interval, steps.take(at)).admits(
                steps[at],
            )
            &&& crate::supervision::lifetime::lived(stats_interval, steps.take(at + 1))
                == crate::supervision::lifetime::lived(stats_interval, steps.take(at)).after(
                steps[at],
            )
        },
    decreases steps.len(),
{
    if at < steps.len() {
        let rest = steps.drop_last();
        if at < rest.len() {
            lemma_beginning(stats_interval, rest, at);
            assert(rest.take(at) =~= steps.take(at));
            assert(rest.take(at + 1) =~= steps.take(at + 1));
        } else {
            assert(steps.take(at) =~= rest);
            assert(steps.take(at + 1) =~= steps);
            crate::supervision::lifetime::every_lifetime_is_sound(stats_interval, rest);
        }
    } else {
        assert(steps.take(at) =~= steps);
        crate::supervision::lifetime::every_lifetime_is_sound(stats_interval, steps);
    }
}

/// A scope that is gone stays gone: no later scope gets its identifier.
proof fn lemma_stays_gone<O>(stats_interval: Duration, steps: Seq<Step<O>>, at: int, scope: u64)
    requires
        crate::supervision::lifetime::possible(stats_interval, steps),
        0 <= at <= steps.len(),
        ({
            let view = crate::supervision::lifetime::lived(stats_interval, steps.take(at)).view;
            !view.registry.scopes.contains_key(scope) && scope <= view.registry.next_scope
        }),
    ensures
        ({
            let view = crate::supervision::lifetime::lived(stats_interval, steps).view;
            !view.registry.scopes.contains_key(scope) && scope <= view.registry.next_scope
        }),
    decreases steps.len() - at,
{
    lemma_beginning(stats_interval, steps, at);
    if at < steps.len() {
        let view = crate::supervision::lifetime::lived(stats_interval, steps.take(at)).view;
        match steps[at] {
            Step::Request { pid: asked } => {
                assert(view.registry.owns(view.owner(asked), asked.0));
            },
            _ => {},
        }
        lemma_stays_gone(stats_interval, steps, at + 1, scope);
    } else {
        assert(steps.take(at) =~= steps);
    }
}

/// The scope identifier that the step at `at` gives out, if it creates a scope.
pub open spec fn created<O>(stats_interval: Duration, steps: Seq<Step<O>>, at: int) -> int {
    crate::supervision::lifetime::lived(stats_interval, steps.take(at)).view.registry.next_scope + 1
}

/// No step takes a scope identifier back.
proof fn lemma_scope_ids_grow<O>(
    stats_interval: Duration,
    steps: Seq<Step<O>>,
    first: int,
    second: int,
)
    requires
        crate::supervision::lifetime::possible(stats_interval, steps),
        0 <= first <= second <= steps.len(),
    ensures
        created(stats_interval, steps, first) <= created(stats_interval, steps, second),
    decreases second - first,
{
    if first < second {
        lemma_beginning(stats_interval, steps, first);
        lemma_scope_ids_grow(stats_interval, steps, first + 1, second);
    }
}

/// The identifier of a new scope differs from that of every scope before, whether that one is still
/// there or not.
pub proof fn scope_identifiers_are_never_given_out_twice<O>(
    stats_interval: Duration,
    steps: Seq<Step<O>>,
    earlier: int,
    later: int,
)
    requires
        crate::supervision::lifetime::possible(stats_interval, steps),
        0 <= earlier < later < steps.len(),
        steps[earlier] is Create,
        steps[later] is Create,
    ensures
        created(stats_interval, steps, earlier) < created(stats_interval, steps, later),
{
    lemma_beginning(stats_interval, steps, earlier);
    lemma_scope_ids_grow(stats_interval, steps, earlier + 1, later);
}

/// How many of the steps release a scope.
pub open spec fn releases<O>(steps: Seq<Step<O>>) -> nat
    decreases steps.len(),
{
    if steps.len() == 0 {
        0
    } else {
        releases(steps.drop_last()) + (if steps.last() is Release {
            1nat
        } else {
            0nat
        })
    }
}

/// `scope` is the one released before the last `since` ones, and the history holds its report
/// exactly while it is long enough.
spec fn retained<O>(
    view: SupervisorView<O>,
    scope: u64,
    report: ReportView,
    since: nat,
) -> bool {
    let bound = crate::supervision::history::HISTORY_BOUND;
    let order = view.completed_scopes;
    &&& !view.registry.scopes.contains_key(scope)
    &&& scope <= view.registry.next_scope
    &&& since < bound ==> {
        &&& since < order.len()
        &&& order[order.len() - 1 - since] == scope
        &&& view.reports.contains_key(scope)
        &&& view.reports[scope] == report
    }
    &&& since >= bound ==> !view.reports.contains_key(scope)
}

/// A step that releases no scope changes nothing about the reports.
proof fn lemma_reports_stand<O>(view: SupervisorView<O>, step: Step<O>)
    requires
        step !is Release,
    ensures
        step.applied(view).reports == view.reports,
        step.applied(view).completed_scopes == view.completed_scopes,
{
}

/// What one more release makes of a retained report.
proof fn lemma_one_more_release<O>(
    view: SupervisorView<O>,
    step: Step<O>,
    scope: u64,
    report: ReportView,
    since: nat,
)
    requires
        view.wf(),
        step is Release,
        step.enabled(view),
        retained(view, scope, report, since),
    ensures
        retained(step.applied(view), scope, report, since + 1),
{
    let bound = crate::supervision::history::HISTORY_BOUND;
    let order = view.completed_scopes;
    let other = step->Release_scope.0;
    let after = step.applied(view);
    assert(other != scope);
    let grown = order.push(other);
    assert(forall|i: int| 0 <= i < order.len() ==> grown[i] == order[i]);
    if order.len() == bound {
        assert(after.completed_scopes =~= order.skip(1).push(other));
        assert(order.contains(order[0]));
        assert(order.to_set().contains(order[0]));
    } else {
        assert(after.completed_scopes =~= grown);
    }
    if since < bound {
        let at = order.len() - 1 - since;
        if since + 1 < bound {
            if order.len() == bound {
                assert(at >= 1);
                assert(order[at] != order[0]);
                assert(order.skip(1)[at - 1] == order[at]);
            }
        } else {
            assert(order.len() == bound && at == 0);
        }
    }
}

/// What is retained of a released scope after further steps.
proof fn lemma_retained<O>(stats_interval: Duration, steps: Seq<Step<O>>, at: int)
    requires
        crate::supervision::lifetime::possible(stats_interval, steps),
        0 <= at < steps.len(),
        steps[at] is Release,
    ensures
        retained(
            crate::supervision::lifetime::lived(stats_interval, steps).view,
            steps[at]->Release_scope.0,
            steps[at]->report,
            releases(steps.skip(at + 1)),
        ),
    decreases steps.len(),
{
    let scope = steps[at]->Release_scope;
    let report = steps[at]->report;
    let bound = crate::supervision::history::HISTORY_BOUND;
    if at == steps.len() - 1 {
        lemma_beginning(stats_interval, steps, at);
        assert(steps.take(at + 1) =~= steps);
        let view = crate::supervision::lifetime::lived(stats_interval, steps.take(at)).view;
        let order = view.completed_scopes;
        let after = view.released(scope, report);
        assert(releases(steps.skip(at + 1)) == 0);
        if order.len() == bound {
            assert(after.completed_scopes =~= order.skip(1).push(scope.0));
            assert(order.contains(order[0]));
            assert(order.to_set().contains(order[0]));
        } else {
            assert(after.completed_scopes =~= order.push(scope.0));
        }
    } else {
        let last = steps.len() - 1;
        let rest = steps.drop_last();
        assert(rest[at] == steps[at]);
        lemma_retained(stats_interval, rest, at);
        lemma_beginning(stats_interval, steps, last);
        assert(steps.take(last) =~= rest);
        assert(steps.take(last + 1) =~= steps);
        let view = crate::supervision::lifetime::lived(stats_interval, rest).view;
        let since = releases(rest.skip(at + 1));
        assert(steps.skip(at + 1).drop_last() =~= rest.skip(at + 1));
        assert(steps.skip(at + 1).last() == steps[last]);
        if steps[last] is Release {
            lemma_one_more_release(view, steps[last], scope.0, report, since);
        } else {
            lemma_reports_stand(view, steps[last]);
            if let Step::Request { pid: asked } = steps[last] {
                assert(view.registry.owns(view.owner(asked), asked.0));
            }
        }
    }
}

/// A released scope is answered for by its report until as many further scopes were released as
/// the history retains: until then terminating it again answers with that report and does
/// nothing, and spawning in it is refused as in a closed scope. It is never owned again.
pub proof fn report_answers_while_the_history_retains_it<O>(
    stats_interval: Duration,
    steps: Seq<Step<O>>,
    at: int,
    finished: bool,
)
    requires
        crate::supervision::lifetime::possible(stats_interval, steps),
        0 <= at < steps.len(),
        steps[at] is Release,
    ensures
        ({
            let view = crate::supervision::lifetime::lived(stats_interval, steps).view;
            let scope = steps[at]->Release_scope;
            &&& !view.registry.scopes.contains_key(scope.0)
            &&& if releases(steps.skip(at + 1)) < crate::supervision::history::HISTORY_BOUND {
                &&& view.scope_known(scope) == Some(Ok::<_, TerminateError>(steps[at]->report))
                &&& view.spawn_request(scope) == Err::<(), _>(SpawnError::ScopeClosed(scope))
                &&& view.spawn_admission(scope, finished) == Err::<(), _>(
                    SpawnError::ScopeClosed(scope),
                )
            } else {
                view.scope_known(scope) == Some(
                    Err::<ReportView, _>(TerminateError::UnknownScope(scope)),
                )
            }
        }),
{
    lemma_retained(stats_interval, steps, at);
}

/// A process of a scope under termination is owned still, or its outcome is gathered.
spec fn covered<O>(view: SupervisorView<O>, scope: u64, pid: u64) -> bool {
    view.registry.owns(scope, pid) || view.gathered(ProcessScopeId(scope)).contains_key(pid)
}

/// A process stays covered until its scope is released.
proof fn lemma_stays_covered<O>(
    stats_interval: Duration,
    steps: Seq<Step<O>>,
    at: int,
    scope: u64,
    pid: u64,
)
    requires
        crate::supervision::lifetime::possible(stats_interval, steps),
        0 <= at <= steps.len(),
        crate::supervision::lifetime::lived(
            stats_interval,
            steps.take(at),
        ).waiting.contains_key(scope),
        covered(
            crate::supervision::lifetime::lived(stats_interval, steps.take(at)).view,
            scope,
            pid,
        ),
        crate::supervision::lifetime::lived(
            stats_interval,
            steps,
        ).view.registry.scopes.contains_key(scope),
    ensures
        crate::supervision::lifetime::lived(stats_interval, steps).waiting.contains_key(scope),
        covered(crate::supervision::lifetime::lived(stats_interval, steps).view, scope, pid),
    decreases steps.len() - at,
{
    lemma_beginning(stats_interval, steps, at);
    if at < steps.len() {
        let before = crate::supervision::lifetime::lived(stats_interval, steps.take(at));
        let step = steps[at];
        match step {
            Step::Request { pid: asked } => {
                assert(before.view.registry.owns(before.view.owner(asked), asked.0));
            },
            Step::Release { scope: released, .. } => {
                if released.0 == scope {
                    lemma_stays_gone(stats_interval, steps, at + 1, scope);
                }
            },
            _ => {},
        }
        if step.concerns(before.view) != Some(scope) {
            crate::supervision::laws::steps_leave_other_scopes_alone(before.view, step, scope);
        }
        lemma_stays_covered(stats_interval, steps, at + 1, scope, pid);
    } else {
        assert(steps.take(at) =~= steps);
    }
}

/// The report that a scope is released with is its own, names each process once and in ascending
/// order, and confirms the end of every process that the scope owned when its termination began.
pub proof fn report_covers_what_the_scope_owned<O>(
    stats_interval: Duration,
    steps: Seq<Step<O>>,
    began: int,
    at: int,
    pid: u64,
)
    requires
        crate::supervision::lifetime::possible(stats_interval, steps),
        0 <= began < at < steps.len(),
        steps[began] is Drain,
        steps[at] is Release,
        steps[began]->Drain_scope == steps[at]->Release_scope,
        crate::supervision::lifetime::lived(
            stats_interval,
            steps.take(began),
        ).view.registry.owns(steps[at]->Release_scope.0, pid),
    ensures
        steps[at]->report.scope == steps[at]->Release_scope,
        steps[at]->report.verified(),
        forall|i: int, j: int|
            0 <= i < j < steps[at]->report.outcomes.len() ==> (
            #[trigger] steps[at]->report.outcomes[i]).0.0 < (
            #[trigger] steps[at]->report.outcomes[j]).0.0,
        crate::supervision::laws::confirmed_by(steps[at]->report, pid),
{
    let scope = steps[at]->Release_scope;
    let report = steps[at]->report;
    let until = steps.take(at);
    lemma_beginning(stats_interval, steps, began);
    lemma_beginning(stats_interval, steps, at);
    assert(until.take(began) =~= steps.take(began));
    assert(until.take(began + 1) =~= steps.take(began + 1));
    let drained = crate::supervision::lifetime::lived(stats_interval, steps.take(began + 1));
    assert(drained.view.registry.owns(scope.0, pid));
    lemma_stays_covered(stats_interval, until, began + 1, scope.0, pid);
    let before = crate::supervision::lifetime::lived(stats_interval, until);
    assert(before.view.accounted(scope, Set::empty()));
    assert(before.view.gathered(scope).contains_key(pid));
    crate::supervision::laws::lemma_report_confirms(report, before.view.pending[scope.0], pid);
    let pids = Seq::new(report.outcomes.len(), |i: int| report.outcomes[i].0.0);
    assert forall|i: int, j: int| 0 <= i < j < report.outcomes.len() implies (
    #[trigger] report.outcomes[i]).0.0 < (#[trigger] report.outcomes[j]).0.0 by {
        assert(pids[i] < pids[j]);
    }
}

/// A report names `pid` with `outcome`.
pub open spec fn names(report: ReportView, pid: u64, outcome: TerminationOutcome) -> bool {
    exists|i: int|
        0 <= i < report.outcomes.len() && #[trigger] report.outcomes[i] == (
            ProcessId(pid),
            outcome,
        )
}

/// `scope` is under termination and has gathered a verified outcome of `pid`, which is pruned.
pub open spec fn reaped_under_termination<O>(
    lifetime: crate::supervision::lifetime::Lifetime<O>,
    scope: u64,
    pid: u64,
    outcome: TerminationOutcome,
) -> bool {
    let gathered = lifetime.view.gathered(ProcessScopeId(scope));
    &&& lifetime.waiting.contains_key(scope)
    &&& !lifetime.view.registry.owns(scope, pid)
    &&& gathered.contains_key(pid)
    &&& gathered[pid] == outcome
    &&& crate::domain::exit::verified(outcome)
}

/// The step releases `scope` with a report that names `pid` with `outcome`.
pub open spec fn released_naming<O>(
    step: Step<O>,
    scope: u64,
    pid: u64,
    outcome: TerminationOutcome,
) -> bool {
    step is Release && step->Release_scope.0 == scope && names(step->report, pid, outcome)
}

/// A termination that fails loses nothing. After the sweep of the scope's containment failed, or
/// whatever else broke a termination off, the scope stays registered without a report, and an
/// outcome gathered of a process that was reaped stays gathered, until a later termination
/// releases the scope with a report that still names it.
pub proof fn failed_termination_loses_nothing<O>(
    stats_interval: Duration,
    steps: Seq<Step<O>>,
    at: int,
    scope: u64,
    pid: u64,
    outcome: TerminationOutcome,
)
    requires
        crate::supervision::lifetime::possible(stats_interval, steps),
        0 <= at <= steps.len(),
        reaped_under_termination(
            crate::supervision::lifetime::lived(stats_interval, steps.take(at)),
            scope,
            pid,
            outcome,
        ),
    ensures
        ({
            let now = crate::supervision::lifetime::lived(stats_interval, steps);
            ||| {
                &&& reaped_under_termination(now, scope, pid, outcome)
                &&& now.view.registry.scopes.contains_key(scope)
                &&& !now.view.reports.contains_key(scope)
            }
            ||| exists|i: int|
                at <= i < steps.len() && released_naming(#[trigger] steps[i], scope, pid, outcome)
        }),
    decreases steps.len() - at,
{
    lemma_beginning(stats_interval, steps, at);
    if at < steps.len() {
        let before = crate::supervision::lifetime::lived(stats_interval, steps.take(at));
        let step = steps[at];
        if step is Release && step->Release_scope.0 == scope {
            let report = step->report;
            let pids = Seq::new(report.outcomes.len(), |i: int| report.outcomes[i].0.0);
            assert(pids.contains(pid));
            let i = pids.index_of(pid);
            assert(report.outcomes[i].0 == ProcessId(pid));
            assert(report.outcomes[i] == (ProcessId(pid), outcome));
            assert(released_naming(steps[at], scope, pid, outcome));
        } else {
            if let Step::Request { pid: asked } = step {
                assert(before.view.registry.owns(before.view.owner(asked), asked.0));
            }
            if step.concerns(before.view) != Some(scope) {
                crate::supervision::laws::steps_leave_other_scopes_alone(
                    before.view,
                    step,
                    scope,
                );
            }
            failed_termination_loses_nothing(
                stats_interval,
                steps,
                at + 1,
                scope,
                pid,
                outcome,
            );
        }
    } else {
        assert(steps.take(at) =~= steps);
    }
}

/// Once a supervisor shuts down, no scope joins those it has.
proof fn lemma_scopes_only_leave<O>(
    stats_interval: Duration,
    steps: Seq<Step<O>>,
    at: int,
    scope: u64,
)
    requires
        crate::supervision::lifetime::possible(stats_interval, steps),
        0 <= at <= steps.len(),
        crate::supervision::lifetime::lived(stats_interval, steps.take(at)).view.shutting_down,
        crate::supervision::lifetime::lived(
            stats_interval,
            steps,
        ).view.registry.scopes.contains_key(scope),
    ensures
        crate::supervision::lifetime::lived(stats_interval, steps).view.shutting_down,
        crate::supervision::lifetime::lived(
            stats_interval,
            steps.take(at),
        ).view.registry.scopes.contains_key(scope),
    decreases steps.len() - at,
{
    lemma_beginning(stats_interval, steps, at);
    if at < steps.len() {
        let view = crate::supervision::lifetime::lived(stats_interval, steps.take(at)).view;
        crate::supervision::laws::shutdown_is_final(view, steps[at]);
        lemma_scopes_only_leave(stats_interval, steps, at + 1, scope);
        if let Step::Request { pid: asked } = steps[at] {
            assert(view.registry.owns(view.owner(asked), asked.0));
        }
    } else {
        assert(steps.take(at) =~= steps);
    }
}

/// A supervisor that shuts down goes on doing so.
proof fn lemma_stays_shutting_down<O>(stats_interval: Duration, steps: Seq<Step<O>>, at: int)
    requires
        crate::supervision::lifetime::possible(stats_interval, steps),
        0 <= at <= steps.len(),
        crate::supervision::lifetime::lived(stats_interval, steps.take(at)).view.shutting_down,
    ensures
        crate::supervision::lifetime::lived(stats_interval, steps).view.shutting_down,
    decreases steps.len() - at,
{
    lemma_beginning(stats_interval, steps, at);
    if at < steps.len() {
        let view = crate::supervision::lifetime::lived(stats_interval, steps.take(at)).view;
        crate::supervision::laws::shutdown_is_final(view, steps[at]);
        lemma_stays_shutting_down(stats_interval, steps, at + 1);
    } else {
        assert(steps.take(at) =~= steps);
    }
}

/// `result` can be what the termination of `scope` came to among the steps from `at` on: a report
/// is that of the scope, and with a verified one the scope was released.
pub open spec fn answers<O>(
    steps: Seq<Step<O>>,
    at: int,
    scope: u64,
    result: CleanupView,
) -> bool {
    result matches CleanupView::Reported(report) ==> {
        &&& report.scope.0 == scope
        &&& report.verified() ==> exists|i: int|
            at <= i < steps.len() && #[trigger] steps[i] == (Step::<O>::Release {
                scope: ProcessScopeId(scope),
                report,
            })
    }
}

/// A shutdown as a whole: it begins with the step at `at`, `scopes` lists what is registered
/// then, and `results` is what the termination of each of them came to.
pub open spec fn shutdown<O>(
    stats_interval: Duration,
    steps: Seq<Step<O>>,
    at: int,
    scopes: Seq<u64>,
    results: Seq<CleanupView>,
) -> bool {
    &&& crate::supervision::lifetime::possible(stats_interval, steps)
    &&& 0 <= at < steps.len()
    &&& steps[at] is Close
    &&& crate::domain::table::lists(
        scopes,
        crate::supervision::lifetime::lived(
            stats_interval,
            steps.take(at),
        ).view.registry.scopes.dom(),
    )
    &&& results.len() == scopes.len()
    &&& forall|i: int| 0 <= i < scopes.len() ==> answers(steps, at, scopes[i], #[trigger] results[i])
}

/// The unverified cleanups are counted one by one.
proof fn lemma_unverified_filter(results: Seq<CleanupView>)
    ensures
        crate::supervision::supervisor::shutdown::unverified_count(results) == results.filter(
            |result: CleanupView| !result.verified(),
        ).len(),
    decreases results.len(),
{
    reveal(Seq::filter);
    if results.len() > 0 {
        lemma_unverified_filter(results.drop_last());
    }
}

/// A shutdown fails with the number of scopes whose cleanup is not verified, and succeeds exactly
/// when there is none; the reports come by ascending scope. After a success nothing is registered,
/// so that another shutdown finds no scope and succeeds. Either way no scope is created any more.
pub proof fn shutdown_succeeds_exactly_when_every_scope_is_verified<O>(
    stats_interval: Duration,
    steps: Seq<Step<O>>,
    at: int,
    scopes: Seq<u64>,
    results: Seq<CleanupView>,
)
    requires
        shutdown(stats_interval, steps, at, scopes, results),
    ensures
        crate::supervision::supervisor::shutdown::unverified_count(results) == results.filter(
            |result: CleanupView| !result.verified(),
        ).len(),
        crate::supervision::supervisor::shutdown::unverified_count(results) == 0 <==> (forall|
            i: int,
        |
            0 <= i < results.len() ==> (#[trigger] results[i]).verified()),
        crate::supervision::supervisor::shutdown::unverified_count(results) == 0
            ==> crate::domain::table::lists(
            Seq::empty(),
            crate::supervision::lifetime::lived(stats_interval, steps).view.registry.scopes.dom(),
        ),
        crate::supervision::supervisor::shutdown::unverified_count(Seq::empty()) == 0,
        crate::supervision::lifetime::lived(stats_interval, steps).view.shutting_down,
        forall|scoped_block: bool|
            !(#[trigger] Step::<O>::Create { scoped_block }.enabled(
                crate::supervision::lifetime::lived(stats_interval, steps).view,
            )),
        forall|i: int, j: int|
            0 <= i < j < results.len() && results[i] is Reported && results[j] is Reported ==> (
            #[trigger] results[i])->Reported_0.scope.0 < (
            #[trigger] results[j])->Reported_0.scope.0,
{
    let view = crate::supervision::lifetime::lived(stats_interval, steps).view;
    let start = crate::supervision::lifetime::lived(stats_interval, steps.take(at)).view;
    crate::supervision::supervisor::shutdown::lemma_unverified_count(results);
    lemma_unverified_filter(results);
    lemma_beginning(stats_interval, steps, at);
    lemma_stays_shutting_down(stats_interval, steps, at + 1);
    if crate::supervision::supervisor::shutdown::unverified_count(results) == 0 {
        assert forall|scope: u64| !view.registry.scopes.contains_key(scope) by {
            if view.registry.scopes.contains_key(scope) {
                lemma_scopes_only_leave(stats_interval, steps, at + 1, scope);
                assert(start.registry.scopes.dom().contains(scope));
                assert(scopes.contains(scope));
                let k = scopes.index_of(scope);
                assert(results[k].verified());
                assert(answers(steps, at, scopes[k], results[k]));
                let report = results[k]->Reported_0;
                let i = choose|i: int|
                    at <= i < steps.len() && #[trigger] steps[i] == (Step::<O>::Release {
                        scope: ProcessScopeId(scope),
                        report,
                    });
                lemma_beginning(stats_interval, steps, i);
                lemma_stays_gone(stats_interval, steps, i + 1, scope);
            }
        }
        let none = Seq::<u64>::empty();
        assert forall|scope: u64| #[trigger]
            none.contains(scope) <==> view.registry.scopes.dom().contains(scope) by {}
    }
    assert forall|i: int, j: int|
        0 <= i < j < results.len() && results[i] is Reported && results[j] is Reported implies (
    #[trigger] results[i])->Reported_0.scope.0 < (#[trigger] results[j])->Reported_0.scope.0 by {
        assert(answers(steps, at, scopes[i], results[i]));
        assert(answers(steps, at, scopes[j], results[j]));
    }
}

} // verus!
