//! Termination of a whole scope.
use vstd::prelude::*;
use vstd::string::StringExecFns;
use crate::domain::event::DomainEvent;
use crate::domain::exit::{ProcessExit, TerminationOutcome, UnverifiedReason};
use crate::domain::ids::{ProcessId, ProcessScopeId};
use crate::domain::process::ProcessView;
use crate::domain::table::Table;
use crate::supervision::error::{TerminateError, WaitError};
use crate::supervision::history::push_recent;
use crate::supervision::registry::RegistryView;
use crate::supervision::report::{ReportView, ScopeTerminationReport};
use crate::supervision::supervisor::{ProcessSupervisor, SupervisorView};

verus! {

/// With `outcome` gathered for `pid`: a verified outcome is never replaced.
pub open spec fn merged(
    outcomes: Map<u64, TerminationOutcome>,
    pid: u64,
    outcome: TerminationOutcome,
) -> Map<u64, TerminationOutcome> {
    if outcomes.contains_key(pid) && crate::domain::exit::verified(outcomes[pid]) {
        outcomes
    } else {
        outcomes.insert(pid, outcome)
    }
}

/// With every outcome of `more` gathered: a verified outcome is never replaced.
pub open spec fn merged_all(
    outcomes: Map<u64, TerminationOutcome>,
    more: Map<u64, TerminationOutcome>,
) -> Map<u64, TerminationOutcome> {
    Map::new(
        |pid: u64| outcomes.contains_key(pid) || more.contains_key(pid),
        |pid: u64|
            if outcomes.contains_key(pid) && (crate::domain::exit::verified(outcomes[pid])
                || !more.contains_key(pid)) {
                outcomes[pid]
            } else {
                more[pid]
            },
    )
}

/// With the exits of `processes` gathered, under anything gathered before.
pub open spec fn captured(
    outcomes: Map<u64, TerminationOutcome>,
    processes: Map<u64, ProcessView>,
) -> Map<u64, TerminationOutcome> {
    Map::new(
        |pid: u64|
            outcomes.contains_key(pid) || (processes.contains_key(pid)
                && processes[pid].exit is Some),
        |pid: u64|
            if outcomes.contains_key(pid) {
                outcomes[pid]
            } else {
                processes[pid].exit->0.outcome
            },
    )
}

fn merge_outcome(
    outcomes: &mut Table<TerminationOutcome>,
    pid: u64,
    outcome: TerminationOutcome,
)
    ensures
        final(outcomes)@ == merged(old(outcomes)@, pid, outcome),
{
    let settled = match outcomes.get(pid) {
        Some(previous) => previous.is_verified(),
        None => false,
    };
    if !settled {
        outcomes.insert(pid, outcome);
    }
}

fn merge_outcomes(
    outcomes: &mut Table<TerminationOutcome>,
    more: &Table<TerminationOutcome>,
)
    ensures
        final(outcomes)@ == merged_all(old(outcomes)@, more@),
{
    let ghost before = old(outcomes)@;
    let keys: Vec<u64> = more.keys();
    let mut i: usize = 0;
    assert(outcomes@ =~= merged_all(before, more@.restrict(keys@.take(0).to_set())));
    while i < keys.len()
        invariant
            i <= keys@.len(),
            crate::domain::table::lists(keys@, more@.dom()),
            outcomes@ == merged_all(before, more@.restrict(keys@.take(i as int).to_set())),
        decreases keys@.len() - i,
    {
        let pid = keys[i];
        let ghost seen = keys@.take(i as int);
        proof {
            assert(keys@.contains(keys@[i as int]));
            assert(keys@.take(i + 1) =~= seen.push(pid));
            crate::supervision::history::lemma_pushed_members(seen, pid);
            assert(!seen.contains(pid)) by {
                if seen.contains(pid) {
                    let at = seen.index_of(pid);
                    assert(keys@[at] < keys@[i as int]);
                }
            }
        }
        if let Some(outcome) = more.get(pid) {
            merge_outcome(outcomes, pid, *outcome);
        }
        proof {
            assert(!seen.to_set().contains(pid));
            assert(outcomes@ =~= merged_all(before, more@.restrict(keys@.take(i + 1).to_set())));
        }
        i = i + 1;
    }
    proof {
        assert(keys@.take(i as int) =~= keys@);
        assert forall|pid: u64| more@.dom().contains(pid) implies keys@.to_set().contains(pid) by {
            assert(keys@.contains(pid));
        }
        assert(more@.restrict(keys@.to_set()) =~= more@);
    }
}

/// A process of a scope under termination, with its exit if that is already recorded.
#[derive(Debug, Clone, Copy, PartialEq, Eq, Structural)]
pub struct ScopeTarget {
    /// The process to end.
    pub pid: ProcessId,
    /// Its recorded exit.
    pub exit: Option<ProcessExit>,
}

/// `targets` names each of `processes` once, in ascending order, with its exit.
pub open spec fn targets_of(targets: Seq<ScopeTarget>, processes: Map<u64, ProcessView>) -> bool {
    &&& crate::domain::table::lists(
        Seq::new(targets.len(), |i: int| targets[i].pid.0),
        processes.dom(),
    )
    &&& forall|i: int|
        0 <= i < targets.len() ==> (#[trigger] targets[i]).exit == processes[targets[i].pid.0].exit
}

/// How the termination of a scope starts.
#[derive(Debug)]
pub enum ScopeTerminationStart {
    /// There is nothing to do: this is the answer.
    Finished(Result<ScopeTerminationReport, TerminateError>),
    /// The scope is draining: dispatch the events, end every target, then sweep.
    Draining(ScopeDraining, Vec<ScopeTarget>, Vec<DomainEvent>),
}

/// A scope whose processes are being ended one by one.
#[derive(Debug)]
pub struct ScopeDraining {
    scope: ProcessScopeId,
    waiting: Table<()>,
}

/// A scope whose containment was swept.
#[derive(Debug)]
pub struct ScopeSwept {
    scope: ProcessScopeId,
    outcomes: Table<TerminationOutcome>,
}

/// What releasing a fully verified scope asks for.
#[derive(Debug, Clone, Copy, PartialEq, Eq, Structural)]
pub struct ScopeClosure {
    /// The event that announces the closed scope.
    pub event: DomainEvent,
    /// Whether the observers of a scoped block are to be told.
    pub scoped_block: bool,
    /// The scoped block whose retained result expires in return.
    pub expired: Option<ProcessScopeId>,
}

impl<O> SupervisorView<O> {
    /// What is known of the termination of `scope` without doing anything.
    pub open spec fn scope_known(self, scope: ProcessScopeId) -> Option<
        Result<ReportView, TerminateError>,
    > {
        if self.reports.contains_key(scope.0) {
            Some(Ok(self.reports[scope.0]))
        } else if !self.registry.scopes.contains_key(scope.0) {
            Some(Err(TerminateError::UnknownScope(scope)))
        } else {
            None
        }
    }

    /// Some process of `scope` has a recorded exit.
    pub open spec fn has_exits(self, scope: ProcessScopeId) -> bool {
        exists|pid: u64| #[trigger]
            self.registry.scopes[scope.0].processes.contains_key(pid)
                && self.registry.scopes[scope.0].processes[pid].exit is Some
    }

    /// After the termination of an owned scope began: the scope drains, and the exits that
    /// are already recorded are gathered.
    pub open spec fn drained(self, scope: ProcessScopeId) -> SupervisorView<O> {
        SupervisorView {
            registry: self.registry.with(scope.0, self.registry.scopes[scope.0].draining()),
            pending: if self.has_exits(scope) {
                self.pending.insert(
                    scope.0,
                    captured(self.gathered(scope), self.registry.scopes[scope.0].processes),
                )
            } else {
                self.pending
            },
            ..self
        }
    }

    /// Every process that `scope` still owns is waited for or has its outcome gathered.
    pub open spec fn accounted(self, scope: ProcessScopeId, waiting: Set<u64>) -> bool {
        forall|pid: u64| #[trigger]
            self.registry.owns(scope.0, pid) ==> waiting.contains(pid) || self.gathered(
                scope,
            ).contains_key(pid)
    }

    /// After the end of `pid` was gathered for a scope, if that is still owned.
    pub open spec fn joined(
        self,
        scope: ProcessScopeId,
        pid: ProcessId,
        outcome: TerminationOutcome,
    ) -> SupervisorView<O> {
        if self.registry.scopes.contains_key(scope.0) {
            SupervisorView {
                pending: self.pending.insert(
                    scope.0,
                    merged(self.gathered(scope), pid.0, outcome),
                ),
                ..self
            }
        } else {
            self
        }
    }

    /// After the outcomes of a swept scope were gathered.
    pub open spec fn settled(
        self,
        scope: ProcessScopeId,
        outcomes: Map<u64, TerminationOutcome>,
    ) -> SupervisorView<O> {
        SupervisorView {
            pending: self.pending.insert(scope.0, merged_all(self.gathered(scope), outcomes)),
            ..self
        }
    }

    /// The scoped block whose retained result expires when `scope` is released.
    pub open spec fn expiring(self, scope: ProcessScopeId) -> Option<ProcessScopeId> {
        if self.scoped.contains(scope.0) && self.completed_scoped.len()
            == crate::supervision::history::HISTORY_BOUND {
            Some(ProcessScopeId(self.completed_scoped[0]))
        } else {
            None
        }
    }

    /// After an owned scope was released with `report`: the scope is forgotten, and its
    /// report joins the bounded history, as does the result of a scoped block.
    pub open spec fn released(self, scope: ProcessScopeId, report: ReportView) -> SupervisorView<
        O,
    > {
        let bound = crate::supervision::history::HISTORY_BOUND;
        SupervisorView {
            registry: RegistryView {
                scopes: self.registry.scopes.remove(scope.0),
                ..self.registry
            },
            pending: self.pending.remove(scope.0),
            reports: if self.completed_scopes.len() == bound {
                self.reports.insert(scope.0, report).remove(self.completed_scopes[0])
            } else {
                self.reports.insert(scope.0, report)
            },
            completed_scopes: crate::supervision::history::newest(
                self.completed_scopes.push(scope.0),
            ),
            scoped: match self.expiring(scope) {
                Some(expired) => self.scoped.remove(expired.0),
                None => self.scoped,
            },
            completed_scoped: if self.scoped.contains(scope.0) {
                crate::supervision::history::newest(self.completed_scoped.push(scope.0))
            } else {
                self.completed_scoped
            },
            ..self
        }
    }
}

/// The outcome that the joined end of a process stands for: an end that cannot be told is not
/// a verified one.
pub open spec fn joined_outcome(result: Result<ProcessExit, TerminateError>) -> TerminationOutcome {
    match result {
        Ok(exit) => exit.outcome,
        Err(_) => TerminationOutcome::CleanupUnverified(UnverifiedReason::ProcessDisappeared),
    }
}

/// Whether the recorded exit of a target ends its termination: an exit that is not verified
/// does not.
#[must_use]
pub fn ends_target(exit: ProcessExit) -> (ends: bool)
    ensures
        ends == crate::domain::exit::verified(exit.outcome),
{
    exit.outcome.is_verified()
}

/// The error of a termination whose worker died for `cause`.
#[must_use]
pub fn worker_failure(cause: &str) -> (error: TerminateError)
    ensures
        error matches TerminateError::Signal(text) && text@ == "termination worker failed: "@
            + cause@,
{
    let mut text = String::from_str("termination worker failed: ");
    text.append(cause);
    TerminateError::Signal(text)
}

impl<O> ProcessSupervisor<O> {
    /// What is known of the termination of `scope` without doing anything: the retained
    /// report, or that the scope is unknown.
    #[must_use]
    pub fn scope_report(&self, scope: ProcessScopeId) -> (known: Option<
        Result<ScopeTerminationReport, TerminateError>,
    >)
        requires
            self.wf(),
        ensures
            match known {
                Some(Ok(report)) => self@.scope_known(scope) == Some(Ok::<_, TerminateError>(report@)),
                Some(Err(error)) => self@.scope_known(scope) == Some(Err::<ReportView, _>(error)),
                None => self@.scope_known(scope) is None,
            },
    {
        match self.reports.get(scope.0) {
            Some(report) => {
                assert(self@.reports.contains_key(scope.0));
                Some(Ok(report.clone()))
            },
            None => {
                if self.registry.get(scope).is_none() {
                    Some(Err(TerminateError::UnknownScope(scope)))
                } else {
                    None
                }
            },
        }
    }

    /// Starts terminating `scope`. `finished` is the report that an earlier termination left
    /// with those who queued for the scope.
    ///
    /// The scope drains, exits that are already recorded are gathered at the same moment, and
    /// every process it owns becomes a target.
    pub fn begin_scope_termination(
        &mut self,
        scope: ProcessScopeId,
        finished: Option<ScopeTerminationReport>,
    ) -> (start: ScopeTerminationStart)
        requires
            old(self).wf(),
        ensures
            final(self).wf(),
            match start {
                ScopeTerminationStart::Finished(result) => {
                    &&& final(self)@ == old(self)@
                    &&& match (finished, result) {
                        (Some(report), _) => result == Ok::<_, TerminateError>(report),
                        (None, Ok(report)) => old(self)@.scope_known(scope) == Some(
                            Ok::<_, TerminateError>(report@),
                        ),
                        (None, Err(error)) => old(self)@.scope_known(scope) == Some(
                            Err::<ReportView, _>(error),
                        ),
                    }
                },
                ScopeTerminationStart::Draining(draining, targets, events) => {
                    let owned = old(self)@.registry.scopes[scope.0];
                    &&& finished is None
                    &&& old(self)@.scope_known(scope) is None
                    &&& final(self)@ == old(self)@.drained(scope)
                    &&& targets_of(targets@, owned.processes)
                    &&& exists|pids: Seq<u64>| #[trigger]
                        crate::domain::table::lists(pids, owned.stoppable()) && events@
                            == crate::domain::scope::requests(scope, pids)
                    &&& draining.scope() == scope
                    &&& draining.waiting() == owned.processes.dom()
                },
            },
    {
        if let Some(report) = finished {
            return ScopeTerminationStart::Finished(Ok(report));
        }
        if let Some(known) = self.scope_report(scope) {
            return ScopeTerminationStart::Finished(known);
        }
        let ghost before = *old(self);
        let ghost held = before@.registry.scopes[scope.0];
        proof {
            self.registry.lemma_wf();
        }
        let mut events: Vec<DomainEvent> = Vec::new();
        if let Some(owned) = self.registry.get_mut(scope) {
            events = owned.begin_scope_termination();
        }
        proof {
            assert(self@.registry.scopes[scope.0].processes.dom() =~= held.processes.dom());
            assert(self@.registry =~= before@.registry.with(scope.0, held.draining()));
            Self::lemma_same_owners(before, *self, scope.0);
        }
        let ghost drained = *self;
        let mut targets: Vec<ScopeTarget> = Vec::new();
        let mut waiting: Table<()> = Table::new();
        let mut exits: Table<TerminationOutcome> = Table::new();
        let ids: Vec<ProcessId> = match self.registry.get(scope) {
            Some(owned) => owned.process_ids(),
            None => Vec::new(),
        };
        let ghost keys = crate::domain::scope::raw_ids(ids@);
        let mut i: usize = 0;
        assert(keys.take(0).to_set() =~= Set::empty());
        while i < ids.len()
            invariant
                i <= ids@.len(),
                self.wf(),
                *self == drained,
                keys == crate::domain::scope::raw_ids(ids@),
                crate::domain::table::lists(keys, held.processes.dom()),
                drained@.registry.scopes.contains_key(scope.0),
                drained@.registry.scopes[scope.0] == held.draining(),
                targets@.len() == i,
                forall|j: int| 0 <= j < i ==> (#[trigger] targets@[j]).pid.0 == keys[j],
                forall|j: int|
                    0 <= j < i ==> (#[trigger] targets@[j]).exit == held.processes[keys[j]].exit,
                waiting@.dom() == keys.take(i as int).to_set(),
                forall|pid: u64| #[trigger]
                    exits@.contains_key(pid) <==> keys.take(i as int).contains(pid)
                        && held.processes[pid].exit is Some,
                forall|pid: u64| #[trigger]
                    exits@.contains_key(pid) ==> exits@[pid] == held.processes[pid].exit->0.outcome,
            decreases ids@.len() - i,
        {
            let pid = ids[i];
            let ghost seen = keys.take(i as int);
            proof {
                assert(keys.contains(keys[i as int]));
                assert(keys.take(i + 1) =~= seen.push(pid.0));
                crate::supervision::history::lemma_pushed_members(seen, pid.0);
                assert forall|other: u64| #[trigger]
                    keys.take(i + 1).contains(other) <==> seen.contains(other) || other
                    == pid.0 by {
                    assert(keys.take(i + 1).to_set().contains(other) <==> seen.to_set().insert(
                        pid.0,
                    ).contains(other));
                }
            }
            let exit = match self.registry.get(scope) {
                Some(owned) => match owned.get(pid) {
                    Some(process) => process.exit(),
                    None => None,
                },
                None => None,
            };
            if let Some(recorded) = exit {
                exits.insert(pid.0, recorded.outcome);
            }
            targets.push(ScopeTarget { pid, exit });
            waiting.insert(pid.0, ());
            assert(waiting@.dom() =~= keys.take(i + 1).to_set());
            i = i + 1;
        }
        proof {
            assert(keys.take(i as int) =~= keys);
            assert(waiting@.dom() =~= held.processes.dom()) by {
                assert forall|pid: u64| keys.to_set().contains(pid) <==> held.processes.dom().contains(
                    pid,
                ) by {
                    assert(keys.contains(pid) <==> held.processes.dom().contains(pid));
                }
            }
            assert(Seq::new(targets@.len(), |j: int| targets@[j].pid.0) =~= keys);
        }
        if exits.len() > 0 {
            proof {
                let some = exits@.dom().choose();
                assert(exits@.contains_key(some));
                assert(keys.contains(some));
                assert(held.processes.contains_key(some));
                assert(before@.has_exits(scope));
            }
            let mut gathered = match self.pending.remove(scope.0) {
                Some(outcomes) => outcomes,
                None => Table::new(),
            };
            let ghost earlier = gathered@;
            capture_exits(&mut gathered, &exits);
            self.pending.insert(scope.0, gathered);
            proof {
                assert(gathered@ =~= captured(earlier, held.processes)) by {
                    assert forall|pid: u64| exits@.contains_key(pid) <==> held.processes.contains_key(
                        pid,
                    ) && held.processes[pid].exit is Some by {
                        assert(keys.contains(pid) <==> held.processes.dom().contains(pid));
                    }
                }
                assert(self@.pending =~= before@.drained(scope).pending);
            }
        } else {
            proof {
                assert(!before@.has_exits(scope)) by {
                    if before@.has_exits(scope) {
                        let pid = choose|pid: u64| #[trigger]
                            held.processes.contains_key(pid) && held.processes[pid].exit is Some;
                        assert(keys.contains(pid));
                        assert(exits@.contains_key(pid));
                        assert(exits@.dom() =~= Set::empty());
                    }
                }
            }
        }
        assert(self@ =~= before@.drained(scope));
        ScopeTerminationStart::Draining(ScopeDraining { scope, waiting }, targets, events)
    }
}

/// Gathers `exits` under anything gathered before.
fn capture_exits(
    outcomes: &mut Table<TerminationOutcome>,
    exits: &Table<TerminationOutcome>,
)
    ensures
        final(outcomes)@.dom() =~= old(outcomes)@.dom().union(exits@.dom()),
        forall|pid: u64| #[trigger]
            final(outcomes)@.contains_key(pid) ==> final(outcomes)@[pid] == (if old(
                outcomes,
            )@.contains_key(pid) {
                old(outcomes)@[pid]
            } else {
                exits@[pid]
            }),
{
    let ghost before = old(outcomes)@;
    let keys: Vec<u64> = exits.keys();
    let mut i: usize = 0;
    assert(outcomes@.dom() =~= before.dom().union(keys@.take(0).to_set()));
    while i < keys.len()
        invariant
            i <= keys@.len(),
            crate::domain::table::lists(keys@, exits@.dom()),
            outcomes@.dom() == before.dom().union(keys@.take(i as int).to_set()),
            forall|pid: u64| #[trigger]
                outcomes@.contains_key(pid) ==> outcomes@[pid] == (if before.contains_key(pid) {
                    before[pid]
                } else {
                    exits@[pid]
                }),
        decreases keys@.len() - i,
    {
        let pid = keys[i];
        proof {
            assert(keys@.contains(keys@[i as int]));
            assert(keys@.take(i + 1) =~= keys@.take(i as int).push(pid));
            crate::supervision::history::lemma_pushed_members(keys@.take(i as int), pid);
        }
        if !outcomes.contains(pid) {
            if let Some(outcome) = exits.get(pid) {
                outcomes.insert(pid, *outcome);
            }
        }
        assert(outcomes@.dom() =~= before.dom().union(keys@.take(i + 1).to_set()));
        i = i + 1;
    }
    proof {
        assert(keys@.take(i as int) =~= keys@);
        assert forall|pid: u64| keys@.to_set().contains(pid) <==> exits@.dom().contains(pid) by {
            assert(keys@.contains(pid) <==> exits@.dom().contains(pid));
        }
    }
}

impl ScopeDraining {
    /// The scope under termination.
    pub closed spec fn scope(self) -> ProcessScopeId {
        self.scope
    }

    /// The processes whose end has not been joined yet.
    pub closed spec fn waiting(self) -> Set<u64> {
        self.waiting@.dom()
    }

    /// Whether the end of every process was joined.
    #[must_use]
    pub fn is_joined(&self) -> (joined: bool)
        ensures
            joined == (self.waiting() =~= Set::empty()),
    {
        let count: usize = self.waiting.len();
        proof {
            if count == 0 {
                assert(self.waiting() =~= Set::empty());
            }
        }
        count == 0
    }

    /// Joins the end of `pid`: its outcome is gathered, unless a verified one already was.
    pub fn join<O>(
        &mut self,
        supervision: &mut ProcessSupervisor<O>,
        pid: ProcessId,
        result: Result<ProcessExit, TerminateError>,
    )
        requires
            old(supervision).wf(),
        ensures
            final(supervision).wf(),
            final(self).scope() == old(self).scope(),
            final(self).waiting() == old(self).waiting().remove(pid.0),
            final(supervision)@ == old(supervision)@.joined(
                old(self).scope(),
                pid,
                joined_outcome(result),
            ),
    {
        let outcome = match result {
            Ok(exit) => exit.outcome,
            Err(_) => TerminationOutcome::CleanupUnverified(UnverifiedReason::ProcessDisappeared),
        };
        self.waiting.remove(pid.0);
        assert(self.waiting() =~= old(self).waiting().remove(pid.0));
        let scope = self.scope;
        if supervision.registry.get(scope).is_some() {
            let ghost before = supervision@;
            let mut outcomes = match supervision.pending.remove(scope.0) {
                Some(outcomes) => outcomes,
                None => Table::new(),
            };
            assert(outcomes@ =~= before.gathered(scope));
            merge_outcome(&mut outcomes, pid.0, outcome);
            supervision.pending.insert(scope.0, outcomes);
            assert(supervision@.pending =~= before.joined(scope, pid, outcome).pending);
            assert(supervision@ =~= before.joined(scope, pid, outcome));
        }
    }

    /// Goes on after the sweep of the scope's containment, once the end of every process was
    /// joined: the outcomes gathered so far are taken down.
    ///
    /// # Errors
    /// Returns the error of a failed sweep.
    pub fn sweep<O>(
        self,
        supervision: &ProcessSupervisor<O>,
        swept: Result<(), TerminateError>,
    ) -> (result: Result<ScopeSwept, TerminateError>)
        requires
            supervision.wf(),
            self.waiting() =~= Set::empty(),
        ensures
            match result {
                Ok(scope) => {
                    &&& swept is Ok
                    &&& scope.scope() == self.scope()
                    &&& scope.outcomes() == supervision@.gathered(self.scope())
                },
                Err(error) => swept == Err::<(), _>(error),
            },
    {
        match swept {
            Err(error) => Err(error),
            Ok(_) => {
                let mut outcomes: Table<TerminationOutcome> = Table::new();
                if let Some(gathered) = supervision.pending.get(self.scope.0) {
                    merge_outcomes(&mut outcomes, gathered);
                    assert(outcomes@ =~= gathered@);
                }
                assert(outcomes@ =~= supervision@.gathered(self.scope));
                Ok(ScopeSwept { scope: self.scope, outcomes })
            },
        }
    }
}

impl ScopeSwept {
    /// The scope under termination.
    pub closed spec fn scope(self) -> ProcessScopeId {
        self.scope
    }

    /// The outcomes taken down.
    pub closed spec fn outcomes(self) -> Map<u64, TerminationOutcome> {
        self.outcomes@
    }

    /// The processes whose outcome is not verified, ascending. A sweep is no evidence of a
    /// reap, so each of them is to be waited for once more.
    #[must_use]
    pub fn unverified(&self) -> (pids: Vec<ProcessId>)
        ensures
            crate::domain::table::lists(
                crate::domain::scope::raw_ids(pids@),
                self.outcomes().dom().filter(
                    |pid: u64| !crate::domain::exit::verified(self.outcomes()[pid]),
                ),
            ),
    {
        let keys: Vec<u64> = self.outcomes.keys();
        let ghost open = |pid: u64| !crate::domain::exit::verified(self.outcomes()[pid]);
        let mut pids: Vec<ProcessId> = Vec::new();
        let mut i: usize = 0;
        assert(keys@.take(0).filter(open) =~= Seq::empty()) by {
            reveal(Seq::filter);
        }
        while i < keys.len()
            invariant
                i <= keys@.len(),
                open == (|pid: u64| !crate::domain::exit::verified(self.outcomes()[pid])),
                crate::domain::table::lists(keys@, self.outcomes@.dom()),
                crate::domain::scope::raw_ids(pids@) == keys@.take(i as int).filter(open),
            decreases keys@.len() - i,
        {
            let key = keys[i];
            let ghost before = crate::domain::scope::raw_ids(pids@);
            proof {
                assert(keys@.contains(keys@[i as int]));
                crate::domain::table::lemma_filter_step(keys@, i as int, open);
            }
            let verified = match self.outcomes.get(key) {
                Some(outcome) => outcome.is_verified(),
                None => true,
            };
            if !verified {
                pids.push(ProcessId(key));
                assert(crate::domain::scope::raw_ids(pids@) =~= before.push(key));
            }
            i = i + 1;
        }
        proof {
            assert(keys@.take(i as int) =~= keys@);
            crate::domain::table::lemma_filtered_lists(keys@, self.outcomes@.dom(), open);
        }
        pids
    }

    /// Takes down what a renewed wait for `pid` came to. A wait that ran out or failed changes
    /// nothing.
    pub fn reobserve(
        &mut self,
        pid: ProcessId,
        waited: Option<Result<ProcessExit, WaitError>>,
    )
        ensures
            final(self).scope() == old(self).scope(),
            final(self).outcomes() == (match waited {
                Some(Ok(exit)) => old(self).outcomes().insert(pid.0, exit.outcome),
                _ => old(self).outcomes(),
            }),
    {
        if let Some(Ok(exit)) = waited {
            self.outcomes.insert(pid.0, exit.outcome);
        }
    }

    /// Ends the termination with a report of every gathered outcome. A scope whose cleanup is
    /// verified throughout is released; any other stays owned, with its outcomes, for a later
    /// attempt.
    ///
    /// # Errors
    /// Returns [`TerminateError::UnknownScope`] if the scope is no longer owned.
    pub fn finish<O>(self, supervision: &mut ProcessSupervisor<O>) -> (result: Result<
        (ScopeTerminationReport, Option<ScopeClosure>),
        TerminateError,
    >)
        requires
            old(supervision).wf(),
        ensures
            final(supervision).wf(),
            match result {
                Err(error) => {
                    &&& !old(supervision)@.registry.scopes.contains_key(self.scope().0)
                    &&& error == TerminateError::UnknownScope(self.scope())
                    &&& final(supervision)@ == old(supervision)@
                },
                Ok((report, closure)) => {
                    let settled = old(supervision)@.settled(self.scope(), self.outcomes());
                    &&& old(supervision)@.registry.scopes.contains_key(self.scope().0)
                    &&& report.scope == self.scope()
                    &&& report@.reports(settled.pending[self.scope().0])
                    &&& if report@.verified() {
                        &&& final(supervision)@ == settled.released(self.scope(), report@)
                        &&& closure == Some(
                            ScopeClosure {
                                event: DomainEvent::ScopeClosed { scope: self.scope() },
                                scoped_block: old(supervision)@.scoped.contains(self.scope().0),
                                expired: settled.expiring(self.scope()),
                            },
                        )
                    } else {
                        &&& final(supervision)@ == settled
                        &&& closure is None
                    }
                },
            },
    {
        let scope = self.scope;
        if supervision.registry.get(scope).is_none() {
            return Err(TerminateError::UnknownScope(scope));
        }
        let ghost before = supervision@;
        let mut gathered = match supervision.pending.remove(scope.0) {
            Some(outcomes) => outcomes,
            None => Table::new(),
        };
        assert(gathered@ =~= before.gathered(scope));
        merge_outcomes(&mut gathered, &self.outcomes);
        let ghost settled = before.settled(scope, self.outcomes());
        let report = ScopeTerminationReport { scope, outcomes: sorted_outcomes(&gathered) };
        supervision.pending.insert(scope.0, gathered);
        proof {
            assert(supervision@.pending =~= settled.pending);
            assert(supervision@ =~= settled);
            assert(supervision.wf());
        }
        if report.all_verified() {
            let closure = supervision.release(scope, report.clone());
            Ok((report, Some(closure)))
        } else {
            Ok((report, None))
        }
    }
}

/// The gathered outcomes in ascending process order.
fn sorted_outcomes(gathered: &Table<TerminationOutcome>) -> (outcomes: Vec<
    (ProcessId, TerminationOutcome),
>)
    ensures
        forall|scope: ProcessScopeId|
            (#[trigger] (ReportView { scope, outcomes: outcomes@ }).reports(gathered@)),
{
    let keys: Vec<u64> = gathered.keys();
    let mut outcomes: Vec<(ProcessId, TerminationOutcome)> = Vec::new();
    let mut i: usize = 0;
    while i < keys.len()
        invariant
            i <= keys@.len(),
            crate::domain::table::lists(keys@, gathered@.dom()),
            outcomes@.len() == i,
            forall|j: int| 0 <= j < i ==> (#[trigger] outcomes@[j]).0.0 == keys@[j],
            forall|j: int| 0 <= j < i ==> (#[trigger] outcomes@[j]).1 == gathered@[keys@[j]],
        decreases keys@.len() - i,
    {
        assert(keys@.contains(keys@[i as int]));
        let key = keys[i];
        if let Some(outcome) = gathered.get(key) {
            outcomes.push((ProcessId(key), *outcome));
        }
        i = i + 1;
    }
    assert forall|scope: ProcessScopeId|
        (#[trigger] (ReportView { scope, outcomes: outcomes@ }).reports(gathered@)) by {
        assert(Seq::new(outcomes@.len(), |j: int| outcomes@[j].0.0) =~= keys@);
    }
    outcomes
}

impl<O> ProcessSupervisor<O> {
    /// Releases a scope whose cleanup is verified.
    fn release(&mut self, scope: ProcessScopeId, report: ScopeTerminationReport) -> (closure:
        ScopeClosure)
        requires
            old(self).wf(),
            old(self)@.registry.scopes.contains_key(scope.0),
            report@.verified(),
            report.scope == scope,
        ensures
            final(self).wf(),
            final(self)@ == old(self)@.released(scope, report@),
            closure == (ScopeClosure {
                event: DomainEvent::ScopeClosed { scope },
                scoped_block: old(self)@.scoped.contains(scope.0),
                expired: old(self)@.expiring(scope),
            }),
    {
        let ghost before = *old(self);
        let ghost known = before@;
        proof {
            self.registry.lemma_wf();
            assert(!known.completed_scopes.contains(scope.0)) by {
                if known.completed_scopes.contains(scope.0) {
                    assert(known.completed_scopes.to_set().contains(scope.0));
                    assert(known.reports.contains_key(scope.0));
                }
            }
            crate::supervision::history::lemma_push_recent(known.completed_scopes, scope.0);
        }
        let scoped_block = self.scoped.contains(scope.0);
        let mut expired: Option<ProcessScopeId> = None;
        if scoped_block {
            proof {
                assert(known.scoped.contains(scope.0));
                assert(!known.completed_scoped.contains(scope.0));
                crate::supervision::history::lemma_push_recent(known.completed_scoped, scope.0);
            }
            if let Some(oldest) = push_recent(&mut self.completed_scoped, scope.0) {
                assert(known.completed_scoped.contains(known.completed_scoped[0]));
                assert(known.completed_scoped.to_set().contains(known.completed_scoped[0]));
                self.scoped.remove(oldest);
                expired = Some(ProcessScopeId(oldest));
            }
        }
        let ghost text = report@;
        self.reports.insert(scope.0, report);
        self.registry.remove(scope);
        self.pending.remove(scope.0);
        if let Some(oldest) = push_recent(&mut self.completed_scopes, scope.0) {
            assert(known.completed_scopes.contains(known.completed_scopes[0]));
            self.reports.remove(oldest);
        }
        proof {
            let after = known.released(scope, text);
            assert(self@.reports =~= after.reports);
            assert(self@.pending =~= after.pending);
            assert(self@.scoped =~= after.scoped);
            assert(self@ =~= after);
            self.registry.lemma_wf();
            assert forall|id: u64, pid: u64| #[trigger]
                after.registry.owns(id, pid) implies known.registry.owns(id, pid) by {}
            assert(after.registry.exclusive());
            assert(after.reports_wf()) by {
                assert(after.completed_scopes.to_set() =~= after.reports.dom());
                assert forall|id: u64| #[trigger] after.reports.contains_key(id) implies {
                    &&& !after.registry.scopes.contains_key(id)
                    &&& id <= after.registry.next_scope
                    &&& after.reports[id].verified()
                    &&& after.reports[id].scope.0 == id
                } by {
                    if id != scope.0 {
                        assert(known.reports.contains_key(id));
                    }
                }
            }
            assert(after.scoped_wf()) by {
                assert forall|id: u64| #[trigger] after.scoped.contains(id) implies {
                    &&& id <= after.registry.next_scope
                    &&& after.registry.scopes.contains_key(id) != after.completed_scoped.contains(
                        id,
                    )
                } by {
                    assert(known.scoped.contains(id));
                    assert(after.completed_scoped.contains(id)
                        <==> after.completed_scoped.to_set().contains(id));
                    assert(known.completed_scoped.contains(id)
                        <==> known.completed_scoped.to_set().contains(id));
                }
                assert(after.completed_scoped.to_set().subset_of(after.scoped));
            }
        }
        ScopeClosure { event: DomainEvent::ScopeClosed { scope }, scoped_block, expired }
    }
}

} // verus!
