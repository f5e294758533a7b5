//! The state of a supervisor and every decision made under its lock.
pub mod monitor;
pub mod sampler;
pub mod scope_termination;
pub mod scoped;
pub mod shutdown;
pub mod spawn;
pub mod terminate;

use std::collections::VecDeque;
use vstd::prelude::*;
use crate::domain::event::DomainEvent;
use crate::domain::exit::{ProcessExit, TerminationOutcome};
use crate::domain::ids::{ProcessId, ProcessScopeId};
use crate::domain::process::{Process, ProcessView};
use crate::domain::stats::ProcessStats;
use crate::domain::table::Table;
use crate::domain::time::{Duration, Instant};
use crate::supervision::error::{ScopeCreationError, StatsError, WaitError};
use crate::supervision::history::{forget, holds, push_recent, OsPidHistory, OsPidHistoryView};
use crate::supervision::registry::{RegistryView, ScopeRegistry};
use crate::supervision::report::{ReportView, ScopeTerminationReport};

verus! {

/// What a supervisor knows.
#[verifier::ext_equal]
pub struct SupervisorView<O> {
    /// The owned scopes.
    pub registry: RegistryView,
    /// When each owned process was attached.
    pub spawn_times: Map<u64, Instant>,
    /// The latest sample of each live process.
    pub samples: Map<u64, Result<ProcessStats, StatsError>>,
    /// The capture observers that nobody has claimed yet.
    pub outputs: Map<u64, O>,
    /// The unclaimed captures of completed processes, oldest first.
    pub completed: Seq<u64>,
    /// The reports of recently terminated scopes.
    pub reports: Map<u64, ReportView>,
    /// The recently terminated scopes, oldest first.
    pub completed_scopes: Seq<u64>,
    /// The outcomes gathered for each scope under termination.
    pub pending: Map<u64, Map<u64, TerminationOutcome>>,
    /// The scopes of scoped blocks whose result is retained.
    pub scoped: Set<u64>,
    /// The terminated ones among them, oldest first.
    pub completed_scoped: Seq<u64>,
    /// The most recently attached OS identities.
    pub os_pids: OsPidHistoryView,
    /// No new work is admitted.
    pub shutting_down: bool,
    /// Nobody is left to ask for a shutdown.
    pub owners_dropped: bool,
    /// The sampler was started.
    pub sampler_started: bool,
    /// How often live processes are sampled.
    pub stats_interval: Duration,
}

impl<O> SupervisorView<O> {
    /// A supervisor that was just created.
    pub open spec fn fresh(stats_interval: Duration) -> SupervisorView<O> {
        SupervisorView {
            registry: RegistryView::fresh(),
            spawn_times: Map::empty(),
            samples: Map::empty(),
            outputs: Map::empty(),
            completed: Seq::empty(),
            reports: Map::empty(),
            completed_scopes: Seq::empty(),
            pending: Map::empty(),
            scoped: Set::empty(),
            completed_scoped: Seq::empty(),
            os_pids: OsPidHistoryView { by_pid: Map::empty(), order: Seq::empty() },
            shutting_down: false,
            owners_dropped: false,
            sampler_started: false,
            stats_interval,
        }
    }

    /// Ownership is exclusive, reports stand for released scopes, samples stand under their own
    /// process, and every history is bounded and consistent with what it retains.
    pub open spec fn wf(self) -> bool {
        &&& self.registry.wf()
        &&& self.registry.exclusive()
        &&& self.captures_wf()
        &&& self.reports_wf()
        &&& self.scoped_wf()
        &&& self.pending.dom().subset_of(self.registry.scopes.dom())
        &&& self.os_pids.wf()
        &&& samples_wf(self.samples)
    }

    /// The completed captures are unclaimed, distinct and bounded in number.
    pub open spec fn captures_wf(self) -> bool {
        &&& self.completed.no_duplicates()
        &&& self.completed.to_set().subset_of(self.outputs.dom())
        &&& self.completed.len() <= crate::supervision::history::HISTORY_BOUND
    }

    /// A retained report is verified and belongs to a scope that is no longer owned.
    pub open spec fn reports_wf(self) -> bool {
        &&& self.completed_scopes.no_duplicates()
        &&& self.completed_scopes.to_set() =~= self.reports.dom()
        &&& self.completed_scopes.len() <= crate::supervision::history::HISTORY_BOUND
        &&& forall|id: u64| #[trigger]
            self.reports.contains_key(id) ==> {
                &&& !self.registry.scopes.contains_key(id)
                &&& id <= self.registry.next_scope
                &&& self.reports[id].verified()
                &&& self.reports[id].scope.0 == id
            }
    }

    /// The scope of a scoped block is owned until its result joins the bounded history.
    pub open spec fn scoped_wf(self) -> bool {
        &&& self.completed_scoped.no_duplicates()
        &&& self.completed_scoped.to_set().subset_of(self.scoped)
        &&& self.completed_scoped.len() <= crate::supervision::history::HISTORY_BOUND
        &&& forall|id: u64| #[trigger]
            self.scoped.contains(id) ==> {
                &&& id <= self.registry.next_scope
                &&& self.registry.scopes.contains_key(id) != self.completed_scoped.contains(id)
            }
    }

    /// Some scope owns `pid`.
    pub open spec fn owned(self, pid: ProcessId) -> bool {
        exists|id: u64| #[trigger] self.registry.owns(id, pid.0)
    }

    /// The scope that owns `pid`.
    pub open spec fn owner(self, pid: ProcessId) -> u64 {
        choose|id: u64| #[trigger] self.registry.owns(id, pid.0)
    }

    /// The owned process `pid`.
    pub open spec fn process(self, pid: ProcessId) -> ProcessView {
        self.registry.scopes[self.owner(pid)].processes[pid.0]
    }

    /// `pid` is owned and alive.
    pub open spec fn alive(self, pid: ProcessId) -> bool {
        self.owned(pid) && self.process(pid).state.live()
    }

    /// After `pid` completed: its unclaimed capture joins the bounded history.
    pub open spec fn output_retained(self, pid: ProcessId) -> SupervisorView<O> {
        if self.outputs.contains_key(pid.0) && !self.completed.contains(pid.0) {
            SupervisorView {
                completed: crate::supervision::history::newest(self.completed.push(pid.0)),
                outputs: if self.completed.len() == crate::supervision::history::HISTORY_BOUND {
                    self.outputs.remove(self.completed[0])
                } else {
                    self.outputs
                },
                ..self
            }
        } else {
            self
        }
    }

    /// After the capture of `pid` was claimed.
    pub open spec fn output_taken(self, pid: ProcessId) -> SupervisorView<O> {
        SupervisorView {
            outputs: self.outputs.remove(pid.0),
            completed: self.completed.filter(|other: u64| other != pid.0),
            ..self
        }
    }

    /// Nothing more is expected of `pid`: its verified exit is on record, or it is not owned.
    pub open spec fn ended(self, pid: ProcessId) -> bool {
        !self.owned(pid) || self.process(pid).settled()
    }

    /// After the claimed capture of `pid` was given back: it is unclaimed again, and that of a
    /// process that ended joins the bounded history.
    pub open spec fn output_returned(self, pid: ProcessId, output: O) -> SupervisorView<O> {
        let unclaimed = SupervisorView { outputs: self.outputs.insert(pid.0, output), ..self };
        if self.ended(pid) {
            unclaimed.output_retained(pid)
        } else {
            unclaimed
        }
    }

    /// After `outcome` was recorded for a process of a scope under termination.
    pub open spec fn outcome_recorded(
        self,
        scope: ProcessScopeId,
        pid: ProcessId,
        outcome: TerminationOutcome,
    ) -> SupervisorView<O> {
        SupervisorView {
            pending: self.pending.insert(
                scope.0,
                self.gathered(scope).insert(pid.0, outcome),
            ),
            ..self
        }
    }

    /// The operating-system PID that is told for `pid`.
    pub open spec fn told_os_pid(self, pid: ProcessId) -> Option<u32> {
        if self.owned(pid) {
            Some(self.process(pid).os.pid)
        } else if self.os_pids.by_pid.contains_key(pid.0) {
            Some(self.os_pids.by_pid[pid.0])
        } else {
            None
        }
    }

    /// The sample that is told for `pid`, or why there is none.
    pub open spec fn told_stats(self, pid: ProcessId) -> Result<ProcessStats, StatsError> {
        if !self.alive(pid) {
            Err(StatsError::UnknownProcess(pid))
        } else if self.samples.contains_key(pid.0) {
            self.samples[pid.0]
        } else {
            Err(StatsError::NotReady(pid))
        }
    }

    /// What a waiter for `pid` is told at once; `None` if it has to wait.
    pub open spec fn told_exit(self, pid: ProcessId, recorded: Option<ProcessExit>) -> Option<
        Result<ProcessExit, WaitError>,
    > {
        match recorded {
            Some(exit) => Some(Ok(exit)),
            None => if !self.owned(pid) {
                Some(Err(WaitError::UnknownProcess(pid)))
            } else {
                match self.process(pid).exit {
                    Some(exit) => Some(Ok(exit)),
                    None => None,
                }
            },
        }
    }

    /// The outcomes gathered for `scope` so far.
    pub open spec fn gathered(self, scope: ProcessScopeId) -> Map<u64, TerminationOutcome> {
        if self.pending.contains_key(scope.0) {
            self.pending[scope.0]
        } else {
            Map::empty()
        }
    }
}

/// A sample is filed under the process that it is of.
pub open spec fn samples_wf(samples: Map<u64, Result<ProcessStats, StatsError>>) -> bool {
    forall|pid: u64| #[trigger]
        samples.contains_key(pid) ==> (samples[pid] matches Ok(stats) ==> stats.pid.0 == pid)
}

/// Everything a supervisor decides on: owned scopes, gathered outcomes and bounded histories.
/// `O` is the handle of a capture observer.
#[derive(Debug)]
pub struct ProcessSupervisor<O> {
    registry: ScopeRegistry,
    spawn_times: Table<Instant>,
    samples: Table<Result<ProcessStats, StatsError>>,
    outputs: Table<O>,
    completed: VecDeque<u64>,
    reports: Table<ScopeTerminationReport>,
    completed_scopes: VecDeque<u64>,
    pending: Table<Table<TerminationOutcome>>,
    scoped: Table<()>,
    completed_scoped: VecDeque<u64>,
    os_pids: OsPidHistory,
    shutting_down: bool,
    owners_dropped: bool,
    sampler_started: bool,
    stats_interval: Duration,
}

impl<O> View for ProcessSupervisor<O> {
    type V = SupervisorView<O>;

    closed spec fn view(&self) -> SupervisorView<O> {
        SupervisorView {
            registry: self.registry@,
            spawn_times: self.spawn_times@,
            samples: self.samples@,
            outputs: self.outputs@,
            completed: self.completed@,
            reports: self.reports@.map_values(|report: ScopeTerminationReport| report@),
            completed_scopes: self.completed_scopes@,
            pending: self.pending@.map_values(|outcomes: Table<TerminationOutcome>| outcomes@),
            scoped: self.scoped@.dom(),
            completed_scoped: self.completed_scoped@,
            os_pids: self.os_pids@,
            shutting_down: self.shutting_down,
            owners_dropped: self.owners_dropped,
            sampler_started: self.sampler_started,
            stats_interval: self.stats_interval,
        }
    }
}

impl<O> ProcessSupervisor<O> {
    /// What the supervisor knows is consistent.
    pub closed spec fn wf(self) -> bool {
        self.registry.wf() && self@.wf()
    }

    /// A consistent supervisor shows consistent knowledge.
    pub proof fn lemma_wf(self)
        requires
            self.wf(),
        ensures
            self@.wf(),
    {
    }

    /// A supervisor that samples every `stats_interval`. Intervals below one millisecond are
    /// clamped to one millisecond.
    #[must_use]
    pub fn with_stats_interval(stats_interval: Duration) -> (supervision: Self)
        ensures
            supervision@ == SupervisorView::<O>::fresh(supervision@.stats_interval),
            supervision@.stats_interval.nanos == (if stats_interval.nanos < 1_000_000 {
                1_000_000
            } else {
                stats_interval.nanos
            }),
            supervision.wf(),
    {
        let supervision = ProcessSupervisor {
            registry: ScopeRegistry::new(),
            spawn_times: Table::new(),
            samples: Table::new(),
            outputs: Table::new(),
            completed: VecDeque::new(),
            reports: Table::new(),
            completed_scopes: VecDeque::new(),
            pending: Table::new(),
            scoped: Table::new(),
            completed_scoped: VecDeque::new(),
            os_pids: OsPidHistory::new(),
            shutting_down: false,
            owners_dropped: false,
            sampler_started: false,
            stats_interval: stats_interval.longest(Duration::from_millis(1)),
        };
        assert(supervision@ =~= SupervisorView::<O>::fresh(supervision@.stats_interval));
        supervision
    }

    /// A supervisor that samples every second.
    #[must_use]
    pub fn new() -> (supervision: Self)
        ensures
            supervision@ == SupervisorView::<O>::fresh(Duration { nanos: 1_000_000_000 }),
            supervision.wf(),
    {
        let second = Duration::from_secs(1);
        assert(second == (Duration { nanos: 1_000_000_000 }));
        Self::with_stats_interval(second)
    }

    /// How often live processes are sampled.
    #[must_use]
    pub fn stats_interval(&self) -> (interval: Duration)
        ensures
            interval == self@.stats_interval,
    {
        self.stats_interval
    }

    /// Whether new work is refused.
    #[must_use]
    pub fn is_shutting_down(&self) -> (closing: bool)
        ensures
            closing == self@.shutting_down,
    {
        self.shutting_down
    }

    /// The owned scopes.
    #[must_use]
    pub fn registry(&self) -> (registry: &ScopeRegistry)
        requires
            self.wf(),
        ensures
            registry@ == self@.registry,
            registry.wf(),
    {
        &self.registry
    }

    /// Records that the last owner is gone: no new work is admitted, and a process started
    /// from now on is an orphan. Answers whether the owner left without a shutdown.
    pub fn drop_owners(&mut self) -> (leaked: bool)
        requires
            old(self).wf(),
        ensures
            leaked == !old(self)@.shutting_down,
            final(self)@ == (SupervisorView {
                shutting_down: true,
                owners_dropped: true,
                ..old(self)@
            }),
            final(self).wf(),
    {
        let leaked = !self.shutting_down;
        self.owners_dropped = true;
        self.shutting_down = true;
        leaked
    }

    /// Creates a scope only while new work is admitted. The scope of a scoped block has its
    /// result retained.
    ///
    /// # Errors
    /// Returns [`ScopeCreationError::SupervisorClosed`] once shutdown started, without
    /// allocating an id or a registry entry.
    pub fn try_create_scope(&mut self, scoped_block: bool) -> (result: Result<
        ProcessScopeId,
        ScopeCreationError,
    >)
        requires
            old(self).wf(),
            old(self)@.shutting_down || old(self)@.registry.next_scope < u64::MAX,
        ensures
            final(self).wf(),
            match result {
                Ok(scope) => {
                    &&& !old(self)@.shutting_down
                    &&& scope.0 == old(self)@.registry.next_scope + 1
                    &&& final(self)@ == (SupervisorView {
                        registry: RegistryView {
                            scopes: old(self)@.registry.scopes.insert(
                                scope.0,
                                crate::domain::scope::ScopeView::fresh(scope),
                            ),
                            next_scope: scope.0,
                            ..old(self)@.registry
                        },
                        scoped: if scoped_block {
                            old(self)@.scoped.insert(scope.0)
                        } else {
                            old(self)@.scoped
                        },
                        ..old(self)@
                    })
                },
                Err(error) => {
                    &&& old(self)@.shutting_down
                    &&& error == ScopeCreationError::SupervisorClosed
                    &&& final(self)@ == old(self)@
                },
            },
    {
        if self.shutting_down {
            return Err(ScopeCreationError::SupervisorClosed);
        }
        let scope = self.registry.create_scope();
        if scoped_block {
            self.scoped.insert(scope.0, ());
        }
        proof {
            let before = old(self)@;
            assert(self@.scoped =~= if scoped_block {
                before.scoped.insert(scope.0)
            } else {
                before.scoped
            });
            self.registry.lemma_wf();
            assert forall|id: u64, pid: u64| #[trigger]
                self@.registry.owns(id, pid) <==> before.registry.owns(id, pid) by {}
            assert(!before.completed_scoped.contains(scope.0)) by {
                if before.completed_scoped.contains(scope.0) {
                    assert(before.completed_scoped.to_set().contains(scope.0));
                    assert(before.scoped.contains(scope.0));
                }
            }
            assert forall|id: u64| #[trigger] self@.reports.contains_key(id) implies {
                &&& !self@.registry.scopes.contains_key(id)
                &&& id <= self@.registry.next_scope
            } by {
                assert(before.reports.contains_key(id));
            }
            assert(self@.scoped_wf());
        }
        Ok(scope)
    }

    /// The ids of live processes in a scope, ascending, or `None` if the scope is unknown.
    #[must_use]
    pub fn processes(&self, scope: ProcessScopeId) -> (live: Option<Vec<ProcessId>>)
        requires
            self.wf(),
        ensures
            live is Some <==> self@.registry.scopes.contains_key(scope.0),
            live matches Some(pids) ==> crate::domain::table::lists(
                crate::domain::scope::raw_ids(pids@),
                self@.registry.scopes[scope.0].live(),
            ),
    {
        match self.registry.get(scope) {
            Some(found) => Some(found.live_process_ids()),
            None => None,
        }
    }

    /// Replacing a scope by a later state of itself that owns the same processes keeps the
    /// supervisor consistent.
    proof fn lemma_same_owners(before: Self, after: Self, scope: u64)
        requires
            before.wf(),
            after.registry.wf(),
            before@.registry.scopes.contains_key(scope),
            after@.registry == before@.registry.with(scope, after@.registry.scopes[scope]),
            after@.registry.scopes[scope].processes.dom()
                == before@.registry.scopes[scope].processes.dom(),
            after@.outputs == before@.outputs,
            after@.completed == before@.completed,
            after@.reports == before@.reports,
            after@.completed_scopes == before@.completed_scopes,
            after@.pending == before@.pending,
            after@.scoped == before@.scoped,
            after@.completed_scoped == before@.completed_scoped,
            after@.os_pids == before@.os_pids,
            after@.samples == before@.samples,
        ensures
            after.wf(),
            forall|id: u64, pid: u64| #[trigger]
                after@.registry.owns(id, pid) <==> before@.registry.owns(id, pid),
    {
        after.registry.lemma_wf();
        assert forall|id: u64, pid: u64| #[trigger]
            after@.registry.owns(id, pid) <==> before@.registry.owns(id, pid) by {}
        assert(after@.registry.scopes.dom() =~= before@.registry.scopes.dom());
        assert(after@.scoped_wf());
        assert(after@.reports_wf());
    }

    /// The owner of a process is the one scope that owns it.
    proof fn lemma_owner(self, id: u64, pid: ProcessId)
        requires
            self@.registry.exclusive(),
            self@.registry.owns(id, pid.0),
        ensures
            self@.owned(pid),
            self@.owner(pid) == id,
            self@.process(pid) == self@.registry.scopes[id].processes[pid.0],
    {
        assert(self@.registry.owns(self@.owner(pid), pid.0));
    }

    /// Borrows an owned process together with the scope that owns it.
    fn find(&self, pid: ProcessId) -> (found: Option<(ProcessScopeId, &Process)>)
        requires
            self.wf(),
        ensures
            found is Some <==> self@.owned(pid),
            found matches Some((scope, process)) ==> {
                &&& scope.0 == self@.owner(pid)
                &&& self@.registry.owns(scope.0, pid.0)
                &&& process@ == self@.process(pid)
            },
    {
        match self.registry.scope_of(pid) {
            Some(scope) => {
                proof {
                    self.lemma_owner(scope.0, pid);
                }
                match self.registry.get(scope) {
                    Some(owner) => match owner.get(pid) {
                        Some(process) => Some((scope, process)),
                        None => None,
                    },
                    None => None,
                }
            },
            None => None,
        }
    }

    /// The OS PID of a managed process, for read-only observation.
    ///
    /// Not proof that the process is still alive. The identity stays available after a natural
    /// exit while the process is among the most recent attachments.
    #[must_use]
    pub fn os_pid(&self, pid: ProcessId) -> (os_pid: Option<u32>)
        requires
            self.wf(),
        ensures
            os_pid == (if self@.owned(pid) {
                Some(self@.process(pid).os.pid)
            } else if self@.os_pids.by_pid.contains_key(pid.0) {
                Some(self@.os_pids.by_pid[pid.0])
            } else {
                None
            }),
            os_pid == self@.told_os_pid(pid),
    {
        match self.find(pid) {
            Some((_, process)) => Some(process.os_identity().pid),
            None => self.os_pids.get(pid),
        }
    }

    /// The most recent interval sample of a live process.
    ///
    /// # Errors
    /// Returns [`StatsError::UnknownProcess`] for a process that is not owned or not alive,
    /// [`StatsError::NotReady`] until the first observation, or the last sampling error.
    pub fn stats(&self, pid: ProcessId) -> (result: Result<ProcessStats, StatsError>)
        requires
            self.wf(),
        ensures
            result == (if !self@.alive(pid) {
                Err(StatsError::UnknownProcess(pid))
            } else if self@.samples.contains_key(pid.0) {
                self@.samples[pid.0]
            } else {
                Err(StatsError::NotReady(pid))
            }),
            result matches Ok(stats) ==> stats.pid == pid,
            result == self@.told_stats(pid),
    {
        let live = match self.find(pid) {
            Some((_, process)) => process.state().is_live(),
            None => false,
        };
        if !live {
            return Err(StatsError::UnknownProcess(pid));
        }
        match self.samples.get(pid.0) {
            Some(sample) => match sample {
                Ok(stats) => Ok(*stats),
                Err(error) => Err(error.clone()),
            },
            None => Err(StatsError::NotReady(pid)),
        }
    }

    /// What a `wait` for `pid` is answered with, given the exit its waiters recorded, or
    /// `None` when the exit has to be awaited.
    ///
    /// # Errors
    /// Returns [`WaitError::UnknownProcess`] if the process is not owned and has no recorded
    /// exit.
    #[must_use]
    pub fn wait_answer(&self, pid: ProcessId, recorded: Option<ProcessExit>) -> (answer: Option<
        Result<ProcessExit, WaitError>,
    >)
        requires
            self.wf(),
        ensures
            answer == (match recorded {
                Some(exit) => Some(Ok(exit)),
                None => if !self@.owned(pid) {
                    Some(Err(WaitError::UnknownProcess(pid)))
                } else {
                    match self@.process(pid).exit {
                        Some(exit) => Some(Ok(exit)),
                        None => None,
                    }
                },
            }),
            answer == self@.told_exit(pid, recorded),
    {
        if let Some(exit) = recorded {
            return Some(Ok(exit));
        }
        match self.find(pid) {
            None => Some(Err(WaitError::UnknownProcess(pid))),
            Some((_, process)) => match process.exit() {
                Some(exit) => Some(Ok(exit)),
                None => None,
            },
        }
    }

    /// Transfers the capture observer to the caller, at most once per process. A claimed
    /// capture no longer takes part in the bounded history of completed captures.
    pub fn take_output(&mut self, pid: ProcessId) -> (output: Option<O>)
        requires
            old(self).wf(),
        ensures
            final(self)@ == old(self)@.output_taken(pid),
            output is Some <==> old(self)@.outputs.contains_key(pid.0),
            output matches Some(handle) ==> handle == old(self)@.outputs[pid.0],
            final(self).wf(),
    {
        let output = self.outputs.remove(pid.0);
        forget(&mut self.completed, pid.0);
        proof {
            crate::supervision::history::lemma_forget(old(self)@.completed, pid.0);
            assert(self@ =~= old(self)@.output_taken(pid));
            assert(self@.captures_wf());
        }
        output
    }

    /// Takes the capture of `pid` back from a caller that has no more use for it.
    pub fn return_output(&mut self, pid: ProcessId, output: O)
        requires
            old(self).wf(),
        ensures
            final(self)@ == old(self)@.output_returned(pid, output),
            final(self).wf(),
    {
        let ended = match self.find(pid) {
            Some((_, process)) => process.is_settled(),
            None => true,
        };
        self.outputs.insert(pid.0, output);
        assert(self@ =~= SupervisorView {
            outputs: old(self)@.outputs.insert(pid.0, output),
            ..old(self)@
        });
        if ended {
            self.retain_completed_output(pid);
        }
    }

    /// Lets the unclaimed capture of a completed process join the bounded history, which
    /// drops its oldest capture when it is full.
    fn retain_completed_output(&mut self, pid: ProcessId)
        requires
            old(self).wf(),
        ensures
            final(self)@ == old(self)@.output_retained(pid),
            final(self).wf(),
    {
        if self.outputs.contains(pid.0) && !holds(&self.completed, pid.0) {
            let ghost before = self@;
            proof {
                crate::supervision::history::lemma_push_recent(before.completed, pid.0);
            }
            let evicted = push_recent(&mut self.completed, pid.0);
            if let Some(oldest) = evicted {
                assert(before.completed.contains(before.completed[0]));
                assert(before.completed.to_set().contains(before.completed[0]));
                self.outputs.remove(oldest);
            }
            assert(self@ =~= before.output_retained(pid));
            assert(self@.captures_wf()) by {
                assert forall|key: u64| self@.completed.to_set().contains(key) implies
                    self@.outputs.dom().contains(key) by {
                    if key != pid.0 {
                        assert(before.completed.to_set().contains(key));
                    }
                }
            }
        }
    }

    /// Forgets a process once its verified reap was dispatched.
    pub fn prune_after(&mut self, event: DomainEvent)
        requires
            old(self).wf(),
        ensures
            final(self).wf(),
            final(self)@ == (SupervisorView {
                registry: crate::supervision::dispatch::pruned_after(old(self)@.registry, event),
                ..old(self)@
            }),
    {
        let ghost before = old(self)@;
        self.registry.prune_after(event);
        proof {
            let after = SupervisorView {
                registry: crate::supervision::dispatch::pruned_after(before.registry, event),
                ..before
            };
            assert(self@ =~= after);
            self.registry.lemma_wf();
            assert(after.registry.scopes.dom() =~= before.registry.scopes.dom());
            assert forall|id: u64, pid: u64| #[trigger]
                after.registry.owns(id, pid) implies before.registry.owns(id, pid) by {}
            assert(after.registry.exclusive());
            assert(after.reports_wf());
            assert(after.scoped_wf());
        }
    }

    /// Files `outcome` for a process of a scope under termination, over anything gathered
    /// before.
    fn record_outcome(
        &mut self,
        scope: ProcessScopeId,
        pid: ProcessId,
        outcome: TerminationOutcome,
    )
        requires
            old(self).wf(),
            old(self)@.registry.scopes.contains_key(scope.0),
        ensures
            final(self)@ == old(self)@.outcome_recorded(scope, pid, outcome),
            final(self).wf(),
    {
        let mut outcomes = match self.pending.remove(scope.0) {
            Some(outcomes) => outcomes,
            None => Table::new(),
        };
        outcomes.insert(pid.0, outcome);
        self.pending.insert(scope.0, outcomes);
        assert(self@.pending =~= old(self)@.outcome_recorded(scope, pid, outcome).pending);
        assert(self@ =~= old(self)@.outcome_recorded(scope, pid, outcome));
    }
}

} // verus!
