//! Scoped blocks: cleanup on every way out, and access to what the block started.
use vstd::prelude::*;
use vstd::string::StringExecFns;
use crate::domain::ids::{ProcessId, ProcessScopeId};
use crate::domain::table::Table;
use crate::supervision::error::{SpawnError, TerminateError};
use crate::supervision::report::{CleanupView, ScopeTerminationReport};
use crate::supervision::supervisor::ProcessSupervisor;

verus! {

/// Where the cleanup of a scoped block is published to its observers.
#[derive(Debug)]
pub struct CleanupSlot {
    current: Option<Result<ScopeTerminationReport, TerminateError>>,
}

impl View for CleanupSlot {
    type V = Option<CleanupView>;

    closed spec fn view(&self) -> Option<CleanupView> {
        match self.current {
            Some(result) => Some(crate::supervision::report::cleanup(result)),
            None => None,
        }
    }
}

/// The slot holds a verified cleanup.
pub open spec fn slot_verified(slot: Option<CleanupView>) -> bool {
    slot is Some && slot->0.verified()
}

/// After `result` was published: a verified cleanup is never replaced.
pub open spec fn published(slot: Option<CleanupView>, result: CleanupView) -> Option<CleanupView> {
    if slot_verified(slot) {
        slot
    } else {
        Some(result)
    }
}

impl CleanupSlot {
    /// A slot that nothing was published to.
    #[must_use]
    pub fn new() -> (slot: Self)
        ensures
            slot@ is None,
    {
        CleanupSlot { current: None }
    }

    /// What was published last.
    #[must_use]
    pub fn current(&self) -> (current: Option<Result<ScopeTerminationReport, TerminateError>>)
        ensures
            match current {
                Some(result) => self@ == Some(crate::supervision::report::cleanup(result)),
                None => self@ is None,
            },
    {
        match &self.current {
            None => None,
            Some(Ok(report)) => Some(Ok(report.clone())),
            Some(Err(error)) => Some(Err(error.clone())),
        }
    }

    /// The verified report in the slot, if there is one.
    #[must_use]
    pub fn verified_report(&self) -> (report: Option<ScopeTerminationReport>)
        ensures
            match report {
                Some(found) => found@.verified() && self@ == Some(CleanupView::Reported(found@)),
                None => !slot_verified(self@),
            },
    {
        match &self.current {
            Some(Ok(report)) => if report.all_verified() {
                Some(report.clone())
            } else {
                None
            },
            _ => None,
        }
    }

    /// Publishes `result`, unless the slot already holds a verified cleanup. Answers whether
    /// the slot changed.
    pub fn publish(&mut self, result: Result<ScopeTerminationReport, TerminateError>) -> (changed:
        bool)
        ensures
            final(self)@ == published(old(self)@, crate::supervision::report::cleanup(result)),
            changed == !slot_verified(old(self)@),
    {
        if self.verified_report().is_some() {
            return false;
        }
        self.current = Some(result);
        true
    }
}

/// What a finished cleanup of a scoped block is to be published as, and whether the scope has
/// to be killed before: whenever its cleanup is not verified. A verified cleanup in the slot
/// stands, whatever `result` says.
#[must_use]
pub fn settle_cleanup(
    slot: &CleanupSlot,
    result: Result<ScopeTerminationReport, TerminateError>,
) -> (settled: (Result<ScopeTerminationReport, TerminateError>, bool))
    ensures
        Some(crate::supervision::report::cleanup(settled.0)) == published(
            slot@,
            crate::supervision::report::cleanup(result),
        ),
        settled.1 == !crate::supervision::report::cleanup(settled.0).verified(),
{
    match slot.verified_report() {
        Some(report) => (Ok(report), false),
        None => {
            let verified = match &result {
                Ok(report) => report.all_verified(),
                Err(_) => false,
            };
            (result, !verified)
        },
    }
}

/// What the interruption of a cleanup is to be published as, after killing the scope, or
/// `None` when the slot holds a verified cleanup and nothing is left to do.
#[must_use]
pub fn interrupted_cleanup(slot: &CleanupSlot) -> (failure: Option<TerminateError>)
    ensures
        failure is None <==> slot_verified(slot@),
        failure matches Some(error) ==> (error matches TerminateError::Signal(cause) && cause@
            == "scope cleanup interrupted or unverified; synchronous backstop issued"@),
{
    if slot.verified_report().is_some() {
        None
    } else {
        Some(
            TerminateError::Signal(
                String::from_str(
                    "scope cleanup interrupted or unverified; synchronous backstop issued",
                ),
            ),
        )
    }
}

/// The error of a cleanup whose worker died for `cause`.
#[must_use]
pub fn cleanup_failure(cause: &str) -> (error: TerminateError)
    ensures
        error matches TerminateError::Signal(text) && text@ == "scope cleanup worker failed: "@
            + cause@,
{
    let mut text = String::from_str("scope cleanup worker failed: ");
    text.append(cause);
    TerminateError::Signal(text)
}

/// The error of a cleanup that nobody will publish any more.
#[must_use]
pub fn cleanup_stopped() -> (error: TerminateError)
    ensures
        error matches TerminateError::Signal(text) && text@ == "scope cleanup worker stopped"@,
{
    TerminateError::Signal(String::from_str("scope cleanup worker stopped"))
}

/// The processes started for a scoped block, up to the first failure.
#[derive(Debug)]
pub struct ScopedSpawns {
    processes: Vec<ProcessId>,
    error: Option<SpawnError>,
}

impl ScopedSpawns {
    /// The started processes, in order.
    pub closed spec fn started(self) -> Seq<ProcessId> {
        self.processes@
    }

    /// The first failure.
    pub closed spec fn failure(self) -> Option<SpawnError> {
        self.error
    }

    /// Nothing was started yet.
    #[must_use]
    pub fn new() -> (spawns: Self)
        ensures
            spawns.started() == Seq::<ProcessId>::empty(),
            spawns.failure() is None,
    {
        ScopedSpawns { processes: Vec::new(), error: None }
    }

    /// Notes one start. Answers whether to go on: the first failure ends the series, and what
    /// comes after it is not noted.
    pub fn record(&mut self, started: Result<ProcessId, SpawnError>) -> (go_on: bool)
        ensures
            go_on == (old(self).failure() is None && started is Ok),
            final(self).started() == (if go_on {
                old(self).started().push(started->Ok_0)
            } else {
                old(self).started()
            }),
            final(self).failure() == (if old(self).failure() is Some {
                old(self).failure()
            } else {
                match started {
                    Ok(_) => None,
                    Err(error) => Some(error),
                }
            }),
    {
        if self.error.is_some() {
            return false;
        }
        match started {
            Ok(pid) => {
                self.processes.push(pid);
                true
            },
            Err(error) => {
                self.error = Some(error);
                false
            },
        }
    }

    /// The access of the block to its processes, unless one could not be started.
    ///
    /// # Errors
    /// Returns the first failure.
    pub fn into_processes(self, scope: ProcessScopeId) -> (result: Result<
        ScopedProcesses,
        SpawnError,
    >)
        ensures
            match result {
                Ok(processes) => {
                    &&& self.failure() is None
                    &&& processes.scope() == scope
                    &&& processes.started() == self.started()
                    &&& processes.authorized() =~= crate::domain::scope::raw_ids(
                        self.started(),
                    ).to_set()
                },
                Err(error) => self.failure() == Some(error),
            },
    {
        match self.error {
            Some(error) => Err(error),
            None => {
                let mut owned: Table<()> = Table::new();
                let ghost raw = crate::domain::scope::raw_ids(self.processes@);
                let mut i: usize = 0;
                assert(raw.take(0).to_set() =~= Set::empty());
                while i < self.processes.len()
                    invariant
                        i <= self.processes@.len(),
                        raw == crate::domain::scope::raw_ids(self.processes@),
                        owned@.dom() == raw.take(i as int).to_set(),
                    decreases self.processes@.len() - i,
                {
                    let pid = self.processes[i];
                    proof {
                        assert(raw.take(i + 1) =~= raw.take(i as int).push(pid.0));
                        crate::supervision::history::lemma_pushed_members(
                            raw.take(i as int),
                            pid.0,
                        );
                    }
                    owned.insert(pid.0, ());
                    assert(owned@.dom() =~= raw.take(i + 1).to_set());
                    i = i + 1;
                }
                assert(raw.take(i as int) =~= raw);
                Ok(ScopedProcesses { scope, processes: self.processes, owned })
            },
        }
    }
}

/// The access of a scoped block to the processes of its fresh scope.
#[derive(Debug)]
pub struct ScopedProcesses {
    scope: ProcessScopeId,
    processes: Vec<ProcessId>,
    owned: Table<()>,
}

impl ScopedProcesses {
    /// The scope of the block.
    pub closed spec fn scope(self) -> ProcessScopeId {
        self.scope
    }

    /// The processes that were started for the block.
    pub closed spec fn started(self) -> Seq<ProcessId> {
        self.processes@
    }

    /// The processes that the block may observe.
    pub closed spec fn authorized(self) -> Set<u64> {
        self.owned@.dom()
    }

    /// The scope of the block.
    #[must_use]
    pub fn id(&self) -> (scope: ProcessScopeId)
        ensures
            scope == self.scope(),
    {
        self.scope
    }

    /// The processes that were started for the block.
    #[must_use]
    pub fn processes(&self) -> (processes: &Vec<ProcessId>)
        ensures
            processes@ == self.started(),
    {
        &self.processes
    }

    /// The processes that the block may observe, ascending.
    #[must_use]
    pub fn authorized_ids(&self) -> (ids: Vec<ProcessId>)
        ensures
            crate::domain::table::lists(
                crate::domain::scope::raw_ids(ids@),
                self.authorized(),
            ),
    {
        let keys: Vec<u64> = self.owned.keys();
        let mut ids: Vec<ProcessId> = Vec::new();
        let mut i: usize = 0;
        while i < keys.len()
            invariant
                i <= keys@.len(),
                crate::domain::scope::raw_ids(ids@) == keys@.take(i as int),
            decreases keys@.len() - i,
        {
            let ghost before = crate::domain::scope::raw_ids(ids@);
            ids.push(ProcessId(keys[i]));
            assert(crate::domain::scope::raw_ids(ids@) =~= before.push(keys@[i as int]));
            assert(keys@.take(i + 1) =~= keys@.take(i as int).push(keys@[i as int]));
            i = i + 1;
        }
        assert(keys@.take(i as int) =~= keys@);
        ids
    }

    /// How many processes the block may observe.
    #[must_use]
    pub fn authorized_len(&self) -> (count: usize)
        ensures
            count == self.authorized().len(),
    {
        self.owned.len()
    }

    /// Lets the block observe another process of its scope.
    pub fn authorize(&mut self, pid: ProcessId)
        ensures
            final(self).scope() == old(self).scope(),
            final(self).started() == old(self).started(),
            final(self).authorized() == old(self).authorized().insert(pid.0),
    {
        self.owned.insert(pid.0, ());
        assert(self.authorized() =~= old(self).authorized().insert(pid.0));
    }

    /// Whether the block may observe `pid`.
    #[must_use]
    pub fn is_authorized(&self, pid: ProcessId) -> (authorized: bool)
        ensures
            authorized == self.authorized().contains(pid.0),
    {
        self.owned.contains(pid.0)
    }

    /// Keeps a process observable only while the scope owns it, its capture is unclaimed, or
    /// its exit is still on record. `recorded` names the processes with an exit on record.
    pub fn retain_observable<O>(&mut self, supervision: &ProcessSupervisor<O>, recorded: &Vec<ProcessId>)
        requires
            supervision.wf(),
        ensures
            final(self).scope() == old(self).scope(),
            final(self).started() == old(self).started(),
            final(self).authorized() =~= old(self).authorized().filter(
                |pid: u64|
                    {
                        ||| supervision@.registry.owns(old(self).scope().0, pid)
                        ||| supervision@.outputs.contains_key(pid)
                        ||| recorded@.contains(ProcessId(pid))
                    },
            ),
    {
        let ghost scope = self.scope;
        let ghost observable = |pid: u64|
            {
                ||| supervision@.registry.owns(scope.0, pid)
                ||| supervision@.outputs.contains_key(pid)
                ||| recorded@.contains(ProcessId(pid))
            };
        let ghost before = self.authorized();
        let keys: Vec<u64> = self.owned.keys();
        let mut i: usize = 0;
        assert(before.filter(|pid: u64| !keys@.take(0).contains(pid) || observable(pid))
            =~= before);
        while i < keys.len()
            invariant
                i <= keys@.len(),
                supervision.wf(),
                scope == self.scope,
                self.scope == old(self).scope(),
                self.processes@ == old(self).started(),
                crate::domain::table::lists(keys@, before),
                observable == (|pid: u64|
                    {
                        ||| supervision@.registry.owns(scope.0, pid)
                        ||| supervision@.outputs.contains_key(pid)
                        ||| recorded@.contains(ProcessId(pid))
                    }),
                self.authorized() == before.filter(
                    |pid: u64| !keys@.take(i as int).contains(pid) || observable(pid),
                ),
            decreases keys@.len() - i,
        {
            let pid = ProcessId(keys[i]);
            let ghost had = self.authorized();
            proof {
                assert(keys@.contains(keys@[i as int]));
                let seen = keys@.take(i as int);
                assert(keys@.take(i + 1) =~= seen.push(pid.0));
                crate::supervision::history::lemma_pushed_members(seen, pid.0);
                assert forall|other: u64| #[trigger]
                    keys@.take(i + 1).contains(other) <==> seen.contains(other) || other
                    == pid.0 by {
                    assert(keys@.take(i + 1).to_set().contains(other) <==> seen.to_set().insert(
                        pid.0,
                    ).contains(other));
                }
            }
            let owned = match supervision.registry.get(self.scope) {
                Some(scope) => scope.contains(pid),
                None => false,
            };
            let keep = owned || supervision.outputs.contains(pid.0) || names(recorded, pid);
            assert(keep == observable(pid.0));
            if !keep {
                self.owned.remove(pid.0);
            }
            assert(self.authorized() =~= before.filter(
                |pid: u64| !keys@.take(i + 1).contains(pid) || observable(pid),
            ));
            i = i + 1;
        }
        proof {
            assert(keys@.take(i as int) =~= keys@);
            assert(self.authorized() =~= before.filter(observable)) by {
                assert forall|pid: u64| before.contains(pid) implies keys@.contains(pid) by {}
            }
        }
    }
}

/// Whether `pids` names `pid`.
fn names(pids: &Vec<ProcessId>, pid: ProcessId) -> (named: bool)
    ensures
        named == pids@.contains(pid),
{
    let mut i: usize = 0;
    while i < pids.len()
        invariant
            i <= pids@.len(),
            forall|j: int| 0 <= j < i ==> pids@[j] != pid,
        decreases pids@.len() - i,
    {
        if pids[i].0 == pid.0 {
            assert(pids@[i as int] == pid);
            return true;
        }
        i = i + 1;
    }
    false
}

} // verus!
