//! The `ProcessScope` aggregate root: the unit of ownership and consistency boundary.
use vstd::prelude::*;
use crate::domain::error::{DomainError, InvalidTransition};
use crate::domain::event::DomainEvent;
use crate::domain::exit::ProcessExit;
use crate::domain::ids::{ProcessId, ProcessScopeId};
use crate::domain::lifecycle::ScopeState;
use crate::domain::os::OsIdentity;
use crate::domain::process::{Process, ProcessView};
use crate::domain::spec::ProcessSpec;
use crate::domain::table::Table;

verus! {

/// The raw numbers of process identifiers.
pub open spec fn raw_ids(ids: Seq<ProcessId>) -> Seq<u64> {
    Seq::new(ids.len(), |i: int| ids[i].0)
}

/// The events that ask each of `pids` to stop.
pub open spec fn requests(scope: ProcessScopeId, pids: Seq<u64>) -> Seq<DomainEvent> {
    Seq::new(
        pids.len(),
        |i: int| DomainEvent::TerminationRequested { scope, pid: ProcessId(pids[i]) },
    )
}

/// What there is to know about a scope.
#[verifier::ext_equal]
pub struct ScopeView {
    /// The scope's identity.
    pub id: ProcessScopeId,
    /// The scope's state.
    pub state: ScopeState,
    /// The owned processes by raw identifier.
    pub processes: Map<u64, ProcessView>,
}

impl ScopeView {
    /// A scope that was just created.
    pub open spec fn fresh(id: ProcessScopeId) -> ScopeView {
        ScopeView { id, state: ScopeState::Open, processes: Map::empty() }
    }

    /// Every owned process is filed under its own identity and is well formed, and a closed
    /// scope owns nothing whose cleanup is unverified.
    pub open spec fn wf(self) -> bool {
        &&& self.processes.dom().finite()
        &&& forall|pid: u64| #[trigger]
            self.processes.contains_key(pid) ==> self.processes[pid].id.0 == pid
                && self.processes[pid].wf()
        &&& self.state is Closed ==> self.all_settled()
    }

    /// Every owned process has a verified exit.
    pub open spec fn all_settled(self) -> bool {
        forall|pid: u64| #[trigger]
            self.processes.contains_key(pid) ==> self.processes[pid].settled()
    }

    /// The owned processes that are still alive.
    pub open spec fn live(self) -> Set<u64> {
        self.processes.dom().filter(|pid: u64| self.processes[pid].state.live())
    }

    /// The owned processes that a termination of the scope asks to stop.
    pub open spec fn stoppable(self) -> Set<u64> {
        self.processes.dom().filter(|pid: u64| self.processes[pid].can_request())
    }

    /// What attaching `pid` answers.
    pub open spec fn attach_result(self, pid: ProcessId) -> Result<DomainEvent, DomainError> {
        if !(self.state is Open) {
            Err(DomainError::ScopeClosed(self.id))
        } else if self.processes.contains_key(pid.0) {
            Err(
                DomainError::InvalidTransition(
                    InvalidTransition { from: "owned", event: "attach duplicate process" },
                ),
            )
        } else {
            Ok(DomainEvent::ProcessSpawned { scope: self.id, pid })
        }
    }

    /// With `process` filed under `pid`.
    pub open spec fn with(self, pid: ProcessId, process: ProcessView) -> ScopeView {
        ScopeView { processes: self.processes.insert(pid.0, process), ..self }
    }

    /// After termination of the scope began.
    pub open spec fn draining(self) -> ScopeView {
        ScopeView {
            state: if self.state is Open {
                ScopeState::Draining
            } else {
                self.state
            },
            processes: self.processes.map_values(|process: ProcessView| process.requested()),
            ..self
        }
    }

    /// After a reap of the owned process `pid` with `exit`: a draining scope closes with the
    /// reap that leaves only verified exits behind.
    pub open spec fn reaped(self, pid: ProcessId, exit: ProcessExit) -> ScopeView {
        let next = self.with(pid, self.processes[pid.0].reaped(exit));
        if self.closes_on(pid, exit) {
            ScopeView { state: ScopeState::Closed, ..next }
        } else {
            next
        }
    }

    /// A reap of `pid` with `exit` closes the scope.
    pub open spec fn closes_on(self, pid: ProcessId, exit: ProcessExit) -> bool {
        &&& self.processes[pid.0].can_reap(exit)
        &&& self.state is Draining
        &&& self.with(pid, self.processes[pid.0].reaped(exit)).all_settled()
    }

    /// The events of a reap of the owned process `pid` with `exit`.
    pub open spec fn reap_events(self, pid: ProcessId, exit: ProcessExit) -> Seq<DomainEvent> {
        if !self.processes[pid.0].can_reap(exit) {
            Seq::empty()
        } else if self.closes_on(pid, exit) {
            seq![
                DomainEvent::ProcessReaped { scope: self.id, pid, exit },
                DomainEvent::ScopeClosed { scope: self.id },
            ]
        } else {
            seq![DomainEvent::ProcessReaped { scope: self.id, pid, exit }]
        }
    }

    /// After pruning `pid`: only a process with a verified exit is forgotten.
    pub open spec fn pruned(self, pid: ProcessId) -> ScopeView {
        if self.processes.contains_key(pid.0) && self.processes[pid.0].settled() {
            ScopeView { processes: self.processes.remove(pid.0), ..self }
        } else {
            self
        }
    }
}

/// The aggregate root for a set of supervised processes sharing one lifetime.
///
/// All mutation of the contained [`Process`] entities flows through this root, which
/// enforces the ownership invariants:
///
/// * a process belongs to exactly one scope and cannot move;
/// * a draining/closed scope never accepts new processes;
/// * terminating this scope can never affect another scope (a scope only ever touches
///   processes in its own map).
///
/// Methods **return** [`DomainEvent`]s rather than dispatching them.
#[derive(Debug)]
pub struct ProcessScope {
    id: ProcessScopeId,
    state: ScopeState,
    processes: Table<Process>,
}

impl View for ProcessScope {
    type V = ScopeView;

    closed spec fn view(&self) -> ScopeView {
        ScopeView {
            id: self.id,
            state: self.state,
            processes: self.processes@.map_values(|process: Process| process@),
        }
    }
}

impl ProcessScope {
    /// Creates a new, open scope.
    #[must_use]
    pub fn new(id: ProcessScopeId) -> (scope: Self)
        ensures
            scope@ == ScopeView::fresh(id),
            scope@.wf(),
    {
        let scope = Self { id, state: ScopeState::Open, processes: Table::new() };
        assert(scope@ =~= ScopeView::fresh(id));
        scope
    }

    /// The scope's identity.
    #[must_use]
    pub fn id(&self) -> (id: ProcessScopeId)
        ensures
            id == self@.id,
    {
        self.id
    }

    /// The current scope state.
    #[must_use]
    pub fn state(&self) -> (state: ScopeState)
        ensures
            state == self@.state,
    {
        self.state
    }

    /// Whether the scope will accept new processes.
    #[must_use]
    pub fn is_open(&self) -> (open: bool)
        ensures
            open == (self@.state is Open),
    {
        self.state.accepts_processes()
    }

    /// Whether the scope is closed (terminal).
    #[must_use]
    pub fn is_closed(&self) -> (closed: bool)
        ensures
            closed == (self@.state is Closed),
    {
        matches!(self.state, ScopeState::Closed)
    }

    /// Borrows a contained process, if present.
    #[must_use]
    pub fn get(&self, pid: ProcessId) -> (process: Option<&Process>)
        ensures
            process is Some <==> self@.processes.contains_key(pid.0),
            process matches Some(found) ==> found@ == self@.processes[pid.0],
    {
        self.processes.get(pid.0)
    }

    /// Whether the scope owns `pid`.
    #[must_use]
    pub fn contains(&self, pid: ProcessId) -> (owned: bool)
        ensures
            owned == self@.processes.contains_key(pid.0),
    {
        self.processes.contains(pid.0)
    }

    /// All process ids currently tracked (including terminal ones not yet pruned), ascending.
    #[must_use]
    pub fn process_ids(&self) -> (ids: Vec<ProcessId>)
        ensures
            crate::domain::table::lists(raw_ids(ids@), self@.processes.dom()),
    {
        let keys: Vec<u64> = self.processes.keys();
        let mut ids: Vec<ProcessId> = Vec::new();
        let mut i: usize = 0;
        while i < keys.len()
            invariant
                i <= keys.len(),
                raw_ids(ids@) == keys@.take(i as int),
            decreases keys.len() - i,
        {
            let ghost before = raw_ids(ids@);
            ids.push(ProcessId(keys[i]));
            assert(raw_ids(ids@) =~= before.push(keys@[i as int]));
            assert(keys@.take(i + 1) =~= keys@.take(i as int).push(keys@[i as int]));
            i = i + 1;
        }
        assert(keys@.take(i as int) == keys@);
        assert(self.processes@.dom() =~= self@.processes.dom());
        ids
    }

    /// Ids of processes that are still alive, ascending.
    #[must_use]
    pub fn live_process_ids(&self) -> (ids: Vec<ProcessId>)
        ensures
            crate::domain::table::lists(raw_ids(ids@), self@.live()),
    {
        let keys: Vec<u64> = self.processes.keys();
        let ghost alive = |pid: u64| self@.processes[pid].state.live();
        let mut ids: Vec<ProcessId> = Vec::new();
        let mut i: usize = 0;
        assert(keys@.take(0).filter(alive) =~= Seq::empty()) by {
            reveal(Seq::filter);
        }
        while i < keys.len()
            invariant
                i <= keys.len(),
                alive == (|pid: u64| self@.processes[pid].state.live()),
                crate::domain::table::lists(keys@, self.processes@.dom()),
                raw_ids(ids@) == keys@.take(i as int).filter(alive),
            decreases keys.len() - i,
        {
            let ghost before = raw_ids(ids@);
            let key = keys[i];
            proof {
                assert(keys@.contains(keys@[i as int]));
                crate::domain::table::lemma_filter_step(keys@, i as int, alive);
            }
            let live = match self.processes.get(key) {
                Some(process) => process.state().is_live(),
                None => false,
            };
            if live {
                ids.push(ProcessId(key));
                assert(raw_ids(ids@) =~= before.push(key));
            }
            i = i + 1;
        }
        proof {
            assert(keys@.take(i as int) =~= keys@);
            crate::domain::table::lemma_filtered_lists(keys@, self.processes@.dom(), alive);
            assert(self.processes@.dom().filter(alive) =~= self@.live());
        }
        ids
    }

    /// Whether any tracked process is still alive.
    #[must_use]
    pub fn has_live_processes(&self) -> (live: bool)
        ensures
            live == !(self@.live() =~= Set::empty()),
    {
        let ids: Vec<ProcessId> = self.live_process_ids();
        if ids.len() == 0 {
            assert forall|pid: u64| !self@.live().contains(pid) by {
                assert(!raw_ids(ids@).contains(pid));
            }
        } else {
            assert(raw_ids(ids@).contains(raw_ids(ids@)[0]));
            assert(self@.live().contains(ids@[0].0));
        }
        ids.len() > 0
    }

    /// Attaches a freshly spawned process to this scope.
    ///
    /// # Errors
    /// Returns [`DomainError::ScopeClosed`] if the scope is not open, and
    /// [`DomainError::InvalidTransition`] if it already owns `pid`.
    pub fn attach_spawned(
        &mut self,
        pid: ProcessId,
        os: OsIdentity,
        spec: ProcessSpec,
    ) -> (result: Result<DomainEvent, DomainError>)
        requires
            old(self)@.wf(),
        ensures
            final(self)@.wf(),
            result == old(self)@.attach_result(pid),
            final(self)@ == (if result is Ok {
                old(self)@.with(pid, ProcessView::running(pid, os, spec))
            } else {
                old(self)@
            }),
    {
        if !self.state.accepts_processes() {
            return Err(DomainError::ScopeClosed(self.id));
        }
        if self.processes.contains(pid.0) {
            return Err(
                DomainError::InvalidTransition(
                    InvalidTransition { from: "owned", event: "attach duplicate process" },
                ),
            );
        }
        self.processes.insert(pid.0, Process::running(pid, os, spec));
        assert(self@ =~= old(self)@.with(pid, ProcessView::running(pid, os, spec)));
        Ok(DomainEvent::ProcessSpawned { scope: self.id, pid })
    }

    /// Requests graceful termination of a single owned process.
    ///
    /// Returns the event only when this call actually initiated termination (idempotent).
    ///
    /// # Errors
    /// Returns [`DomainError::UnknownProcess`] if `pid` is not owned by this scope.
    pub fn request_termination(&mut self, pid: ProcessId) -> (result: Result<
        Vec<DomainEvent>,
        DomainError,
    >)
        requires
            old(self)@.wf(),
        ensures
            final(self)@.wf(),
            match result {
                Ok(events) => {
                    &&& old(self)@.processes.contains_key(pid.0)
                    &&& final(self)@ == old(self)@.with(
                        pid,
                        old(self)@.processes[pid.0].requested(),
                    )
                    &&& events@ == (if old(self)@.processes[pid.0].can_request() {
                        seq![DomainEvent::TerminationRequested { scope: old(self)@.id, pid }]
                    } else {
                        Seq::empty()
                    })
                },
                Err(error) => {
                    &&& !old(self)@.processes.contains_key(pid.0)
                    &&& error == DomainError::UnknownProcess(pid)
                    &&& final(self)@ == old(self)@
                },
            },
    {
        match self.processes.remove(pid.0) {
            None => {
                assert(self@ =~= old(self)@);
                Err(DomainError::UnknownProcess(pid))
            },
            Some(owned) => {
                let mut process = owned;
                let started = process.request_graceful();
                self.processes.insert(pid.0, process);
                assert(self@ =~= old(self)@.with(pid, old(self)@.processes[pid.0].requested()));
                let mut events: Vec<DomainEvent> = Vec::new();
                if started {
                    events.push(DomainEvent::TerminationRequested { scope: self.id, pid });
                }
                Ok(events)
            },
        }
    }

    /// Escalates a single owned process to forceful termination.
    ///
    /// # Errors
    /// Returns [`DomainError::UnknownProcess`] if `pid` is not owned by this scope.
    pub fn escalate_termination(&mut self, pid: ProcessId) -> (result: Result<(), DomainError>)
        requires
            old(self)@.wf(),
        ensures
            final(self)@.wf(),
            match result {
                Ok(_) => {
                    &&& old(self)@.processes.contains_key(pid.0)
                    &&& final(self)@ == old(self)@.with(
                        pid,
                        old(self)@.processes[pid.0].escalated(),
                    )
                },
                Err(error) => {
                    &&& !old(self)@.processes.contains_key(pid.0)
                    &&& error == DomainError::UnknownProcess(pid)
                    &&& final(self)@ == old(self)@
                },
            },
    {
        match self.processes.remove(pid.0) {
            None => {
                assert(self@ =~= old(self)@);
                Err(DomainError::UnknownProcess(pid))
            },
            Some(owned) => {
                let mut process = owned;
                process.escalate_to_force();
                self.processes.insert(pid.0, process);
                assert(self@ =~= old(self)@.with(pid, old(self)@.processes[pid.0].escalated()));
                Ok(())
            },
        }
    }

    /// Begins terminating the whole scope: transitions to draining and requests graceful
    /// termination of every live process. This only ever touches this scope's own processes.
    pub fn begin_scope_termination(&mut self) -> (events: Vec<DomainEvent>)
        requires
            old(self)@.wf(),
        ensures
            final(self)@.wf(),
            final(self)@ == old(self)@.draining(),
            exists|pids: Seq<u64>| #[trigger]
                crate::domain::table::lists(pids, old(self)@.stoppable()) && events@ == requests(
                    old(self)@.id,
                    pids,
                ),
    {
        if matches!(self.state, ScopeState::Open) {
            self.state = ScopeState::Draining;
        }
        let scope = self.id;
        let keys: Vec<u64> = self.processes.keys();
        let ghost before = self.processes@;
        let ghost stoppable = |pid: u64| before[pid]@.can_request();
        let mut events: Vec<DomainEvent> = Vec::new();
        let mut i: usize = 0;
        assert(keys@.take(0).filter(stoppable) =~= Seq::empty()) by {
            reveal(Seq::filter);
        }
        while i < keys.len()
            invariant
                i <= keys.len(),
                self.id == scope,
                old(self)@.id == scope,
                self.state == old(self)@.draining().state,
                stoppable == (|pid: u64| before[pid]@.can_request()),
                crate::domain::table::lists(keys@, before.dom()),
                self.processes@.dom() == before.dom(),
                forall|j: int|
                    0 <= j < i ==> self.processes@[#[trigger] keys@[j]]@
                        == before[keys@[j]]@.requested(),
                forall|j: int|
                    i <= j < keys.len() ==> self.processes@[#[trigger] keys@[j]]
                        == before[keys@[j]],
                events@ == requests(scope, keys@.take(i as int).filter(stoppable)),
            decreases keys.len() - i,
        {
            let key = keys[i];
            let ghost sent = keys@.take(i as int).filter(stoppable);
            proof {
                assert(keys@.contains(keys@[i as int]));
                crate::domain::table::lemma_filter_step(keys@, i as int, stoppable);
            }
            match self.processes.remove(key) {
                Some(owned) => {
                    let mut process = owned;
                    let started = process.request_graceful();
                    self.processes.insert(key, process);
                    if started {
                        events.push(
                            DomainEvent::TerminationRequested { scope, pid: ProcessId(key) },
                        );
                        assert(events@ =~= requests(scope, sent.push(key)));
                    }
                    assert(self.processes@.dom() =~= before.dom());
                },
                None => {
                    assert(false);
                },
            }
            i = i + 1;
        }
        proof {
            assert(keys@.take(i as int) =~= keys@);
            let pids = keys@.filter(stoppable);
            crate::domain::table::lemma_filtered_lists(keys@, before.dom(), stoppable);
            assert(before.dom().filter(stoppable) =~= old(self)@.stoppable());
            assert(crate::domain::table::lists(pids, old(self)@.stoppable()));
            assert forall|pid: u64| before.contains_key(pid) implies self.processes@[pid]@
                == before[pid]@.requested() by {
                assert(keys@.contains(pid));
                let at = keys@.index_of(pid);
                assert(keys@[at] == pid);
            }
            assert(self@.processes =~= old(self)@.draining().processes);
            assert(self@ =~= old(self)@.draining());
        }
        events
    }

    /// Records that an owned process was observed to have exited.
    ///
    /// # Errors
    /// Returns [`DomainError::UnknownProcess`] if `pid` is not owned by this scope.
    pub fn record_exit(&mut self, pid: ProcessId) -> (result: Result<
        Vec<DomainEvent>,
        DomainError,
    >)
        requires
            old(self)@.wf(),
        ensures
            final(self)@.wf(),
            match result {
                Ok(events) => {
                    &&& old(self)@.processes.contains_key(pid.0)
                    &&& final(self)@ == old(self)@.with(pid, old(self)@.processes[pid.0].exited())
                    &&& events@ == (if old(self)@.processes[pid.0].state.live() {
                        seq![DomainEvent::ProcessExited { scope: old(self)@.id, pid }]
                    } else {
                        Seq::empty()
                    })
                },
                Err(error) => {
                    &&& !old(self)@.processes.contains_key(pid.0)
                    &&& error == DomainError::UnknownProcess(pid)
                    &&& final(self)@ == old(self)@
                },
            },
    {
        match self.processes.remove(pid.0) {
            None => {
                assert(self@ =~= old(self)@);
                Err(DomainError::UnknownProcess(pid))
            },
            Some(owned) => {
                let mut process = owned;
                let changed = process.mark_exited();
                self.processes.insert(pid.0, process);
                assert(self@ =~= old(self)@.with(pid, old(self)@.processes[pid.0].exited()));
                let mut events: Vec<DomainEvent> = Vec::new();
                if changed {
                    events.push(DomainEvent::ProcessExited { scope: self.id, pid });
                }
                Ok(events)
            },
        }
    }

    /// Whether every tracked process has a verified exit.
    #[must_use]
    pub fn is_settled(&self) -> (settled: bool)
        ensures
            settled == self@.all_settled(),
    {
        let keys: Vec<u64> = self.processes.keys();
        let mut i: usize = 0;
        while i < keys.len()
            invariant
                i <= keys.len(),
                crate::domain::table::lists(keys@, self.processes@.dom()),
                forall|j: int| 0 <= j < i ==> self.processes@[#[trigger] keys@[j]]@.settled(),
            decreases keys.len() - i,
        {
            assert(keys@.contains(keys@[i as int]));
            let settled = match self.processes.get(keys[i]) {
                Some(process) => process.is_settled(),
                None => true,
            };
            if !settled {
                assert(self@.processes.contains_key(keys@[i as int]));
                return false;
            }
            i = i + 1;
        }
        assert forall|pid: u64| #[trigger]
            self@.processes.contains_key(pid) implies self@.processes[pid].settled() by {
            assert(keys@.contains(pid));
            let at = keys@.index_of(pid);
            assert(keys@[at] == pid);
        }
        true
    }

    /// Records that an owned process was reaped, storing its terminal exit. Closes the scope
    /// if it is draining and every tracked process now has a verified exit.
    ///
    /// # Errors
    /// Returns [`DomainError::UnknownProcess`] if `pid` is not owned by this scope.
    pub fn record_reaped(&mut self, pid: ProcessId, exit: ProcessExit) -> (result: Result<
        Vec<DomainEvent>,
        DomainError,
    >)
        requires
            old(self)@.wf(),
        ensures
            final(self)@.wf(),
            match result {
                Ok(events) => {
                    &&& old(self)@.processes.contains_key(pid.0)
                    &&& final(self)@ == old(self)@.reaped(pid, exit)
                    &&& events@ == old(self)@.reap_events(pid, exit)
                },
                Err(error) => {
                    &&& !old(self)@.processes.contains_key(pid.0)
                    &&& error == DomainError::UnknownProcess(pid)
                    &&& final(self)@ == old(self)@
                },
            },
    {
        match self.processes.remove(pid.0) {
            None => {
                assert(self@ =~= old(self)@);
                Err(DomainError::UnknownProcess(pid))
            },
            Some(owned) => {
                let mut process = owned;
                let changed = process.mark_reaped(exit);
                self.processes.insert(pid.0, process);
                assert(self@ =~= old(self)@.with(pid, old(self)@.processes[pid.0].reaped(exit)));
                let mut events: Vec<DomainEvent> = Vec::new();
                if changed {
                    events.push(DomainEvent::ProcessReaped { scope: self.id, pid, exit });
                    if matches!(self.state, ScopeState::Draining) && !self.has_live_processes()
                        && self.is_settled() {
                        self.state = ScopeState::Closed;
                        events.push(DomainEvent::ScopeClosed { scope: self.id });
                    }
                }
                assert(self@ =~= old(self)@.reaped(pid, exit));
                Ok(events)
            },
        }
    }

    /// Removes a reaped process from bookkeeping. Only a process whose exit is verified is
    /// ever forgotten; callers prune after that exit has been delivered.
    pub fn prune(&mut self, pid: ProcessId)
        requires
            old(self)@.wf(),
        ensures
            final(self)@.wf(),
            final(self)@ == old(self)@.pruned(pid),
    {
        let forgettable = match self.processes.get(pid.0) {
            Some(process) => process.state().is_terminal() && process.is_settled(),
            None => false,
        };
        if forgettable {
            self.processes.remove(pid.0);
            assert(self@.processes =~= old(self)@.processes.remove(pid.0));
        }
        assert(self@ =~= old(self)@.pruned(pid));
    }
}

} // verus!
