//! A deterministic, in-memory backend. No real processes are spawned; the program name says how
//! a process behaves:
//!
//! * `"exit-immediately"` exits (code 0) as soon as it is spawned.
//! * `"ignore-graceful"` ignores graceful signals; only a forceful kill ends it.
//! * anything else exits (code 0) on a graceful signal, or killed on a forceful one.
use vstd::prelude::*;
use crate::domain::capability::{Capabilities, Containment, Support};
use crate::domain::exit::RawExit;
use crate::domain::ids::{ProcessId, ProcessScopeId};
use crate::domain::os::{OsIdentity, ReuseToken};
use crate::domain::spec::{ProcessSpec, Signal};
use crate::domain::stats::{ProcessState, RawStats};
use crate::domain::table::Table;
use crate::supervision::error::{SpawnError, StatsError, TerminateError, WaitError};
use crate::supervision::ports::Spawned;

verus! {

/// How a process ends that honours a graceful signal.
pub open spec fn graceful() -> RawExit {
    RawExit { code: Some(0), signal: None, core_dumped: false }
}

/// How a process ends that is killed.
pub open spec fn killed() -> RawExit {
    RawExit { code: None, signal: Some(Signal::Kill), core_dumped: false }
}

fn graceful_exit() -> (exit: RawExit)
    ensures
        exit == graceful(),
{
    RawExit { code: Some(0), signal: None, core_dumped: false }
}

fn killed_exit() -> (exit: RawExit)
    ensures
        exit == killed(),
{
    RawExit { code: None, signal: Some(Signal::Kill), core_dumped: false }
}

/// A process of the in-memory backend.
#[derive(Debug, Clone, Copy, PartialEq, Eq, Structural)]
pub struct NullProc {
    /// The scope it was spawned in.
    pub scope: ProcessScopeId,
    /// Whether only a forceful signal ends it.
    pub ignores_graceful: bool,
    /// How it ended, if it has.
    pub exit: Option<RawExit>,
}

impl NullProc {
    /// The process after `exit`: one that has ended cannot end again.
    pub open spec fn ended(self, exit: RawExit) -> NullProc {
        if self.exit is Some {
            self
        } else {
            NullProc { exit: Some(exit), ..self }
        }
    }

    /// The process after `signal`.
    pub open spec fn signalled(self, signal: Signal) -> NullProc {
        match signal {
            Signal::Kill => self.ended(killed()),
            Signal::Term | Signal::Interrupt => if self.ignores_graceful {
                self
            } else {
                self.ended(graceful())
            },
            Signal::Custom(_) => self,
        }
    }

    fn deliver(self, exit: RawExit) -> (after: NullProc)
        ensures
            after == self.ended(exit),
    {
        match self.exit {
            Some(_) => self,
            None => NullProc {
                scope: self.scope,
                ignores_graceful: self.ignores_graceful,
                exit: Some(exit),
            },
        }
    }

    fn apply_signal(self, signal: Signal) -> (after: NullProc)
        ensures
            after == self.signalled(signal),
    {
        match signal {
            Signal::Kill => self.deliver(killed_exit()),
            Signal::Term | Signal::Interrupt => if self.ignores_graceful {
                self
            } else {
                self.deliver(graceful_exit())
            },
            Signal::Custom(_) => self,
        }
    }
}

/// What a [`NullBackend`] holds.
#[verifier::ext_equal]
pub struct NullView {
    /// The PID given out last.
    pub last_pid: u32,
    /// All processes, by PID.
    pub procs: Map<u64, NullProc>,
}

impl NullView {
    /// Every process has one of the PIDs given out.
    pub open spec fn wf(self) -> bool {
        forall|pid: u64| #[trigger] self.procs.contains_key(pid) ==> 0 < pid <= self.last_pid
    }

    /// The processes after `program` was started in `scope`, under the next PID.
    pub open spec fn with_process(self, scope: ProcessScopeId, program: Seq<u8>) -> NullView {
        NullView {
            last_pid: (self.last_pid + 1) as u32,
            procs: self.procs.insert(
                (self.last_pid + 1) as u64,
                NullProc {
                    scope,
                    ignores_graceful: program == vstd::utf8::encode_utf8("ignore-graceful"@),
                    exit: if program == vstd::utf8::encode_utf8("exit-immediately"@) {
                        Some(graceful())
                    } else {
                        None
                    },
                },
            ),
        }
    }

    /// The processes after `signal` reached the one under `pid`, if there is one.
    pub open spec fn one_signalled(self, pid: u32, signal: Signal) -> NullView {
        if self.procs.contains_key(pid as u64) {
            NullView {
                procs: self.procs.insert(pid as u64, self.procs[pid as u64].signalled(signal)),
                ..self
            }
        } else {
            self
        }
    }

    /// The processes after all of them were killed.
    pub open spec fn all_killed(self) -> NullView {
        NullView { procs: self.procs.map_values(|proc: NullProc| proc.ended(killed())), ..self }
    }

    /// The processes after `signal` reached those of `scope`.
    pub open spec fn scope_signalled(self, scope: ProcessScopeId, signal: Signal) -> NullView {
        NullView {
            procs: self.procs.map_values(
                |proc: NullProc|
                    if proc.scope == scope {
                        proc.signalled(signal)
                    } else {
                        proc
                    },
            ),
            ..self
        }
    }
}

/// A process that has ended stays as it is, whatever is sent to it.
pub proof fn ended_process_stays_ended(proc: NullProc, signal: Signal)
    requires
        proc.exit is Some,
    ensures
        proc.signalled(signal) == proc,
{
}

/// A forceful signal ends every process, also one that ignores graceful signals.
pub proof fn force_ends_every_process(proc: NullProc)
    ensures
        proc.signalled(Signal::Kill).exit is Some,
        proc.exit is None ==> proc.signalled(Signal::Kill).exit == Some(killed()),
{
}

/// A signal to a scope touches no process of another scope.
pub proof fn scope_signal_touches_no_other_scope(
    view: NullView,
    scope: ProcessScopeId,
    signal: Signal,
    pid: u64,
)
    requires
        view.procs.contains_key(pid),
        view.procs[pid].scope != scope,
    ensures
        view.scope_signalled(scope, signal).procs[pid] == view.procs[pid],
{
}

/// An in-memory backend.
#[derive(Debug)]
pub struct NullBackend {
    last_pid: u32,
    procs: Table<NullProc>,
}

impl View for NullBackend {
    type V = NullView;

    closed spec fn view(&self) -> NullView {
        NullView { last_pid: self.last_pid, procs: self.procs@ }
    }
}

impl NullBackend {
    /// Creates an empty backend.
    #[must_use]
    pub fn new() -> (backend: Self)
        ensures
            backend@ == (NullView { last_pid: 0, procs: Map::empty() }),
            backend@.wf(),
    {
        NullBackend { last_pid: 0, procs: Table::new() }
    }

    /// Whether another PID can be given out.
    #[must_use]
    pub fn has_pids(&self) -> (left: bool)
        ensures
            left == (self@.last_pid < u32::MAX),
    {
        self.last_pid < u32::MAX
    }

    /// Makes a process of `scope` up, under the next PID.
    ///
    /// # Errors
    /// None: every program can be spawned.
    pub fn spawn(&mut self, scope: ProcessScopeId, spec: &ProcessSpec) -> (spawned: Result<
        Spawned,
        SpawnError,
    >)
        requires
            old(self)@.wf(),
            old(self)@.last_pid < u32::MAX,
        ensures
            ({
                let pid = (old(self)@.last_pid + 1) as u32;
                &&& spawned == Ok::<_, SpawnError>(
                    Spawned {
                        os: OsIdentity { pid, reuse_token: ReuseToken::StartTime(pid as u64) },
                    },
                )
                &&& !old(self)@.procs.contains_key(pid as u64)
                &&& final(self)@ == (NullView {
                    last_pid: pid,
                    procs: old(self)@.procs.insert(
                        pid as u64,
                        NullProc {
                            scope,
                            ignores_graceful: spec.program@ == vstd::utf8::encode_utf8(
                                "ignore-graceful"@,
                            ),
                            exit: if spec.program@ == vstd::utf8::encode_utf8(
                                "exit-immediately"@,
                            ) {
                                Some(graceful())
                            } else {
                                None
                            },
                        },
                    ),
                })
            }),
            final(self)@.wf(),
            final(self)@ == old(self)@.with_process(scope, spec.program@),
    {
        let pid: u32 = self.last_pid + 1;
        proof {
            if self@.procs.contains_key(pid as u64) {
                assert(pid as u64 <= self@.last_pid);
            }
        }
        let ignores_graceful = spec.program.is("ignore-graceful");
        let exit: Option<RawExit> = if spec.program.is("exit-immediately") {
            Some(graceful_exit())
        } else {
            None
        };
        self.last_pid = pid;
        let _ = self.procs.insert(pid as u64, NullProc { scope, ignores_graceful, exit });
        proof {
            assert forall|other: u64| #[trigger] self@.procs.contains_key(other) implies 0 < other
                <= self@.last_pid by {
                if other != pid as u64 {
                    assert(old(self)@.procs.contains_key(other));
                }
            }
        }
        Ok(Spawned { os: OsIdentity::new(pid, ReuseToken::StartTime(pid as u64)) })
    }

    /// Sends `signal` to one process; one that is unknown is left alone.
    ///
    /// # Errors
    /// None.
    pub fn signal(&mut self, target: &Spawned, signal: Signal) -> (sent: Result<
        (),
        TerminateError,
    >)
        requires
            old(self)@.wf(),
        ensures
            sent is Ok,
            final(self)@ == (if old(self)@.procs.contains_key(target.os.pid as u64) {
                NullView {
                    procs: old(self)@.procs.insert(
                        target.os.pid as u64,
                        old(self)@.procs[target.os.pid as u64].signalled(signal),
                    ),
                    ..old(self)@
                }
            } else {
                old(self)@
            }),
            final(self)@.wf(),
            final(self)@ == old(self)@.one_signalled(target.os.pid, signal),
    {
        let known = match self.procs.get(target.os.pid as u64) {
            Some(proc) => Some(*proc),
            None => None,
        };
        if let Some(proc) = known {
            let _ = self.procs.insert(target.os.pid as u64, proc.apply_signal(signal));
            proof {
                assert forall|other: u64| #[trigger] self@.procs.contains_key(other) implies 0
                    < other <= self@.last_pid by {
                    assert(old(self)@.procs.contains_key(other));
                }
            }
        }
        Ok(())
    }

    fn signal_each(&mut self, scope: Option<ProcessScopeId>, signal: Signal)
        requires
            old(self)@.wf(),
        ensures
            final(self)@.last_pid == old(self)@.last_pid,
            final(self)@.procs.dom() == old(self)@.procs.dom(),
            forall|pid: u64| #[trigger]
                old(self)@.procs.contains_key(pid) ==> final(self)@.procs[pid] == (if (
                scope matches Some(only) ==> old(self)@.procs[pid].scope == only) {
                    old(self)@.procs[pid].signalled(signal)
                } else {
                    old(self)@.procs[pid]
                }),
            final(self)@.wf(),
    {
        let ghost before = self@;
        let keys: Vec<u64> = self.procs.keys();
        let mut i: usize = 0;
        while i < keys.len()
            invariant
                i <= keys@.len(),
                crate::domain::table::lists(keys@, before.procs.dom()),
                self@.last_pid == before.last_pid,
                self@.procs.dom() == before.procs.dom(),
                forall|k: int|
                    #![trigger keys@[k]]
                    0 <= k < i ==> self@.procs[keys@[k]] == (if (
                    scope matches Some(only) ==> before.procs[keys@[k]].scope == only) {
                        before.procs[keys@[k]].signalled(signal)
                    } else {
                        before.procs[keys@[k]]
                    }),
                forall|k: int|
                    #![trigger keys@[k]]
                    i <= k < keys@.len() ==> self@.procs[keys@[k]] == before.procs[keys@[k]],
            decreases keys@.len() - i,
        {
            let pid: u64 = keys[i];
            assert(keys@.contains(pid));
            let known = match self.procs.get(pid) {
                Some(proc) => Some(*proc),
                None => None,
            };
            if let Some(proc) = known {
                let wanted = match scope {
                    Some(only) => proc.scope == only,
                    None => true,
                };
                if wanted {
                    let _ = self.procs.insert(pid, proc.apply_signal(signal));
                    assert(self@.procs.dom() =~= before.procs.dom());
                }
            }
            i = i + 1;
        }
        proof {
            assert forall|pid: u64| #[trigger]
                before.procs.contains_key(pid) implies self@.procs[pid] == (if (
            scope matches Some(only) ==> before.procs[pid].scope == only) {
                before.procs[pid].signalled(signal)
            } else {
                before.procs[pid]
            }) by {
                assert(keys@.contains(pid));
                let k = keys@.index_of(pid);
                assert(keys@[k] == pid);
            }
            assert forall|pid: u64| #[trigger] self@.procs.contains_key(pid) implies 0 < pid
                <= self@.last_pid by {
                assert(before.procs.contains_key(pid));
            }
        }
    }

    /// Sends `signal` to every process of `scope`, and to no other.
    ///
    /// # Errors
    /// None.
    pub fn signal_scope(&mut self, scope: ProcessScopeId, signal: Signal) -> (sent: Result<
        (),
        TerminateError,
    >)
        requires
            old(self)@.wf(),
        ensures
            sent is Ok,
            final(self)@ == old(self)@.scope_signalled(scope, signal),
            final(self)@.wf(),
    {
        self.signal_each(Some(scope), signal);
        assert(self@ =~= old(self)@.scope_signalled(scope, signal));
        Ok(())
    }

    /// Kills every process that has not ended.
    pub fn hard_kill_all(&mut self)
        requires
            old(self)@.wf(),
        ensures
            final(self)@ == (NullView {
                procs: old(self)@.procs.map_values(|proc: NullProc| proc.ended(killed())),
                ..old(self)@
            }),
            final(self)@.wf(),
            final(self)@ == old(self)@.all_killed(),
    {
        self.signal_each(None, Signal::Kill);
        assert(self@.procs =~= old(self)@.procs.map_values(
            |proc: NullProc| proc.ended(killed()),
        ));
    }

    /// How a process ended; `None` while it has not.
    ///
    /// # Errors
    /// Returns [`WaitError::UnknownProcess`] for a PID that was never given out.
    pub fn wait(&self, target: &Spawned) -> (exit: Result<Option<RawExit>, WaitError>)
        ensures
            exit == (if self@.procs.contains_key(target.os.pid as u64) {
                Ok(self@.procs[target.os.pid as u64].exit)
            } else {
                Err(WaitError::UnknownProcess(ProcessId(0)))
            }),
    {
        match self.procs.get(target.os.pid as u64) {
            Some(proc) => Ok(proc.exit),
            None => Err(WaitError::UnknownProcess(ProcessId::new(0))),
        }
    }

    /// A made-up sample.
    ///
    /// # Errors
    /// Returns [`StatsError::UnknownProcess`] for a PID that was never given out.
    pub fn sample(&self, target: &Spawned) -> (stats: Result<RawStats, StatsError>)
        ensures
            stats == (if self@.procs.contains_key(target.os.pid as u64) {
                Ok(
                    RawStats {
                        cpu_usage: None,
                        memory_rss_bytes: 1_048_576,
                        virtual_memory_bytes: Some(4_194_304),
                        peak_rss_bytes: None,
                        io_read_bytes: None,
                        io_write_bytes: None,
                        descendant_count: Some(0),
                        state: ProcessState::Running,
                    },
                )
            } else {
                Err(StatsError::UnknownProcess(ProcessId(0)))
            }),
    {
        if !self.procs.contains(target.os.pid as u64) {
            return Err(StatsError::UnknownProcess(ProcessId::new(0)));
        }
        Ok(
            RawStats {
                cpu_usage: None,
                memory_rss_bytes: 1_048_576,
                virtual_memory_bytes: Some(4_194_304),
                peak_rss_bytes: None,
                io_read_bytes: None,
                io_write_bytes: None,
                descendant_count: Some(0),
                state: ProcessState::Running,
            },
        )
    }

    /// What the backend can do.
    #[must_use]
    pub fn capabilities(&self) -> (able: Capabilities)
        ensures
            able == (Capabilities {
                descendant_containment: Containment::Uncontained,
                cpu: Support::Supported,
                rss: Support::Supported,
                peak_rss: Support::Unsupported,
                io: Support::Unsupported,
                force_termination: true,
            }),
    {
        Capabilities {
            descendant_containment: Containment::Uncontained,
            cpu: Support::Supported,
            rss: Support::Supported,
            peak_rss: Support::Unsupported,
            io: Support::Unsupported,
            force_termination: true,
        }
    }
}

} // verus!
