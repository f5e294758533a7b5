//! Interval sampling of live processes.
use vstd::prelude::*;
use vstd::string::StringExecFns;
use crate::domain::ids::{ProcessId, ProcessScopeId};
use crate::domain::stats::{ProcessStats, RawStats};
use crate::domain::table::Table;
use crate::domain::time::{Duration, Instant};
use crate::supervision::error::StatsError;
use crate::supervision::ports::Spawned;
use crate::supervision::supervisor::{ProcessSupervisor, SupervisorView};

verus! {

/// How long one observation may take, in nanoseconds.
pub const SAMPLE_TIMEOUT_NANOS: u128 = 1_000_000_000;

/// A live process to sample.
#[derive(Debug, Clone, Copy, PartialEq, Eq, Structural)]
pub struct SampleTarget {
    /// The supervised identity.
    pub pid: ProcessId,
    /// The OS identity to observe.
    pub spawned: Spawned,
}

/// How an observation ended.
#[derive(Debug, PartialEq, Eq)]
pub enum SampleResult {
    /// The observation was called off, because the process is no longer alive.
    Aborted,
    /// The observation panicked.
    Panicked,
    /// The observation took too long.
    TimedOut,
    /// The backend answered.
    Observed(Result<RawStats, StatsError>),
}

/// What a tick asks for.
#[derive(Debug)]
pub struct SamplerTick {
    /// The running observations to call off.
    pub abort: Vec<ProcessId>,
    /// The observations to start.
    pub start: Vec<SampleTarget>,
}

impl<O> SupervisorView<O> {
    /// The live processes of every scope.
    pub open spec fn live(self) -> Set<u64> {
        Set::new(|pid: u64| self.alive(ProcessId(pid)))
    }

    /// The time since `pid` was attached; none when that is unknown.
    pub open spec fn uptime(self, pid: ProcessId, now: Instant) -> Duration {
        if self.spawn_times.contains_key(pid.0) && self.spawn_times[pid.0].nanos <= now.nanos {
            Duration { nanos: (now.nanos - self.spawn_times[pid.0].nanos) as u128 }
        } else {
            Duration { nanos: 0 }
        }
    }

    /// `first` is sampled before `second`: its scope was created earlier, or they share a scope
    /// and it was attached earlier.
    pub open spec fn samples_before(self, first: SampleTarget, second: SampleTarget) -> bool {
        ||| self.owner(first.pid) < self.owner(second.pid)
        ||| self.owner(first.pid) == self.owner(second.pid) && first.pid.0 < second.pid.0
    }

    /// The targets are in the order in which they are sampled.
    pub open spec fn in_order(self, targets: Seq<SampleTarget>) -> bool {
        forall|i: int, j: int|
            0 <= i < j < targets.len() ==> self.samples_before(
                #[trigger] targets[i],
                #[trigger] targets[j],
            )
    }

    /// `sample` is what an observation of `pid` that ended at `now` is filed as.
    pub open spec fn sample_of(
        self,
        pid: ProcessId,
        observed: SampleResult,
        now: Instant,
        sample: Result<ProcessStats, StatsError>,
    ) -> bool {
        match observed {
            SampleResult::Aborted => false,
            SampleResult::Panicked => sample matches Err(StatsError::Backend(cause)) && cause@
                == "sampler panicked"@,
            SampleResult::TimedOut => sample matches Err(StatsError::Backend(cause)) && cause@
                == "sampler timeout"@,
            SampleResult::Observed(Ok(raw)) => sample == Ok::<_, StatsError>(
                crate::domain::stats::observed(pid, raw, self.uptime(pid, now)),
            ),
            SampleResult::Observed(Err(error)) => sample == Err::<ProcessStats, _>(error),
        }
    }
}

/// The sampled processes by raw identifier.
pub open spec fn sampled(targets: Seq<SampleTarget>) -> Seq<u64> {
    Seq::new(targets.len(), |i: int| targets[i].pid.0)
}

impl<O> ProcessSupervisor<O> {
    /// Every live process with its OS identity, by scope and then by process.
    fn live_targets(&self) -> (targets: Vec<SampleTarget>)
        requires
            self.wf(),
        ensures
            sampled(targets@).no_duplicates(),
            sampled(targets@).to_set() =~= self@.live(),
            self@.in_order(targets@),
            forall|i: int|
                0 <= i < targets@.len() ==> (#[trigger] targets@[i]).spawned.os == self@.process(
                    targets@[i].pid,
                ).os,
    {
        let scopes: Vec<ProcessScopeId> = self.registry.scope_ids();
        let ghost ids = crate::supervision::registry::raw_scope_ids(scopes@);
        let ghost known = self@;
        let mut targets: Vec<SampleTarget> = Vec::new();
        let mut i: usize = 0;
        while i < scopes.len()
            invariant
                i <= scopes@.len(),
                self.wf(),
                known == self@,
                ids == crate::supervision::registry::raw_scope_ids(scopes@),
                crate::domain::table::lists(ids, known.registry.scopes.dom()),
                sampled(targets@).no_duplicates(),
                known.in_order(targets@),
                forall|j: int| #![trigger targets@[j]]
                    0 <= j < targets@.len() ==> {
                        &&& known.alive(targets@[j].pid)
                        &&& ids.take(i as int).contains(known.owner(targets@[j].pid))
                        &&& targets@[j].spawned.os == known.process(targets@[j].pid).os
                    },
                forall|pid: u64| #[trigger]
                    known.alive(ProcessId(pid)) && ids.take(i as int).contains(
                        known.owner(ProcessId(pid)),
                    ) ==> sampled(targets@).contains(pid),
            decreases scopes@.len() - i,
        {
            let scope = scopes[i];
            let ghost seen = ids.take(i as int);
            proof {
                assert(ids.contains(ids[i as int]));
                assert(ids.take(i + 1) =~= seen.push(scope.0));
                crate::supervision::history::lemma_pushed_members(seen, scope.0);
                assert forall|other: u64| #[trigger]
                    ids.take(i + 1).contains(other) <==> seen.contains(other) || other
                    == scope.0 by {
                    assert(ids.take(i + 1).to_set().contains(other) <==> seen.to_set().insert(
                        scope.0,
                    ).contains(other));
                }
                assert forall|other: u64| #[trigger] seen.contains(other) implies other
                    < scope.0 by {
                    let at = seen.index_of(other);
                    assert(ids[at] < ids[i as int]);
                }
            }
            if let Some(owned) = self.registry.get(scope) {
                let live: Vec<ProcessId> = owned.live_process_ids();
                let ghost pids = crate::domain::scope::raw_ids(live@);
                let ghost view = known.registry.scopes[scope.0];
                let mut k: usize = 0;
                while k < live.len()
                    invariant
                        k <= live@.len(),
                        self.wf(),
                        known == self@,
                        owned@ == view,
                        known.registry.scopes.contains_key(scope.0),
                        view == known.registry.scopes[scope.0],
                        pids == crate::domain::scope::raw_ids(live@),
                        crate::domain::table::lists(pids, view.live()),
                        forall|other: u64| #[trigger] seen.contains(other) ==> other < scope.0,
                        sampled(targets@).no_duplicates(),
                        known.in_order(targets@),
                        forall|j: int| #![trigger targets@[j]]
                            0 <= j < targets@.len() ==> {
                                &&& known.alive(targets@[j].pid)
                                &&& (seen.contains(known.owner(targets@[j].pid)) || (known.owner(
                                    targets@[j].pid,
                                ) == scope.0 && pids.take(k as int).contains(targets@[j].pid.0)))
                                &&& targets@[j].spawned.os == known.process(targets@[j].pid).os
                            },
                        forall|pid: u64| #[trigger]
                            known.alive(ProcessId(pid)) && seen.contains(
                                known.owner(ProcessId(pid)),
                            ) ==> sampled(targets@).contains(pid),
                        forall|pid: u64|
                            pids.take(k as int).contains(pid) ==> #[trigger] sampled(
                                targets@,
                            ).contains(pid),
                    decreases live@.len() - k,
                {
                    let pid = live[k];
                    let ghost before = sampled(targets@);
                    let ghost handled = pids.take(k as int);
                    proof {
                        assert(pids.contains(pids[k as int]));
                        assert(view.live().contains(pid.0));
                        assert(known.registry.owns(scope.0, pid.0));
                        self.lemma_owner(scope.0, pid);
                        assert(pids.take(k + 1) =~= handled.push(pid.0));
                        crate::supervision::history::lemma_pushed_members(handled, pid.0);
                        assert forall|other: u64| #[trigger]
                            pids.take(k + 1).contains(other) <==> handled.contains(other)
                            || other == pid.0 by {
                            assert(pids.take(k + 1).to_set().contains(other)
                                <==> handled.to_set().insert(pid.0).contains(other));
                        }
                        assert(!before.contains(pid.0)) by {
                            if before.contains(pid.0) {
                                let at = before.index_of(pid.0);
                                assert(targets@[at].pid == pid);
                                let back = handled.index_of(pid.0);
                                assert(pids[back] < pids[k as int]);
                            }
                        }
                    }
                    let ghost earlier = targets@;
                    if let Some(process) = owned.get(pid) {
                        targets.push(
                            SampleTarget { pid, spawned: Spawned { os: process.os_identity() } },
                        );
                    }
                    proof {
                        assert(sampled(targets@) =~= before.push(pid.0));
                        assert forall|j: int| 0 <= j < earlier.len() implies known.samples_before(
                            #[trigger] targets@[j],
                            targets@[earlier.len() as int],
                        ) by {
                            assert(targets@[j] == earlier[j]);
                            if handled.contains(earlier[j].pid.0) {
                                let back = handled.index_of(earlier[j].pid.0);
                                assert(pids[back] < pids[k as int]);
                            }
                        }
                        assert(known.in_order(targets@));
                        crate::supervision::history::lemma_pushed_members(before, pid.0);
                        assert forall|other: u64| #[trigger]
                            sampled(targets@).contains(other) <==> before.contains(other)
                            || other == pid.0 by {
                            assert(before.push(pid.0).to_set().contains(other)
                                <==> before.to_set().insert(pid.0).contains(other));
                        }
                    }
                    k = k + 1;
                }
                proof {
                    assert(pids.take(k as int) =~= pids);
                    assert forall|pid: u64| #[trigger]
                        known.alive(ProcessId(pid)) && ids.take(i + 1).contains(
                            known.owner(ProcessId(pid)),
                        ) implies sampled(targets@).contains(pid) by {
                        if !seen.contains(known.owner(ProcessId(pid))) {
                            assert(known.registry.owns(known.owner(ProcessId(pid)), pid));
                            assert(view.live().contains(pid));
                            assert(pids.contains(pid));
                        }
                    }
                }
            }
            i = i + 1;
        }
        proof {
            assert(ids.take(i as int) =~= ids);
            assert forall|pid: u64| sampled(targets@).to_set().contains(pid) <==> known.live().contains(
                pid,
            ) by {
                if sampled(targets@).contains(pid) {
                    let at = sampled(targets@).index_of(pid);
                    assert(targets@[at].pid == ProcessId(pid));
                }
                if known.alive(ProcessId(pid)) {
                    assert(known.registry.owns(known.owner(ProcessId(pid)), pid));
                    assert(ids.contains(known.owner(ProcessId(pid))));
                }
            }
        }
        targets
    }
}

/// The coordinator of all observations: at most one runs per process, and missed intervals are
/// not made up for.
#[derive(Debug)]
pub struct Sampler {
    active: Table<()>,
}

impl View for Sampler {
    type V = Set<u64>;

    closed spec fn view(&self) -> Set<u64> {
        self.active@.dom()
    }
}

impl Sampler {
    /// A coordinator with nothing to observe.
    #[must_use]
    pub fn new() -> (sampler: Self)
        ensures
            sampler@ == Set::<u64>::empty(),
    {
        let sampler = Sampler { active: Table::new() };
        assert(sampler@ =~= Set::<u64>::empty());
        sampler
    }

    /// Whether an observation of `pid` is running.
    #[must_use]
    pub fn is_active(&self, pid: ProcessId) -> (active: bool)
        ensures
            active == self@.contains(pid.0),
    {
        self.active.contains(pid.0)
    }

    /// An interval passed: observations of processes that are no longer alive are called off,
    /// and every live process without a running observation gets one.
    pub fn tick<O>(&mut self, supervision: &ProcessSupervisor<O>) -> (tick: SamplerTick)
        requires
            supervision.wf(),
        ensures
            final(self)@ == old(self)@.union(supervision@.live()),
            crate::domain::table::lists(
                crate::domain::scope::raw_ids(tick.abort@),
                old(self)@.difference(supervision@.live()),
            ),
            sampled(tick.start@).no_duplicates(),
            sampled(tick.start@).to_set() =~= supervision@.live().difference(old(self)@),
            supervision@.in_order(tick.start@),
            forall|i: int|
                0 <= i < tick.start@.len() ==> (#[trigger] tick.start@[i]).spawned.os
                    == supervision@.process(tick.start@[i].pid).os,
    {
        let targets: Vec<SampleTarget> = supervision.live_targets();
        let ghost live = supervision@.live();
        let ghost running = self@;
        let ghost all = sampled(targets@);
        let mut alive: Table<()> = Table::new();
        let mut start: Vec<SampleTarget> = Vec::new();
        let mut i: usize = 0;
        assert(all.take(0).to_set() =~= Set::empty());
        assert(sampled(start@).to_set() =~= Set::empty());
        while i < targets.len()
            invariant
                i <= targets@.len(),
                all == sampled(targets@),
                all.no_duplicates(),
                running == self@,
                forall|j: int|
                    0 <= j < targets@.len() ==> (#[trigger] targets@[j]).spawned.os
                        == supervision@.process(targets@[j].pid).os,
                alive@.dom() == all.take(i as int).to_set(),
                sampled(start@).no_duplicates(),
                sampled(start@).to_set() == all.take(i as int).to_set().difference(running),
                supervision@.in_order(targets@),
                supervision@.in_order(start@),
                forall|j: int, m: int|
                    0 <= j < start@.len() && i <= m < targets@.len()
                        ==> supervision@.samples_before(
                        #[trigger] start@[j],
                        #[trigger] targets@[m],
                    ),
                forall|j: int|
                    0 <= j < start@.len() ==> (#[trigger] start@[j]).spawned.os
                        == supervision@.process(start@[j].pid).os,
            decreases targets@.len() - i,
        {
            let target = targets[i];
            let ghost seen = all.take(i as int);
            let ghost begun = sampled(start@);
            proof {
                assert(all.take(i + 1) =~= seen.push(target.pid.0));
                crate::supervision::history::lemma_pushed_members(seen, target.pid.0);
                crate::supervision::history::lemma_pushed_members(begun, target.pid.0);
                assert(!seen.contains(target.pid.0)) by {
                    if seen.contains(target.pid.0) {
                        let at = seen.index_of(target.pid.0);
                        assert(all[at] == all[i as int]);
                    }
                }
                assert(!begun.contains(target.pid.0)) by {
                    assert(begun.to_set().contains(target.pid.0) <==> seen.to_set().difference(
                        running,
                    ).contains(target.pid.0));
                }
            }
            alive.insert(target.pid.0, ());
            if !self.active.contains(target.pid.0) {
                start.push(target);
                assert(sampled(start@) =~= begun.push(target.pid.0));
            }
            assert(alive@.dom() =~= all.take(i + 1).to_set());
            assert(sampled(start@).to_set() =~= all.take(i + 1).to_set().difference(running));
            i = i + 1;
        }
        proof {
            assert(all.take(i as int) =~= all);
            assert(alive@.dom() =~= live);
        }
        let keys: Vec<u64> = self.active.keys();
        let ghost gone = |pid: u64| !live.contains(pid);
        let mut abort: Vec<ProcessId> = Vec::new();
        let mut k: usize = 0;
        assert(keys@.take(0).filter(gone) =~= Seq::empty()) by {
            reveal(Seq::filter);
        }
        while k < keys.len()
            invariant
                k <= keys@.len(),
                gone == (|pid: u64| !live.contains(pid)),
                alive@.dom() == live,
                crate::domain::scope::raw_ids(abort@) == keys@.take(k as int).filter(gone),
            decreases keys@.len() - k,
        {
            let key = keys[k];
            let ghost before = crate::domain::scope::raw_ids(abort@);
            proof {
                crate::domain::table::lemma_filter_step(keys@, k as int, gone);
            }
            if !alive.contains(key) {
                abort.push(ProcessId(key));
                assert(crate::domain::scope::raw_ids(abort@) =~= before.push(key));
            }
            k = k + 1;
        }
        proof {
            assert(keys@.take(k as int) =~= keys@);
            crate::domain::table::lemma_filtered_lists(keys@, running, gone);
            assert(running.filter(gone) =~= running.difference(live));
        }
        let mut n: usize = 0;
        let ghost begun = sampled(start@);
        assert(begun.take(0).to_set() =~= Set::empty());
        assert(self@ =~= running.union(begun.take(0).to_set()));
        while n < start.len()
            invariant
                n <= start@.len(),
                begun == sampled(start@),
                self@ == running.union(begun.take(n as int).to_set()),
            decreases start@.len() - n,
        {
            let pid = start[n].pid;
            proof {
                assert(begun.take(n + 1) =~= begun.take(n as int).push(pid.0));
                crate::supervision::history::lemma_pushed_members(begun.take(n as int), pid.0);
            }
            self.active.insert(pid.0, ());
            assert(self@ =~= running.union(begun.take(n + 1).to_set()));
            n = n + 1;
        }
        proof {
            assert(begun.take(n as int) =~= begun);
            assert(self@ =~= running.union(live));
        }
        SamplerTick { abort, start }
    }

    /// An observation ended at `now`. Its sample is filed only if the process is still alive:
    /// a result after the reap must not bring a sample back.
    pub fn complete<O>(
        &mut self,
        supervision: &mut ProcessSupervisor<O>,
        pid: ProcessId,
        observed: SampleResult,
        now: Instant,
    )
        requires
            old(supervision).wf(),
        ensures
            final(supervision).wf(),
            final(self)@ == old(self)@.remove(pid.0),
            if observed is Aborted || !old(supervision)@.alive(pid) {
                final(supervision)@ == old(supervision)@
            } else {
                &&& final(supervision)@.samples.contains_key(pid.0)
                &&& old(supervision)@.sample_of(
                    pid,
                    observed,
                    now,
                    final(supervision)@.samples[pid.0],
                )
                &&& final(supervision)@ == (SupervisorView {
                    samples: old(supervision)@.samples.insert(
                        pid.0,
                        final(supervision)@.samples[pid.0],
                    ),
                    ..old(supervision)@
                })
            },
    {
        self.active.remove(pid.0);
        assert(self@ =~= old(self)@.remove(pid.0));
        let sample = match observed {
            SampleResult::Aborted => {
                return;
            },
            SampleResult::Panicked => Err(
                StatsError::Backend(String::from_str("sampler panicked")),
            ),
            SampleResult::TimedOut => Err(
                StatsError::Backend(String::from_str("sampler timeout")),
            ),
            SampleResult::Observed(result) => match result {
                Ok(raw) => {
                    let uptime = match supervision.spawn_times.get(pid.0) {
                        Some(start) => now.saturating_duration_since(*start),
                        None => Duration::from_nanos(0),
                    };
                    assert(uptime == supervision@.uptime(pid, now));
                    Ok(ProcessStats::from_raw(pid, raw, uptime))
                },
                Err(error) => Err(error),
            },
        };
        let live = match supervision.find(pid) {
            Some((_, process)) => process.state().is_live(),
            None => false,
        };
        if live {
            let ghost before = supervision@;
            let ghost filed = sample;
            supervision.samples.insert(pid.0, sample);
            assert(supervision@ =~= SupervisorView {
                samples: before.samples.insert(pid.0, filed),
                ..before
            });
        }
    }
}

} // verus!
