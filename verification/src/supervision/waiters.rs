//! Who may learn the end of a process, and for how long it stays on record.
use std::collections::VecDeque;
use vstd::prelude::*;
use crate::domain::exit::ProcessExit;
use crate::domain::ids::ProcessId;
use crate::domain::table::Table;
use crate::supervision::history::push_recent;

verus! {

/// What the waiters know.
#[verifier::ext_equal]
pub struct WaitersView {
    /// The slot of every process that is waited for or has an exit on record.
    pub slots: Map<u64, Option<ProcessExit>>,
    /// The processes with an exit on record, oldest first.
    pub completed: Seq<u64>,
}

impl WaitersView {
    /// The exits on record are those of the bounded history.
    pub open spec fn wf(self) -> bool {
        &&& self.completed.no_duplicates()
        &&& self.completed.len() <= crate::supervision::history::HISTORY_BOUND
        &&& forall|pid: u64| #[trigger]
            self.completed.contains(pid) <==> self.slots.contains_key(pid) && self.slots[pid] is Some
    }

    /// The exit on record for `pid`.
    pub open spec fn recorded(self, pid: ProcessId) -> Option<ProcessExit> {
        if self.slots.contains_key(pid.0) {
            self.slots[pid.0]
        } else {
            None
        }
    }

    /// A verified exit is on record for `pid`.
    pub open spec fn settled(self, pid: ProcessId) -> bool {
        self.recorded(pid) is Some && crate::domain::exit::verified(self.recorded(pid)->0.outcome)
    }

    /// The process whose exit leaves the record when one for `pid` joins it.
    pub open spec fn expiring(self, pid: ProcessId) -> Option<ProcessId> {
        if self.recorded(pid) is None && self.completed.len()
            == crate::supervision::history::HISTORY_BOUND {
            Some(ProcessId(self.completed[0]))
        } else {
            None
        }
    }

    /// After `exit` was reported for `pid`: a verified exit on record is never replaced, and a
    /// new exit displaces the oldest one when the bound is reached.
    pub open spec fn signalled(self, pid: ProcessId, exit: ProcessExit) -> WaitersView {
        let filed = self.slots.insert(pid.0, Some(exit));
        if self.settled(pid) {
            self
        } else if self.recorded(pid) is Some {
            WaitersView { slots: filed, ..self }
        } else {
            WaitersView {
                slots: match self.expiring(pid) {
                    Some(oldest) => filed.remove(oldest.0),
                    None => filed,
                },
                completed: crate::supervision::history::newest(self.completed.push(pid.0)),
            }
        }
    }
}

/// What reporting an exit leads to.
#[derive(Debug, Clone, Copy, PartialEq, Eq, Structural)]
pub struct WaiterSignal {
    /// Whether those who wait for the process are to be woken with the exit.
    pub delivered: bool,
    /// The process whose exit is no longer on record.
    pub expired: Option<ProcessId>,
}

/// Lets callers wait for the end of a process, before or after it happened.
#[derive(Debug)]
pub struct InMemoryWaiters {
    slots: Table<Option<ProcessExit>>,
    completed: VecDeque<u64>,
}

impl View for InMemoryWaiters {
    type V = WaitersView;

    closed spec fn view(&self) -> WaitersView {
        WaitersView { slots: self.slots@, completed: self.completed@ }
    }
}

impl InMemoryWaiters {
    /// Nothing is waited for and nothing is on record.
    #[must_use]
    pub fn new() -> (waiters: Self)
        ensures
            waiters@ == (WaitersView { slots: Map::empty(), completed: Seq::empty() }),
            waiters@.wf(),
    {
        InMemoryWaiters { slots: Table::new(), completed: VecDeque::new() }
    }

    /// Registers interest in the end of `pid`, and answers the exit if it is on record.
    pub fn register(&mut self, pid: ProcessId) -> (recorded: Option<ProcessExit>)
        requires
            old(self)@.wf(),
        ensures
            final(self)@.wf(),
            recorded == old(self)@.recorded(pid),
            final(self)@ == (if old(self)@.slots.contains_key(pid.0) {
                old(self)@
            } else {
                WaitersView { slots: old(self)@.slots.insert(pid.0, None), ..old(self)@ }
            }),
    {
        match self.slots.get(pid.0) {
            Some(slot) => *slot,
            None => {
                self.slots.insert(pid.0, None);
                proof {
                    assert(!old(self)@.completed.contains(pid.0));
                    assert forall|other: u64| #[trigger]
                        self@.completed.contains(other) <==> self@.slots.contains_key(other)
                            && self@.slots[other] is Some by {
                        assert(old(self)@.completed.contains(other)
                            <==> old(self)@.slots.contains_key(other)
                            && old(self)@.slots[other] is Some);
                    }
                }
                None
            },
        }
    }

    /// The exit on record for `pid`.
    #[must_use]
    pub fn try_get(&self, pid: ProcessId) -> (recorded: Option<ProcessExit>)
        ensures
            recorded == self@.recorded(pid),
    {
        match self.slots.get(pid.0) {
            Some(slot) => *slot,
            None => None,
        }
    }

    /// How many processes are waited for or have an exit on record.
    #[must_use]
    pub fn len(&self) -> (count: usize)
        ensures
            count == self@.slots.dom().len(),
    {
        self.slots.len()
    }

    /// Records the terminal exit of `pid`.
    pub fn signal_exit(&mut self, pid: ProcessId, exit: ProcessExit) -> (signal: WaiterSignal)
        requires
            old(self)@.wf(),
        ensures
            final(self)@.wf(),
            final(self)@ == old(self)@.signalled(pid, exit),
            signal.delivered == !old(self)@.settled(pid),
            signal.expired == (if signal.delivered {
                old(self)@.expiring(pid)
            } else {
                None
            }),
    {
        let ghost before = old(self)@;
        let previous = self.try_get(pid);
        if let Some(recorded) = previous {
            if recorded.outcome.is_verified() {
                return WaiterSignal { delivered: false, expired: None };
            }
        }
        self.slots.insert(pid.0, Some(exit));
        if previous.is_some() {
            assert(before.completed.contains(pid.0));
            assert forall|other: u64| #[trigger]
                self@.completed.contains(other) <==> self@.slots.contains_key(other)
                    && self@.slots[other] is Some by {
                assert(before.completed.contains(other) <==> before.slots.contains_key(other)
                    && before.slots[other] is Some);
            }
            return WaiterSignal { delivered: true, expired: None };
        }
        proof {
            assert(!before.completed.contains(pid.0));
            crate::supervision::history::lemma_push_recent(before.completed, pid.0);
        }
        let evicted = push_recent(&mut self.completed, pid.0);
        let mut expired: Option<ProcessId> = None;
        if let Some(oldest) = evicted {
            assert(before.completed.contains(before.completed[0]));
            self.slots.remove(oldest);
            expired = Some(ProcessId(oldest));
        }
        proof {
            assert(self@ =~= before.signalled(pid, exit));
            assert forall|other: u64| #[trigger]
                self@.completed.contains(other) <==> self@.slots.contains_key(other)
                    && self@.slots[other] is Some by {
                assert(self@.completed.to_set().contains(other) <==> self@.completed.contains(
                    other,
                ));
                assert(before.completed.to_set().contains(other) <==> before.completed.contains(
                    other,
                ));
                assert(before.completed.contains(other) <==> before.slots.contains_key(other)
                    && before.slots[other] is Some);
            }
        }
        WaiterSignal { delivered: true, expired }
    }
}

} // verus!
