//! Bounded histories: what stays known about work that is already over.
use std::collections::VecDeque;
use vstd::prelude::*;
use crate::domain::ids::ProcessId;
use crate::domain::table::Table;

verus! {

/// How many entries every post-mortem history retains.
pub const HISTORY_BOUND: usize = 256;

/// The newest entries of `order` that a history retains.
pub open spec fn newest(order: Seq<u64>) -> Seq<u64> {
    if order.len() > HISTORY_BOUND {
        order.skip(order.len() - HISTORY_BOUND)
    } else {
        order
    }
}

/// Appends `key` to a bounded history, handing back the entry that had to leave.
pub fn push_recent(order: &mut VecDeque<u64>, key: u64) -> (evicted: Option<u64>)
    requires
        old(order)@.len() <= HISTORY_BOUND,
    ensures
        final(order)@ == newest(old(order)@.push(key)),
        final(order)@.len() <= HISTORY_BOUND,
        evicted is Some <==> old(order)@.len() == HISTORY_BOUND,
        evicted matches Some(oldest) ==> oldest == old(order)@[0],
{
    order.push_back(key);
    if order.len() > HISTORY_BOUND {
        let oldest = order.pop_front();
        assert(order@ =~= newest(old(order)@.push(key)));
        oldest
    } else {
        None
    }
}

/// Whether a history holds `key`.
pub fn holds(order: &VecDeque<u64>, key: u64) -> (present: bool)
    ensures
        present == order@.contains(key),
{
    let mut i: usize = 0;
    while i < order.len()
        invariant
            i <= order@.len(),
            forall|j: int| 0 <= j < i ==> order@[j] != key,
        decreases order@.len() - i,
    {
        if order[i] == key {
            return true;
        }
        i = i + 1;
    }
    false
}

/// Takes every occurrence of `key` out of a history, keeping the order of the rest.
pub fn forget(order: &mut VecDeque<u64>, key: u64)
    ensures
        final(order)@ == old(order)@.filter(|other: u64| other != key),
{
    let ghost keep = |other: u64| other != key;
    let ghost all = old(order)@;
    let mut rest: VecDeque<u64> = VecDeque::new();
    let mut i: usize = 0;
    assert(all.take(0).filter(keep) =~= Seq::empty()) by {
        reveal(Seq::filter);
    }
    while i < order.len()
        invariant
            i <= order@.len(),
            order@ == all,
            all == old(order)@,
            keep == (|other: u64| other != key),
            rest@ == all.take(i as int).filter(keep),
        decreases order@.len() - i,
    {
        proof {
            crate::domain::table::lemma_filter_step(all, i as int, keep);
        }
        let other = order[i];
        if other != key {
            rest.push_back(other);
        }
        i = i + 1;
    }
    assert(all.take(i as int) =~= all);
    *order = rest;
}

/// A history stays free of duplicates when a new key is appended.
pub proof fn lemma_push_recent(order: Seq<u64>, key: u64)
    requires
        order.len() <= HISTORY_BOUND,
        order.no_duplicates(),
        !order.contains(key),
    ensures
        newest(order.push(key)).no_duplicates(),
        newest(order.push(key)).to_set() =~= (if order.len() == HISTORY_BOUND {
            order.to_set().remove(order[0]).insert(key)
        } else {
            order.to_set().insert(key)
        }),
{
    let grown = order.push(key);
    let kept = newest(grown);
    assert(forall|i: int| 0 <= i < order.len() ==> grown[i] == order[i]);
    assert(grown[order.len() as int] == key);
    assert forall|other: u64| kept.to_set().contains(other) implies (if order.len()
        == HISTORY_BOUND {
        order.to_set().remove(order[0]).insert(key)
    } else {
        order.to_set().insert(key)
    }).contains(other) by {
        let at = kept.index_of(other);
        assert(kept[at] == other);
    }
    assert forall|other: u64|
        #![trigger kept.to_set().contains(other)]
        (if order.len() == HISTORY_BOUND {
            order.to_set().remove(order[0]).insert(key)
        } else {
            order.to_set().insert(key)
        }).contains(other) implies kept.to_set().contains(other) by {
        if other == key {
            assert(kept[kept.len() - 1] == key);
        } else {
            let at = order.index_of(other);
            assert(order[at] == other);
            if order.len() == HISTORY_BOUND {
                assert(kept[at - 1] == other);
            } else {
                assert(kept[at] == other);
            }
        }
    }
}

/// Taking a key out of a history keeps it free of duplicates.
pub proof fn lemma_forget(order: Seq<u64>, key: u64)
    requires
        order.no_duplicates(),
    ensures
        order.filter(|other: u64| other != key).no_duplicates(),
        order.filter(|other: u64| other != key).to_set() =~= order.to_set().remove(key),
        order.filter(|other: u64| other != key).len() <= order.len(),
    decreases order.len(),
{
    let keep = |other: u64| other != key;
    reveal(Seq::filter);
    if order.len() > 0 {
        let rest = order.drop_last();
        let last = order.last();
        assert forall|i: int, j: int| 0 <= i < rest.len() && 0 <= j < rest.len() && i != j implies
            rest[i] != rest[j] by {
            assert(order[i] != order[j]);
        }
        lemma_forget(rest, key);
        let kept = rest.filter(keep);
        assert(!rest.contains(last)) by {
            if rest.contains(last) {
                let at = rest.index_of(last);
                assert(order[at] == order[order.len() - 1]);
            }
        }
        assert(!kept.contains(last)) by {
            assert(kept.to_set().contains(last) <==> rest.to_set().remove(key).contains(last));
        }
        assert(order =~= rest.push(last));
        lemma_pushed_members(rest, last);
        lemma_pushed_members(kept, last);
        assert(order.to_set() =~= rest.to_set().insert(last));
        if last != key {
            assert(order.filter(keep) =~= kept.push(last));
        } else {
            assert(order.filter(keep) =~= kept);
        }
    } else {
        assert(order.filter(keep) =~= order);
    }
}

/// The members of a sequence after a push.
pub proof fn lemma_pushed_members(order: Seq<u64>, key: u64)
    ensures
        order.push(key).to_set() =~= order.to_set().insert(key),
{
    crate::domain::table::lemma_pushed(order, key);
}

/// What the identity history knows.
#[verifier::ext_equal]
pub struct OsPidHistoryView {
    /// OS pids by raw process identifier.
    pub by_pid: Map<u64, u32>,
    /// The known processes, oldest attachment first.
    pub order: Seq<u64>,
}

impl OsPidHistoryView {
    /// Every known process occurs once in the order, and no more are known than the bound.
    pub open spec fn wf(self) -> bool {
        &&& self.order.no_duplicates()
        &&& self.order.to_set() =~= self.by_pid.dom()
        &&& self.order.len() <= HISTORY_BOUND
    }

    /// After an attachment: a new process displaces the oldest one when the bound is reached.
    pub open spec fn remembered(self, pid: ProcessId, os_pid: u32) -> OsPidHistoryView {
        if self.by_pid.contains_key(pid.0) {
            OsPidHistoryView { by_pid: self.by_pid.insert(pid.0, os_pid), ..self }
        } else if self.order.len() == HISTORY_BOUND {
            OsPidHistoryView {
                by_pid: self.by_pid.insert(pid.0, os_pid).remove(self.order[0]),
                order: newest(self.order.push(pid.0)),
            }
        } else {
            OsPidHistoryView {
                by_pid: self.by_pid.insert(pid.0, os_pid),
                order: newest(self.order.push(pid.0)),
            }
        }
    }
}

/// The most recently attached OS identities.
///
/// An OS pid must survive an immediate natural exit: the process can be reaped and pruned
/// before its caller looks the OS identity up. The bound is enforced on attachment, because a
/// process whose wait fails never reaches a verified reap.
#[derive(Debug)]
pub struct OsPidHistory {
    by_pid: Table<u32>,
    order: VecDeque<u64>,
}

impl View for OsPidHistory {
    type V = OsPidHistoryView;

    closed spec fn view(&self) -> OsPidHistoryView {
        OsPidHistoryView { by_pid: self.by_pid@, order: self.order@ }
    }
}

impl OsPidHistory {
    /// A history that knows nothing.
    #[must_use]
    pub fn new() -> (history: Self)
        ensures
            history@ == (OsPidHistoryView { by_pid: Map::empty(), order: Seq::empty() }),
            history@.wf(),
    {
        let history = OsPidHistory { by_pid: Table::new(), order: VecDeque::new() };
        assert(history@.order.to_set() =~= history@.by_pid.dom());
        history
    }

    /// Remembers the OS pid of an attached process.
    pub fn remember(&mut self, pid: ProcessId, os_pid: u32)
        requires
            old(self)@.wf(),
        ensures
            final(self)@ == old(self)@.remembered(pid, os_pid),
            final(self)@.wf(),
    {
        let ghost known = old(self)@;
        if self.by_pid.insert(pid.0, os_pid).is_some() {
            assert(self@.by_pid.dom() =~= known.by_pid.dom());
            return;
        }
        proof {
            assert(!known.order.contains(pid.0)) by {
                assert(known.order.to_set().contains(pid.0) <==> known.by_pid.dom().contains(pid.0));
            }
            lemma_push_recent(known.order, pid.0);
        }
        let evicted = push_recent(&mut self.order, pid.0);
        if let Some(oldest) = evicted {
            assert(known.order.contains(known.order[0]));
            self.by_pid.remove(oldest);
        }
        assert(self@ =~= known.remembered(pid, os_pid));
        assert(self@.order.to_set() =~= self@.by_pid.dom());
    }

    /// The OS pid of `pid`, if it is still known.
    #[must_use]
    pub fn get(&self, pid: ProcessId) -> (os_pid: Option<u32>)
        ensures
            os_pid is Some <==> self@.by_pid.contains_key(pid.0),
            os_pid matches Some(found) ==> found == self@.by_pid[pid.0],
    {
        match self.by_pid.get(pid.0) {
            Some(os_pid) => Some(*os_pid),
            None => None,
        }
    }

    /// How many processes are known.
    #[must_use]
    pub fn len(&self) -> (count: usize)
        requires
            self@.wf(),
        ensures
            count == self@.order.len(),
            count == self@.by_pid.dom().len(),
            count <= HISTORY_BOUND,
    {
        proof {
            self@.order.unique_seq_to_set();
        }
        self.by_pid.len()
    }
}

} // verus!
