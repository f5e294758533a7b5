//! A table of children, keyed so that a recycled PID cannot overwrite an unreaped child.
use vstd::prelude::*;
use crate::domain::os::{OsIdentity, ReuseToken};
use crate::domain::table::Table;

verus! {

/// A PID together with what tells it from a later reuse.
#[derive(Debug, Clone, Copy, PartialEq, Eq, Structural)]
pub struct ChildKey {
    /// The operating-system process id.
    pub pid: u32,
    /// The start time, or zero where none is available.
    pub token: u64,
}

/// The key of a child.
pub open spec fn key_of(os: OsIdentity) -> ChildKey {
    ChildKey {
        pid: os.pid,
        token: match os.reuse_token {
            ReuseToken::StartTime(start) => start,
            ReuseToken::Unavailable => 0,
        },
    }
}

/// The key under which a child is kept.
#[must_use]
pub fn child_key(os: &OsIdentity) -> (key: ChildKey)
    ensures
        key == key_of(*os),
{
    ChildKey {
        pid: os.pid,
        token: match os.reuse_token {
            ReuseToken::StartTime(start) => start,
            ReuseToken::Unavailable => 0,
        },
    }
}

/// Two children of the same PID with different start times have different keys.
pub proof fn reused_pid_has_another_key(pid: u32, first: u64, second: u64)
    requires
        first != second,
    ensures
        key_of(OsIdentity { pid, reuse_token: ReuseToken::StartTime(first) }) != key_of(
            OsIdentity { pid, reuse_token: ReuseToken::StartTime(second) },
        ),
{
}

/// Whether a child of identity `os` is still the process that has its PID, given the start time
/// that is read of the PID now.
pub open spec fn still_matches(os: OsIdentity, start: Option<u64>) -> bool {
    match os.reuse_token {
        ReuseToken::Unavailable => true,
        ReuseToken::StartTime(expected) => start == Some(expected),
    }
}

/// Whether `os` still names the process whose start time is `start`.
#[must_use]
pub fn identity_still_matches(os: &OsIdentity, start: Option<u64>) -> (same: bool)
    ensures
        same == still_matches(*os, start),
{
    match os.reuse_token {
        ReuseToken::Unavailable => true,
        ReuseToken::StartTime(expected) => match start {
            Some(actual) => actual == expected,
            None => false,
        },
    }
}

/// Values kept per child.
#[derive(Debug)]
pub struct Children<V> {
    by_pid: Table<Table<V>>,
}

impl<V> View for Children<V> {
    type V = Map<ChildKey, V>;

    closed spec fn view(&self) -> Map<ChildKey, V> {
        Map::new(
            |key: ChildKey|
                self.by_pid@.contains_key(key.pid as u64) && self.by_pid@[key.pid as u64]@.contains_key(
                    key.token,
                ),
            |key: ChildKey| self.by_pid@[key.pid as u64]@[key.token],
        )
    }
}

impl<V> Children<V> {
    /// No children.
    #[must_use]
    pub fn new() -> (children: Self)
        ensures
            children@ == Map::<ChildKey, V>::empty(),
    {
        let children = Children { by_pid: Table::new() };
        assert(children@ =~= Map::<ChildKey, V>::empty());
        children
    }

    /// Borrows what is kept of a child.
    #[must_use]
    pub fn get(&self, key: ChildKey) -> (value: Option<&V>)
        ensures
            value is Some <==> self@.contains_key(key),
            value matches Some(found) ==> *found == self@[key],
    {
        match self.by_pid.get(key.pid as u64) {
            Some(tokens) => tokens.get(key.token),
            None => None,
        }
    }

    /// Whether anything is kept of a child.
    #[must_use]
    pub fn contains(&self, key: ChildKey) -> (present: bool)
        ensures
            present == self@.contains_key(key),
    {
        match self.by_pid.get(key.pid as u64) {
            Some(tokens) => tokens.contains(key.token),
            None => false,
        }
    }

    /// Keeps `value` for a child, handing back what was kept of it before.
    pub fn insert(&mut self, key: ChildKey, value: V) -> (previous: Option<V>)
        ensures
            final(self)@ == old(self)@.insert(key, value),
            previous is Some <==> old(self)@.contains_key(key),
            previous matches Some(found) ==> found == old(self)@[key],
    {
        let mut tokens: Table<V> = match self.by_pid.remove(key.pid as u64) {
            Some(tokens) => tokens,
            None => Table::new(),
        };
        let previous = tokens.insert(key.token, value);
        let _ = self.by_pid.insert(key.pid as u64, tokens);
        assert(self@ =~= old(self)@.insert(key, value));
        previous
    }

    /// Forgets a child, handing back what was kept of it.
    pub fn remove(&mut self, key: ChildKey) -> (previous: Option<V>)
        ensures
            final(self)@ == old(self)@.remove(key),
            previous is Some <==> old(self)@.contains_key(key),
            previous matches Some(found) ==> found == old(self)@[key],
    {
        match self.by_pid.remove(key.pid as u64) {
            Some(mut tokens) => {
                let previous = tokens.remove(key.token);
                let _ = self.by_pid.insert(key.pid as u64, tokens);
                assert(self@ =~= old(self)@.remove(key));
                previous
            },
            None => {
                assert(self@ =~= old(self)@.remove(key));
                None
            },
        }
    }

    /// The children, each once.
    #[must_use]
    pub fn keys(&self) -> (keys: Vec<ChildKey>)
        ensures
            keys@.no_duplicates(),
            forall|key: ChildKey| #[trigger] keys@.contains(key) <==> self@.contains_key(key),
    {
        let mut keys: Vec<ChildKey> = Vec::new();
        let pids: Vec<u64> = self.by_pid.keys();
        let mut i: usize = 0;
        while i < pids.len()
            invariant
                i <= pids@.len(),
                crate::domain::table::lists(pids@, self.by_pid@.dom()),
                keys@.no_duplicates(),
                forall|key: ChildKey| #[trigger]
                    keys@.contains(key) ==> self@.contains_key(key) && exists|p: int|
                        0 <= p < i && #[trigger] pids@[p] == key.pid,
                forall|key: ChildKey, p: int|
                    #![trigger self@.contains_key(key), pids@[p]]
                    self@.contains_key(key) && 0 <= p < i && pids@[p] == key.pid
                        ==> keys@.contains(key),
            decreases pids@.len() - i,
        {
            let pid: u64 = pids[i];
            assert(pids@.contains(pid));
            if pid <= 0xffff_ffff {
                let ghost before = keys@;
                if let Some(tokens) = self.by_pid.get(pid) {
                    let listed: Vec<u64> = tokens.keys();
                    let mut j: usize = 0;
                    while j < listed.len()
                        invariant
                            i < pids@.len(),
                            pid == pids@[i as int],
                            pid <= 0xffff_ffff,
                            crate::domain::table::lists(pids@, self.by_pid@.dom()),
                            self.by_pid@.contains_key(pid),
                            *tokens == self.by_pid@[pid],
                            crate::domain::table::lists(listed@, tokens@.dom()),
                            j <= listed@.len(),
                            keys@.no_duplicates(),
                            forall|key: ChildKey| #[trigger]
                                keys@.contains(key) ==> self@.contains_key(key) && exists|p: int|
                                    0 <= p <= i && #[trigger] pids@[p] == key.pid,
                            forall|key: ChildKey|
                                #![trigger keys@.contains(key)]
                                keys@.contains(key) && key.pid == pid ==> exists|t: int|
                                    0 <= t < j && #[trigger] listed@[t] == key.token,
                            forall|key: ChildKey, p: int|
                                #![trigger self@.contains_key(key), pids@[p]]
                                self@.contains_key(key) && 0 <= p < i && pids@[p] == key.pid
                                    ==> keys@.contains(key),
                            forall|t: int|
                                0 <= t < j ==> keys@.contains(
                                    ChildKey { pid: pid as u32, token: #[trigger] listed@[t] },
                                ),
                        decreases listed@.len() - j,
                    {
                        let key = ChildKey { pid: pid as u32, token: listed[j] };
                        let ghost earlier = keys@;
                        proof {
                            assert(listed@.contains(listed@[j as int]));
                            assert(self@.contains_key(key));
                            if earlier.contains(key) {
                                let t = choose|t: int|
                                    0 <= t < j && #[trigger] listed@[t] == key.token;
                                assert(listed@[t] < listed@[j as int]);
                            }
                        }
                        keys.push(key);
                        proof {
                            broadcast use vstd::seq_lib::group_seq_properties;

                            crate::domain::table::lemma_pushed(earlier, key);
                            assert(pids@[i as int] == key.pid);
                            assert(listed@[j as int] == key.token);
                        }
                        j = j + 1;
                    }
                    proof {
                        assert forall|key: ChildKey, p: int|
                            #![trigger self@.contains_key(key), pids@[p]]
                            self@.contains_key(key) && 0 <= p < i + 1 && pids@[p]
                                == key.pid implies keys@.contains(key) by {
                            if p == i {
                                assert(tokens@.dom().contains(key.token));
                                assert(listed@.contains(key.token));
                                let t = listed@.index_of(key.token);
                                assert(listed@[t] == key.token);
                            }
                        }
                    }
                }
            }
            i = i + 1;
        }
        proof {
            assert forall|key: ChildKey| self@.contains_key(key) implies #[trigger]
            keys@.contains(key) by {
                assert(self.by_pid@.dom().contains(key.pid as u64));
                assert(pids@.contains(key.pid as u64));
                let p = pids@.index_of(key.pid as u64);
                assert(pids@[p] == key.pid);
            }
        }
        keys
    }
}

} // verus!
