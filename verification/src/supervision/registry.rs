//! Collection-style access to scope aggregates.
use vstd::prelude::*;
use crate::domain::ids::{ProcessId, ProcessScopeId};
use crate::domain::scope::{ProcessScope, ScopeView};

verus! {

/// The raw numbers of scope identifiers.
pub open spec fn raw_scope_ids(ids: Seq<ProcessScopeId>) -> Seq<u64> {
    Seq::new(ids.len(), |i: int| ids[i].0)
}

/// What there is to know about the registry.
#[verifier::ext_equal]
pub struct RegistryView {
    /// The tracked scopes by raw identifier.
    pub scopes: Map<u64, ScopeView>,
    /// The last scope identifier that was minted.
    pub next_scope: u64,
    /// The last process identifier that was minted.
    pub next_process: u64,
}

impl RegistryView {
    /// A registry that was just created.
    pub open spec fn fresh() -> RegistryView {
        RegistryView { scopes: Map::empty(), next_scope: 0, next_process: 0 }
    }

    /// Scopes are filed under their own identity, are well formed, and were minted here.
    pub open spec fn wf(self) -> bool {
        forall|id: u64| #[trigger]
            self.scopes.contains_key(id) ==> {
                &&& self.scopes[id].id.0 == id
                &&& self.scopes[id].wf()
                &&& id <= self.next_scope
            }
    }

    /// The scope `id` owns `pid`.
    pub open spec fn owns(self, id: u64, pid: u64) -> bool {
        self.scopes.contains_key(id) && self.scopes[id].processes.contains_key(pid)
    }

    /// No process belongs to two scopes, and every owned process was minted here.
    pub open spec fn exclusive(self) -> bool {
        &&& forall|a: u64, b: u64, pid: u64| #[trigger]
            self.owns(a, pid) && #[trigger] self.owns(b, pid) ==> a == b
        &&& forall|id: u64, pid: u64| #[trigger] self.owns(id, pid) ==> pid <= self.next_process
    }

    /// With `scope` filed under `id`.
    pub open spec fn with(self, id: u64, scope: ScopeView) -> RegistryView {
        RegistryView { scopes: self.scopes.insert(id, scope), ..self }
    }
}

/// In-memory repository of [`ProcessScope`] aggregates held by a supervisor.
#[derive(Debug)]
pub struct ScopeRegistry {
    scopes: Vec<ProcessScope>,
    next_scope: u64,
    next_process: u64,
}

/// Where `scopes` holds the scope `id`.
spec fn place(scopes: Seq<ProcessScope>, id: u64) -> int {
    choose|i: int| 0 <= i < scopes.len() && (#[trigger] scopes[i])@.id.0 == id
}

/// `scopes` holds the scope `id`.
spec fn placed(scopes: Seq<ProcessScope>, id: u64) -> bool {
    exists|i: int| 0 <= i < scopes.len() && (#[trigger] scopes[i])@.id.0 == id
}

impl View for ScopeRegistry {
    type V = RegistryView;

    closed spec fn view(&self) -> RegistryView {
        RegistryView {
            scopes: Map::new(
                |id: u64| placed(self.scopes@, id),
                |id: u64| self.scopes@[place(self.scopes@, id)]@,
            ),
            next_scope: self.next_scope,
            next_process: self.next_process,
        }
    }
}

impl ScopeRegistry {
    /// The scopes are kept in ascending identifier order.
    spec fn ordered(self) -> bool {
        forall|i: int, j: int|
            0 <= i < j < self.scopes@.len() ==> (#[trigger] self.scopes@[i])@.id.0 < (
            #[trigger] self.scopes@[j])@.id.0
    }

    /// The registry is in order and what it shows is well formed.
    pub closed spec fn wf(self) -> bool {
        self.ordered() && self@.wf()
    }

    /// A well-formed registry shows well-formed scopes.
    pub proof fn lemma_wf(self)
        requires
            self.wf(),
        ensures
            self@.wf(),
    {
    }

    /// A scope's place follows from its identifier.
    proof fn lemma_place(self, i: int)
        requires
            self.ordered(),
            0 <= i < self.scopes@.len(),
        ensures
            placed(self.scopes@, self.scopes@[i]@.id.0),
            place(self.scopes@, self.scopes@[i]@.id.0) == i,
            self@.scopes.contains_key(self.scopes@[i]@.id.0),
            self@.scopes[self.scopes@[i]@.id.0] == self.scopes@[i]@,
    {
        let id = self.scopes@[i]@.id.0;
        let at = place(self.scopes@, id);
        assert(0 <= at < self.scopes@.len() && self.scopes@[at]@.id.0 == id);
    }

    /// Creates an empty registry.
    #[must_use]
    pub fn new() -> (registry: Self)
        ensures
            registry@ == RegistryView::fresh(),
            registry.wf(),
    {
        let registry = Self { scopes: Vec::new(), next_scope: 0, next_process: 0 };
        assert(registry@ =~= RegistryView::fresh());
        registry
    }

    /// Whether another scope id can be minted.
    #[must_use]
    pub fn has_scope_ids(&self) -> (left: bool)
        ensures
            left == (self@.next_scope < u64::MAX),
    {
        self.next_scope < u64::MAX
    }

    /// Whether another process id can be minted.
    #[must_use]
    pub fn has_process_ids(&self) -> (left: bool)
        ensures
            left == (self@.next_process < u64::MAX),
    {
        self.next_process < u64::MAX
    }

    /// Mints a fresh, unique scope id.
    pub fn next_scope_id(&mut self) -> (id: ProcessScopeId)
        requires
            old(self).wf(),
            old(self)@.next_scope < u64::MAX,
        ensures
            id.0 == old(self)@.next_scope + 1,
            final(self)@ == (RegistryView { next_scope: id.0, ..old(self)@ }),
            final(self).wf(),
    {
        self.next_scope = self.next_scope + 1;
        assert(self@ =~= RegistryView { next_scope: self.next_scope, ..old(self)@ });
        ProcessScopeId::new(self.next_scope)
    }

    /// Mints a fresh, unique process id.
    pub fn next_process_id(&mut self) -> (id: ProcessId)
        requires
            old(self).wf(),
            old(self)@.next_process < u64::MAX,
        ensures
            id.0 == old(self)@.next_process + 1,
            final(self)@ == (RegistryView { next_process: id.0, ..old(self)@ }),
            final(self).wf(),
    {
        self.next_process = self.next_process + 1;
        assert(self@ =~= RegistryView { next_process: self.next_process, ..old(self)@ });
        ProcessId::new(self.next_process)
    }

    /// Inserts a new scope and returns its id.
    pub fn create_scope(&mut self) -> (id: ProcessScopeId)
        requires
            old(self).wf(),
            old(self)@.next_scope < u64::MAX,
        ensures
            id.0 == old(self)@.next_scope + 1,
            !old(self)@.scopes.contains_key(id.0),
            final(self)@ == (RegistryView {
                scopes: old(self)@.scopes.insert(id.0, ScopeView::fresh(id)),
                next_scope: id.0,
                ..old(self)@
            }),
            final(self).wf(),
    {
        let ghost before = old(self)@;
        let ghost held = *old(self);
        self.next_scope = self.next_scope + 1;
        let id = ProcessScopeId::new(self.next_scope);
        proof {
            assert forall|i: int| 0 <= i < self.scopes@.len() implies (#[trigger] self.scopes@[i])@.id.0
                < id.0 by {
                held.lemma_place(i);
            }
        }
        self.scopes.push(ProcessScope::new(id));
        proof {
            let last = self.scopes@.len() - 1;
            assert(self.ordered());
            assert forall|i: int| 0 <= i < last implies (#[trigger] self.scopes@[i])
                == held.scopes@[i] by {}
            assert forall|other: u64| #[trigger]
                self@.scopes.contains_key(other) <==> before.scopes.contains_key(other) || other
                == id.0 by {
                if placed(held.scopes@, other) {
                    let at = place(held.scopes@, other);
                    assert(self.scopes@[at]@.id.0 == other);
                }
                if placed(self.scopes@, other) && other != id.0 {
                    let at = place(self.scopes@, other);
                    assert(held.scopes@[at]@.id.0 == other);
                }
                if other == id.0 {
                    assert(self.scopes@[last]@.id.0 == id.0);
                }
            }
            assert forall|other: u64| #[trigger]
                self@.scopes.contains_key(other) implies self@.scopes[other] == (if other == id.0 {
                ScopeView::fresh(id)
            } else {
                before.scopes[other]
            }) by {
                if other == id.0 {
                    self.lemma_place(last);
                } else {
                    let at = place(held.scopes@, other);
                    assert(placed(held.scopes@, other));
                    held.lemma_place(at);
                    self.lemma_place(at);
                }
            }
            assert(self@.scopes =~= before.scopes.insert(id.0, ScopeView::fresh(id)));
        }
        id
    }

    /// Where the scope `id` stands.
    fn find(&self, id: u64) -> (at: Option<usize>)
        requires
            self.ordered(),
        ensures
            match at {
                Some(i) => {
                    &&& i < self.scopes@.len()
                    &&& self.scopes@[i as int]@.id.0 == id
                    &&& self@.scopes.contains_key(id)
                    &&& self@.scopes[id] == self.scopes@[i as int]@
                },
                None => !self@.scopes.contains_key(id),
            },
    {
        let mut i: usize = 0;
        while i < self.scopes.len()
            invariant
                i <= self.scopes@.len(),
                self.ordered(),
                forall|j: int| 0 <= j < i ==> (#[trigger] self.scopes@[j])@.id.0 != id,
            decreases self.scopes@.len() - i,
        {
            if self.scopes[i].id().0 == id {
                proof {
                    self.lemma_place(i as int);
                }
                return Some(i);
            }
            i = i + 1;
        }
        None
    }

    /// Borrows a scope.
    #[must_use]
    pub fn get(&self, id: ProcessScopeId) -> (scope: Option<&ProcessScope>)
        requires
            self.wf(),
        ensures
            scope is Some <==> self@.scopes.contains_key(id.0),
            scope matches Some(found) ==> found@ == self@.scopes[id.0],
    {
        match self.find(id.0) {
            Some(i) => Some(&self.scopes[i]),
            None => None,
        }
    }

    /// Mutably borrows a scope. The registry stays well formed as long as the scope does and
    /// keeps its identity.
    pub fn get_mut(&mut self, id: ProcessScopeId) -> (scope: Option<&mut ProcessScope>)
        requires
            old(self).wf(),
        ensures
            match scope {
                Some(found) => {
                    &&& old(self)@.scopes.contains_key(id.0)
                    &&& found@ == old(self)@.scopes[id.0]
                    &&& final(found)@.id == id && final(found)@.wf() ==> {
                        &&& final(self).wf()
                        &&& final(self)@ == old(self)@.with(id.0, final(found)@)
                    }
                },
                None => {
                    &&& !old(self)@.scopes.contains_key(id.0)
                    &&& *final(self) == *old(self)
                },
            },
    {
        let ghost before = *self;
        match self.find(id.0) {
            Some(i) => {
                assert forall|after: Self|
                    #![trigger after.wf()]
                    #![trigger after@]
                    {
                        &&& after.scopes@ == before.scopes@.update(i as int, after.scopes@[i as int])
                        &&& after.next_scope == before.next_scope
                        &&& after.next_process == before.next_process
                        &&& after.scopes@[i as int]@.id == before.scopes@[i as int]@.id
                        &&& after.scopes@[i as int]@.wf()
                    } implies after.wf() && after@ == before@.with(
                    id.0,
                    after.scopes@[i as int]@,
                ) by {
                    Self::lemma_replaced(before, after, i as int);
                }
                Some(&mut self.scopes[i])
            },
            None => None,
        }
    }

    /// Replacing a scope by another state of itself keeps the registry in order.
    proof fn lemma_replaced(before: Self, after: Self, i: int)
        requires
            before.wf(),
            0 <= i < before.scopes@.len(),
            after.scopes@ == before.scopes@.update(i, after.scopes@[i]),
            after.next_scope == before.next_scope,
            after.next_process == before.next_process,
            after.scopes@[i]@.id == before.scopes@[i]@.id,
            after.scopes@[i]@.wf(),
        ensures
            after.wf(),
            after@ == before@.with(before.scopes@[i]@.id.0, after.scopes@[i]@),
    {
        let id = before.scopes@[i]@.id.0;
        before.lemma_place(i);
        assert(after.ordered());
        assert forall|other: u64| #[trigger]
            after@.scopes.contains_key(other) <==> before@.scopes.contains_key(other) by {
            if placed(before.scopes@, other) {
                let at = place(before.scopes@, other);
                assert(after.scopes@[at]@.id.0 == other);
            }
            if placed(after.scopes@, other) {
                let at = place(after.scopes@, other);
                assert(before.scopes@[at]@.id.0 == other);
            }
        }
        assert forall|other: u64| #[trigger]
            after@.scopes.contains_key(other) implies after@.scopes[other] == (if other == id {
            after.scopes@[i]@
        } else {
            before@.scopes[other]
        }) by {
            let at = place(before.scopes@, other);
            assert(placed(before.scopes@, other));
            before.lemma_place(at);
            after.lemma_place(at);
        }
        assert(after@.scopes =~= before@.scopes.insert(id, after.scopes@[i]@));
    }

    /// Removes a scope from the registry.
    pub fn remove(&mut self, id: ProcessScopeId)
        requires
            old(self).wf(),
        ensures
            final(self)@ == (RegistryView { scopes: old(self)@.scopes.remove(id.0), ..old(self)@ }),
            final(self).wf(),
    {
        let ghost before = *old(self);
        match self.find(id.0) {
            Some(i) => {
                self.scopes.remove(i);
                proof {
                    let gone = i as int;
                    before.lemma_place(gone);
                    assert(self.ordered());
                    assert forall|other: u64| #[trigger]
                        self@.scopes.contains_key(other) <==> before@.scopes.contains_key(other)
                            && other != id.0 by {
                        if placed(self.scopes@, other) {
                            let at = place(self.scopes@, other);
                            let back = if at < gone {
                                at
                            } else {
                                at + 1
                            };
                            assert(before.scopes@[back]@.id.0 == other);
                        }
                        if placed(before.scopes@, other) && other != id.0 {
                            let at = place(before.scopes@, other);
                            let moved = if at < gone {
                                at
                            } else {
                                at - 1
                            };
                            assert(self.scopes@[moved]@.id.0 == other);
                        }
                    }
                    assert forall|other: u64| #[trigger]
                        self@.scopes.contains_key(other) implies self@.scopes[other]
                        == before@.scopes[other] by {
                        let at = place(self.scopes@, other);
                        assert(placed(self.scopes@, other));
                        self.lemma_place(at);
                        let back = if at < gone {
                            at
                        } else {
                            at + 1
                        };
                        before.lemma_place(back);
                    }
                    assert(self@.scopes =~= before@.scopes.remove(id.0));
                }
            },
            None => {
                assert(before@.scopes.remove(id.0) =~= before@.scopes);
            },
        }
    }

    /// All scope ids currently tracked, ascending.
    #[must_use]
    pub fn scope_ids(&self) -> (ids: Vec<ProcessScopeId>)
        requires
            self.wf(),
        ensures
            crate::domain::table::lists(raw_scope_ids(ids@), self@.scopes.dom()),
    {
        let mut ids: Vec<ProcessScopeId> = Vec::new();
        let mut i: usize = 0;
        while i < self.scopes.len()
            invariant
                i <= self.scopes@.len(),
                ids@.len() == i,
                forall|j: int| 0 <= j < i ==> (#[trigger] ids@[j]) == self.scopes@[j]@.id,
            decreases self.scopes@.len() - i,
        {
            ids.push(self.scopes[i].id());
            i = i + 1;
        }
        proof {
            let keys = raw_scope_ids(ids@);
            assert forall|a: int, b: int| 0 <= a < b < keys.len() implies keys[a] < keys[b] by {
                assert(self.scopes@[a]@.id.0 < self.scopes@[b]@.id.0);
            }
            assert forall|id: u64| #[trigger]
                keys.contains(id) <==> self@.scopes.dom().contains(id) by {
                if keys.contains(id) {
                    let at = keys.index_of(id);
                    assert(self.scopes@[at]@.id.0 == id);
                }
                if placed(self.scopes@, id) {
                    let at = place(self.scopes@, id);
                    assert(keys[at] == id);
                }
            }
        }
        ids
    }

    /// Finds the scope that owns `pid`, if any: the one with the smallest identifier.
    #[must_use]
    pub fn scope_of(&self, pid: ProcessId) -> (owner: Option<ProcessScopeId>)
        requires
            self.wf(),
        ensures
            owner is Some <==> exists|id: u64| #[trigger] self@.owns(id, pid.0),
            owner matches Some(found) ==> {
                &&& self@.owns(found.0, pid.0)
                &&& forall|id: u64| #[trigger] self@.owns(id, pid.0) ==> found.0 <= id
            },
    {
        let mut i: usize = 0;
        while i < self.scopes.len()
            invariant
                i <= self.scopes@.len(),
                self.ordered(),
                forall|j: int|
                    0 <= j < i ==> !(#[trigger] self.scopes@[j])@.processes.contains_key(pid.0),
            decreases self.scopes@.len() - i,
        {
            if self.scopes[i].contains(pid) {
                let id = self.scopes[i].id();
                proof {
                    self.lemma_place(i as int);
                    assert(self@.owns(id.0, pid.0));
                    assert forall|other: u64| #[trigger]
                        self@.owns(other, pid.0) implies id.0 <= other by {
                        let at = place(self.scopes@, other);
                        assert(placed(self.scopes@, other));
                        self.lemma_place(at);
                        if at < i {
                            assert(!self.scopes@[at]@.processes.contains_key(pid.0));
                        }
                    }
                }
                return Some(id);
            }
            i = i + 1;
        }
        assert forall|id: u64| !#[trigger] self@.owns(id, pid.0) by {
            if self@.owns(id, pid.0) {
                let at = place(self.scopes@, id);
                assert(placed(self.scopes@, id));
                self.lemma_place(at);
                assert(!self.scopes@[at]@.processes.contains_key(pid.0));
            }
        }
        None
    }
}

} // verus!
