//! What holds of a registry over any number of calls: no identifier is given out twice.
use vstd::prelude::*;
use crate::domain::ids::ProcessScopeId;
use crate::domain::scope::ScopeView;
use crate::supervision::registry::RegistryView;

verus! {

/// Everything that can be done to a registry.
pub enum RegistryCall {
    /// A scope identifier is minted.
    NextScopeId,
    /// A process identifier is minted.
    NextProcessId,
    /// A scope is created.
    CreateScope,
    /// A tracked scope takes on another state.
    Change {
        /// The scope.
        id: u64,
        /// Its state.
        scope: ScopeView,
    },
    /// A scope is removed.
    Remove {
        /// The scope.
        id: u64,
    },
}

impl RegistryCall {
    /// The call can be made on a registry that shows `registry`.
    pub open spec fn allowed(self, registry: RegistryView) -> bool {
        match self {
            RegistryCall::NextScopeId => registry.next_scope < u64::MAX,
            RegistryCall::NextProcessId => registry.next_process < u64::MAX,
            RegistryCall::CreateScope => registry.next_scope < u64::MAX,
            RegistryCall::Change { id, scope } => registry.scopes.contains_key(id) && scope.id.0
                == id && scope.wf(),
            RegistryCall::Remove { .. } => true,
        }
    }

    /// What the registry shows after the call.
    pub open spec fn applied(self, registry: RegistryView) -> RegistryView {
        let id = ProcessScopeId((registry.next_scope + 1) as u64);
        match self {
            RegistryCall::NextScopeId => RegistryView { next_scope: id.0, ..registry },
            RegistryCall::NextProcessId => RegistryView {
                next_process: (registry.next_process + 1) as u64,
                ..registry
            },
            RegistryCall::CreateScope => RegistryView {
                scopes: registry.scopes.insert(id.0, ScopeView::fresh(id)),
                next_scope: id.0,
                ..registry
            },
            RegistryCall::Change { id, scope } => registry.with(id, scope),
            RegistryCall::Remove { id } => RegistryView {
                scopes: registry.scopes.remove(id),
                ..registry
            },
        }
    }

    /// The call gives out a scope identifier.
    pub open spec fn mints_scope(self) -> bool {
        self is NextScopeId || self is CreateScope
    }
}

/// The registry after `calls`.
pub open spec fn after(calls: Seq<RegistryCall>) -> RegistryView
    decreases calls.len(),
{
    if calls.len() == 0 {
        RegistryView::fresh()
    } else {
        calls.last().applied(after(calls.drop_last()))
    }
}

/// `calls` can be made on a registry, one after the other.
pub open spec fn feasible(calls: Seq<RegistryCall>) -> bool
    decreases calls.len(),
{
    calls.len() == 0 || {
        &&& feasible(calls.drop_last())
        &&& calls.last().allowed(after(calls.drop_last()))
    }
}

/// The scope identifier that the call at `at` gives out, if it gives out one.
pub open spec fn scope_minted(calls: Seq<RegistryCall>, at: int) -> int {
    after(calls.take(at)).next_scope + 1
}

/// The process identifier that the call at `at` gives out, if it gives out one.
pub open spec fn process_minted(calls: Seq<RegistryCall>, at: int) -> int {
    after(calls.take(at)).next_process + 1
}

/// A beginning of feasible calls is feasible.
proof fn lemma_beginning(calls: Seq<RegistryCall>, at: int)
    requires
        feasible(calls),
        0 <= at < calls.len(),
    ensures
        calls[at].allowed(after(calls.take(at))),
        after(calls.take(at + 1)) == calls[at].applied(after(calls.take(at))),
    decreases calls.len(),
{
    let rest = calls.drop_last();
    if at < rest.len() {
        lemma_beginning(rest, at);
        assert(rest.take(at) =~= calls.take(at));
        assert(rest.take(at + 1) =~= calls.take(at + 1));
    } else {
        assert(calls.take(at) =~= rest);
        assert(calls.take(at + 1) =~= calls);
    }
}

/// No call takes an identifier back.
proof fn lemma_identifiers_grow(calls: Seq<RegistryCall>, first: int, second: int)
    requires
        feasible(calls),
        0 <= first <= second <= calls.len(),
    ensures
        scope_minted(calls, first) <= scope_minted(calls, second),
        process_minted(calls, first) <= process_minted(calls, second),
    decreases second - first,
{
    if first < second {
        lemma_beginning(calls, first);
        lemma_identifiers_grow(calls, first + 1, second);
    }
}

/// A minted scope identifier differs from every one that was given out before, whether its scope
/// was created, removed or never created at all.
pub proof fn minted_scope_ids_never_repeat(calls: Seq<RegistryCall>, earlier: int, later: int)
    requires
        feasible(calls),
        0 <= earlier < later < calls.len(),
        calls[earlier].mints_scope(),
        calls[later].mints_scope(),
    ensures
        scope_minted(calls, earlier) < scope_minted(calls, later),
{
    lemma_beginning(calls, earlier);
    lemma_identifiers_grow(calls, earlier + 1, later);
}

/// A minted process identifier differs from every one that was given out before.
pub proof fn minted_process_ids_never_repeat(calls: Seq<RegistryCall>, earlier: int, later: int)
    requires
        feasible(calls),
        0 <= earlier < later < calls.len(),
        calls[earlier] is NextProcessId,
        calls[later] is NextProcessId,
    ensures
        process_minted(calls, earlier) < process_minted(calls, later),
{
    lemma_beginning(calls, earlier);
    lemma_identifiers_grow(calls, earlier + 1, later);
}

/// A created scope is new, open and empty, stands behind all others in the list, and leaves them
/// as they are.
pub proof fn created_scope_joins_the_others(registry: RegistryView, ids: Seq<u64>, other: u64)
    requires
        registry.wf(),
        RegistryCall::CreateScope.allowed(registry),
        crate::domain::table::lists(ids, registry.scopes.dom()),
    ensures
        ({
            let grown = RegistryCall::CreateScope.applied(registry);
            let id = grown.next_scope;
            &&& !registry.scopes.contains_key(id)
            &&& grown.scopes.contains_key(id)
            &&& grown.scopes[id] == ScopeView::fresh(ProcessScopeId(id))
            &&& crate::domain::table::lists(ids.push(id), grown.scopes.dom())
            &&& other != id ==> {
                &&& grown.scopes.contains_key(other) <==> registry.scopes.contains_key(other)
                &&& registry.scopes.contains_key(other) ==> grown.scopes[other]
                    == registry.scopes[other]
            }
        }),
{
    let id = RegistryCall::CreateScope.applied(registry).next_scope;
    crate::domain::table::lemma_pushed(ids, id);
    assert forall|i: int| 0 <= i < ids.len() implies ids[i] < id by {
        assert(ids.contains(ids[i]));
    }
}

} // verus!
