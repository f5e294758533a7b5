//! What holds of the Unix backend whatever happens to it.
use vstd::prelude::*;
use crate::domain::ids::ProcessScopeId;
use crate::domain::os::OsIdentity;
use crate::platform::children::ChildKey;
use crate::platform::unix::{Anchor, UnixView};

verus! {

/// A child is forgotten only when its own exit is confirmed: nothing that happens to a scope or
/// to another child takes it away from the last resort.
pub proof fn children_stay_registered(
    view: UnixView,
    scope: ProcessScopeId,
    os: OsIdentity,
    pidfd: bool,
    new_group: bool,
    key: ChildKey,
    other: ChildKey,
)
    requires
        view.children.contains_key(key),
        key != other,
    ensures
        view.with_child(scope, os, pidfd, new_group).children.contains_key(key),
        view.child_exited(scope).children.contains_key(key),
        view.without_scope(scope).children.contains_key(key),
        view.without_child(other).children.contains_key(key),
        view.without_child(other).children[key] == view.children[key],
{
}

/// A child with a known start time is never mistaken for one with another: registering it leaves
/// the slot of the other untouched.
pub proof fn recycled_pid_keeps_the_unreaped_child(
    view: UnixView,
    scope: ProcessScopeId,
    os: OsIdentity,
    pidfd: bool,
    new_group: bool,
    earlier: OsIdentity,
)
    requires
        crate::platform::children::key_of(earlier) != crate::platform::children::key_of(os),
        view.children.contains_key(crate::platform::children::key_of(earlier)),
    ensures
        view.with_child(scope, os, pidfd, new_group).children[crate::platform::children::key_of(
            earlier,
        )] == view.children[crate::platform::children::key_of(earlier)],
{
}

/// The anchor that a forceful signal to a scope leaves behind.
pub open spec fn told_to_die(view: UnixView, scope: ProcessScopeId) -> UnixView {
    UnixView {
        anchors: view.anchors.insert(
            scope.0,
            Anchor { kill_issued: true, ..view.anchors[scope.0] },
        ),
        ..view
    }
}

/// Once its group was told to die, a scope joins no child to that group any more, whatever
/// happens to its children or to its anchor, until the scope is retired.
pub proof fn scope_told_to_die_stays_closed(
    view: UnixView,
    scope: ProcessScopeId,
    os: OsIdentity,
    pidfd: bool,
    new_group: bool,
    key: ChildKey,
)
    requires
        view.wf(),
        view.anchors.contains_key(scope.0),
    ensures
        told_to_die(view, scope).anchor_spent(scope),
        told_to_die(view, scope).with_child(scope, os, pidfd, new_group).anchor_spent(scope),
        told_to_die(view, scope).child_exited(scope).anchor_spent(scope),
        told_to_die(view, scope).without_child(key).anchor_spent(scope),
        !told_to_die(view, scope).without_scope(scope).anchor_spent(scope),
{
}

/// What happens to one scope changes neither the group nor the anchor of another.
pub proof fn scopes_keep_their_own_groups(
    view: UnixView,
    scope: ProcessScopeId,
    os: OsIdentity,
    pidfd: bool,
    new_group: bool,
    other: ProcessScopeId,
)
    requires
        scope != other,
    ensures
        forall|after: UnixView|
            #![trigger after.joinable(other)]
            after == view.with_child(scope, os, pidfd, new_group) || after == view.child_exited(
                scope,
            ) || after == view.without_scope(scope) || after == told_to_die(view, scope)
                ==> after.joinable(other) == view.joinable(other) && after.anchor_spent(other)
                == view.anchor_spent(other),
{
}

/// A group is only joined by number while a live child or an anchor pins the number.
pub proof fn joined_groups_are_pinned(view: UnixView, scope: ProcessScopeId)
    ensures
        view.joinable(scope) is Some ==> view.groups.contains_key(scope.0) && (
        view.groups[scope.0].live > 0 || view.anchors.contains_key(scope.0)),
{
}

} // verus!
