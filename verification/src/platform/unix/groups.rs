//! What becomes of a scope's group, its anchor and its children as things happen to them.
use vstd::prelude::*;
use crate::domain::exit::RawExit;
use crate::domain::ids::ProcessScopeId;
use crate::domain::os::OsIdentity;
use crate::domain::spec::Signal;
use crate::platform::children::ChildKey;
use crate::platform::unix::{
    AnchorNeed, GroupPlan, SignalPlan, SignalSent, SpawnPlan, UnixView,
};

verus! {

/// Nothing of `after` differs from `before` but what is kept of `scope`.
pub open spec fn differs_in_one_scope(
    before: UnixView,
    after: UnixView,
    scope: ProcessScopeId,
) -> bool {
    &&& after.cgroups == before.cgroups
    &&& after.groups.remove(scope.0) == before.groups.remove(scope.0)
    &&& after.anchors.remove(scope.0) == before.anchors.remove(scope.0)
}

/// A new anchor pins its group: children join that group, signals go to it, and nothing more is
/// needed.
pub proof fn a_new_anchor_pins_its_group(
    view: UnixView,
    scope: ProcessScopeId,
    pgid: i32,
    number: i32,
)
    requires
        !view.cgroups,
    ensures
        ({
            let after = view.with_anchor(scope, pgid);
            &&& view.anchors.contains_key(scope.0) || view.needed(scope) == Some(AnchorNeed::Create)
            &&& after.needed(scope) == Some(AnchorNeed::Ready)
            &&& after.join_planned(scope) == SpawnPlan::Join(pgid)
            &&& after.planned(scope, number) == (GroupPlan::Send { pgid, number })
            &&& after.anchored_by(scope, pgid)
            &&& after.groups[scope.0].live == 0
            &&& after.children == view.children
            &&& after.samples == view.samples
            &&& differs_in_one_scope(view, after, scope)
        }),
{
    let after = view.with_anchor(scope, pgid);
    assert(after.groups.remove(scope.0) =~= view.groups.remove(scope.0));
    assert(after.anchors.remove(scope.0) =~= view.anchors.remove(scope.0));
}

/// The group of an anchor that was waited for gets no signal and takes no child before it is known
/// to be gone; and it is looked for only once no child of it is left.
pub proof fn a_lost_anchor_stops_everything(
    view: UnixView,
    scope: ProcessScopeId,
    pgid: i32,
    exit: Result<(), String>,
    number: i32,
)
    requires
        !view.cgroups,
        view.wf(),
        view.anchors.contains_key(scope.0),
        view.groups[scope.0].pgid == pgid,
        !view.anchors[scope.0].kill_issued,
    ensures
        ({
            let after = view.anchor_ended(scope, pgid, exit);
            &&& after.planned(scope, number) == GroupPlan::Probe(pgid)
            &&& after.join_planned(scope) is Recheck
            &&& after.needed(scope) is Some <==> exit is Ok && view.groups[scope.0].live == 0
            &&& after.needed(scope) is Some ==> after.needed(scope) == Some(AnchorNeed::Probe(pgid))
            &&& after.without_scope(scope).needed(scope) == Some(AnchorNeed::Create)
            &&& after.without_scope(scope).join_planned(scope) is Fresh
            &&& after.children == view.children
            &&& after.samples == view.samples
            &&& after.groups == view.groups
            &&& differs_in_one_scope(view, after, scope)
        }),
{
    let after = view.anchor_ended(scope, pgid, exit);
    assert(after.anchors.remove(scope.0) =~= view.anchors.remove(scope.0));
}

/// The end of a process that leads another group says nothing about an anchor.
pub proof fn only_the_leader_ends_the_anchor(
    view: UnixView,
    scope: ProcessScopeId,
    pgid: i32,
    exit: Result<(), String>,
)
    ensures
        !view.anchors.contains_key(scope.0) || view.groups[scope.0].pgid != pgid
            ==> view.anchor_ended(scope, pgid, exit) == view,
        view.anchors.contains_key(scope.0) && view.groups[scope.0].pgid == pgid
            ==> view.anchor_ended(scope, pgid, exit).anchors[scope.0].kill_issued
            == view.anchors[scope.0].kill_issued,
{
}

/// A forceful signal that went out closes the scope for good: nothing is sent to its group and no
/// child joins it any more. Every other signal, and one that was refused, changes nothing.
pub proof fn a_forceful_signal_closes_the_scope(
    view: UnixView,
    scope: ProcessScopeId,
    sent: SignalSent,
    number: i32,
    other: i32,
)
    requires
        !view.cgroups,
        view.wf(),
        view.anchors.contains_key(scope.0),
    ensures
        ({
            let after = view.group_told(scope, number, sent);
            &&& number == 9 && !(sent is Failed) ==> {
                &&& after.planned(scope, other) is Skip
                &&& after.join_planned(scope) is Recheck
                &&& after.needed(scope) is None
                &&& after.anchors[scope.0].exit == view.anchors[scope.0].exit
            }
            &&& number != 9 || sent is Failed ==> after == view
            &&& after.children == view.children
            &&& after.samples == view.samples
            &&& after.groups == view.groups
            &&& differs_in_one_scope(view, after, scope)
        }),
{
    let after = view.group_told(scope, number, sent);
    assert(after.anchors.remove(scope.0) =~= view.anchors.remove(scope.0));
}

/// Without an anchor a forceful signal leaves nothing to remember.
pub proof fn a_scope_without_anchor_is_not_closed(
    view: UnixView,
    scope: ProcessScopeId,
    sent: SignalSent,
    number: i32,
)
    requires
        !view.anchors.contains_key(scope.0),
    ensures
        view.group_told(scope, number, sent) == view,
{
}

/// What a scope needs, and where its children go, follows from its anchor alone where there is
/// one. Under control groups nothing is needed.
pub proof fn an_anchor_decides_what_a_scope_needs(view: UnixView, scope: ProcessScopeId)
    ensures
        view.cgroups ==> view.needed(scope) == Some(AnchorNeed::Ready),
        !view.cgroups && !view.anchors.contains_key(scope.0) ==> view.needed(scope) == Some(
            AnchorNeed::Create,
        ),
        !view.anchors.contains_key(scope.0) ==> view.join_planned(scope) !is Recheck,
        view.anchors.contains_key(scope.0) ==> (view.join_planned(scope) is Recheck <==> (
        view.anchors[scope.0].kill_issued || view.anchors[scope.0].exit is Some)),
        !view.groups.contains_key(scope.0) && !view.anchors.contains_key(scope.0)
            ==> view.join_planned(scope) is Fresh,
        view.groups.contains_key(scope.0) && view.groups[scope.0].live > 0
            && !view.anchors.contains_key(scope.0) ==> view.join_planned(scope) == SpawnPlan::Join(
            view.groups[scope.0].pgid,
        ),
        view.groups.contains_key(scope.0) && view.groups[scope.0].live == 0
            && !view.anchors.contains_key(scope.0) ==> view.join_planned(scope) is Fresh,
{
}

/// A new child is kept with its scope, in no sample; it leads a group of its own where it was made
/// to, or where the scope has none, and joins the group of the scope otherwise.
pub proof fn a_new_child_is_counted(
    view: UnixView,
    scope: ProcessScopeId,
    os: OsIdentity,
    pidfd: bool,
    new_group: bool,
)
    requires
        view.groups.contains_key(scope.0) ==> view.groups[scope.0].live < usize::MAX,
    ensures
        ({
            let key = crate::platform::children::key_of(os);
            let after = view.with_child(scope, os, pidfd, new_group);
            &&& after.children.contains_key(key)
            &&& after.children[key].scope == scope
            &&& after.children[key].pidfd == pidfd
            &&& !after.children[key].sampling
            &&& after.children.remove(key) == view.children.remove(key)
            &&& after.samples == view.samples
            &&& after.anchors == view.anchors
            &&& differs_in_one_scope(view, after, scope)
            &&& !new_group && view.groups.contains_key(scope.0) ==> {
                &&& after.groups[scope.0].pgid == view.groups[scope.0].pgid
                &&& after.groups[scope.0].live == view.groups[scope.0].live + 1
            }
            &&& new_group || !view.groups.contains_key(scope.0) ==> {
                &&& after.groups[scope.0].live == 1
                &&& os.pid <= i32::MAX ==> after.groups[scope.0].pgid == os.pid
                &&& os.pid > i32::MAX ==> after.groups[scope.0].pgid == 0
            }
        }),
{
    let key = crate::platform::children::key_of(os);
    let after = view.with_child(scope, os, pidfd, new_group);
    assert(after.children.remove(key) =~= view.children.remove(key));
    assert(after.groups.remove(scope.0) =~= view.groups.remove(scope.0));
}

/// A child that joined and then exited leaves the group as it was before.
pub proof fn an_exit_undoes_a_join(
    view: UnixView,
    scope: ProcessScopeId,
    os: OsIdentity,
    pidfd: bool,
)
    requires
        view.groups.contains_key(scope.0),
        view.groups[scope.0].live < usize::MAX,
    ensures
        view.with_child(scope, os, pidfd, false).child_exited(scope).groups == view.groups,
        view.child_exited(scope).children == view.children,
        view.child_exited(scope).samples == view.samples,
        view.child_exited(scope).anchors == view.anchors,
        view.child_exited(scope).cgroups == view.cgroups,
        view.groups[scope.0].live == 0 ==> view.child_exited(scope).groups == view.groups,
        forall|other: ProcessScopeId|
            !view.groups.contains_key(other.0) ==> #[trigger] view.child_exited(other) == view,
{
    let after = view.with_child(scope, os, pidfd, false).child_exited(scope);
    assert(after.groups =~= view.groups);
    assert(view.groups[scope.0].live == 0 ==> view.child_exited(scope).groups =~= view.groups);
}

/// A scope that is retired leaves neither group nor anchor, and its children stay to be waited for.
pub proof fn a_retired_scope_leaves_its_children(view: UnixView, scope: ProcessScopeId, number: i32)
    ensures
        ({
            let after = view.without_scope(scope);
            &&& !after.groups.contains_key(scope.0)
            &&& !after.anchors.contains_key(scope.0)
            &&& after.planned(scope, number) is Skip
            &&& after.children == view.children
            &&& after.samples == view.samples
            &&& differs_in_one_scope(view, after, scope)
        }),
{
    let after = view.without_scope(scope);
    assert(after.groups.remove(scope.0) =~= view.groups.remove(scope.0));
    assert(after.anchors.remove(scope.0) =~= view.anchors.remove(scope.0));
}

/// Only a confirmed exit makes a child forgotten, with its sample, and no other child with it.
pub proof fn a_failed_wait_forgets_nobody(
    view: UnixView,
    os: OsIdentity,
    exit: Result<RawExit, String>,
    other: ChildKey,
)
    requires
        other != crate::platform::children::key_of(os),
    ensures
        ({
            let key = crate::platform::children::key_of(os);
            let after = view.waited(os, exit);
            &&& exit is Err ==> after == view
            &&& exit is Ok ==> !after.children.contains_key(key) && !after.samples.contains_key(key)
            &&& after.children.contains_key(other) <==> view.children.contains_key(other)
            &&& view.children.contains_key(other) ==> after.children[other] == view.children[other]
            &&& after.samples.contains_key(other) <==> view.samples.contains_key(other)
            &&& view.samples.contains_key(other) ==> after.samples[other] == view.samples[other]
            &&& after.groups == view.groups
            &&& after.anchors == view.anchors
            &&& after.cgroups == view.cgroups
        }),
{
}

/// A signal reaches a registered child only: through its descriptor where there is one, otherwise
/// by its PID where that has the start time of the child. It carries the number of the signal.
pub proof fn a_signal_reaches_the_child_itself(
    view: UnixView,
    os: OsIdentity,
    signal: Signal,
    start: Option<u64>,
)
    ensures
        ({
            let key = crate::platform::children::key_of(os);
            let plan = view.signal_planned(os, signal, start);
            let known = view.children.contains_key(key);
            &&& !known ==> plan == Ok::<_, Seq<char>>(SignalPlan::Skip)
            &&& plan is Ok && plan->Ok_0 is PidFd <==> known && view.children[key].pidfd
                && crate::platform::signals::signal_number(signal) is Some
            &&& plan is Ok && plan->Ok_0 is PidFd ==> Some(plan->Ok_0->PidFd_0)
                == crate::platform::signals::signal_number(signal)
            &&& plan is Ok && plan->Ok_0 is Pid ==> {
                &&& known && !view.children[key].pidfd
                &&& os.reuse_token is StartTime
                &&& start == Some(os.reuse_token->StartTime_0)
                &&& Some(plan->Ok_0->number) == crate::platform::signals::signal_number(signal)
                &&& os.pid <= i32::MAX ==> plan->Ok_0->pid == os.pid
                &&& os.pid > i32::MAX ==> plan->Ok_0->pid == 0
            }
            &&& known && !view.children[key].pidfd && os.reuse_token is Unavailable ==> plan is Err
            &&& known && !view.children[key].pidfd && os.reuse_token is StartTime && start != Some(
                os.reuse_token->StartTime_0,
            ) ==> plan == Ok::<_, Seq<char>>(SignalPlan::Skip)
            &&& known && !view.children[key].pidfd && os.reuse_token is StartTime && start == Some(
                os.reuse_token->StartTime_0,
            ) && crate::platform::signals::signal_number(signal) is Some ==> plan is Ok
                && plan->Ok_0 is Pid
            &&& plan is Err ==> known
        }),
{
}

/// A scope is signalled through its control group only to kill it, and through its process group
/// otherwise, while that is there and was not told to die.
pub proof fn a_signal_reaches_the_scope_itself(view: UnixView, scope: ProcessScopeId, signal: Signal)
    ensures
        ({
            let plan = view.scope_planned(scope, signal);
            let number = crate::platform::signals::signal_number(signal);
            &&& plan is Some && plan->0 is ControlGroup <==> view.cgroups && signal is Kill
            &&& number is None ==> plan is None
            &&& !(view.cgroups && signal is Kill) && number is Some ==> {
                &&& plan is Some
                &&& !view.groups.contains_key(scope.0) ==> plan->0 is Skip
                &&& view.groups.contains_key(scope.0) && !view.anchors.contains_key(scope.0)
                    ==> plan->0 == (GroupPlan::Send {
                    pgid: view.groups[scope.0].pgid,
                    number: number->0,
                })
                &&& plan->0 is Send ==> plan->0 == (GroupPlan::Send {
                    pgid: view.groups[scope.0].pgid,
                    number: number->0,
                })
                &&& plan->0 is Probe ==> plan->0 == GroupPlan::Probe(view.groups[scope.0].pgid)
            }
        }),
{
}

/// Signals go by their numbers: 15, 9 and 2 for the named ones, and any number that is one of the
/// standard signals for the other ones.
pub proof fn signals_go_by_their_numbers(signal: Signal, raw: i32)
    ensures
        crate::platform::signals::signal_number(signal) is Some ==> 1
            <= crate::platform::signals::signal_number(signal)->0 <= 31,
        signal is Term ==> crate::platform::signals::signal_number(signal) == Some(15i32),
        signal is Kill ==> crate::platform::signals::signal_number(signal) == Some(9i32),
        signal is Interrupt ==> crate::platform::signals::signal_number(signal) == Some(2i32),
        crate::platform::signals::signal_number(Signal::Custom(raw)) is Some <==> 1 <= raw <= 31,
        1 <= raw <= 31 ==> crate::platform::signals::signal_number(Signal::Custom(raw)) == Some(raw),
        crate::platform::signals::named_signal(raw) is Term <==> raw == 15,
        crate::platform::signals::named_signal(raw) is Kill <==> raw == 9,
        crate::platform::signals::named_signal(raw) is Interrupt <==> raw == 2,
        crate::platform::signals::named_signal(raw) is Custom
            ==> crate::platform::signals::named_signal(raw) == Signal::Custom(raw),
{
}

/// A sample that begins and returns leaves the child as it was, but for the mark in between.
pub proof fn a_sample_is_marked_while_it_runs(view: UnixView, os: OsIdentity)
    requires
        view.children.contains_key(crate::platform::children::key_of(os)),
        !view.children[crate::platform::children::key_of(os)].sampling,
    ensures
        view.sampling(os, true).children[crate::platform::children::key_of(os)].sampling,
        view.sampling(os, true).sampling(os, false) == view,
        view.sampling(os, true).samples == view.samples,
        view.sampling(os, true).groups == view.groups,
        view.sampling(os, true).anchors == view.anchors,
{
    let key = crate::platform::children::key_of(os);
    assert(view.sampling(os, true).sampling(os, false).children =~= view.children);
}

/// After a failed spawn a group is forgotten only if the child was to join it and nothing pins it.
pub proof fn an_unpinned_group_is_not_joined_twice(
    view: UnixView,
    scope: ProcessScopeId,
    plan: SpawnPlan,
)
    ensures
        ({
            let after = view.spawn_given_up(scope, plan);
            &&& plan is Join && !view.anchors.contains_key(scope.0) ==> after.join_planned(
                scope,
            ) is Fresh
            &&& plan !is Join || view.anchors.contains_key(scope.0) ==> after == view
            &&& after.children == view.children
            &&& after.samples == view.samples
            &&& after.anchors == view.anchors
            &&& differs_in_one_scope(view, after, scope)
        }),
{
    let after = view.spawn_given_up(scope, plan);
    assert(after.groups.remove(scope.0) =~= view.groups.remove(scope.0));
}

} // verus!
