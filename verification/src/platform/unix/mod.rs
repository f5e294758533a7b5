//! What the Unix backend remembers of its children, their process groups and the anchors that
//! pin those groups, and what it decides from that.
pub mod groups;
pub mod laws;
pub mod sampling;
use vstd::prelude::*;
use vstd::string::StringExecFns;
use crate::domain::capability::{Capabilities, Containment, Support};
use crate::domain::exit::RawExit;
use crate::domain::ids::ProcessScopeId;
use crate::domain::os::{OsIdentity, ReuseToken};
use crate::domain::spec::Signal;
use crate::domain::table::Table;
use crate::domain::text::push_decimal;
use crate::domain::time::Instant;
use crate::platform::children::{child_key, identity_still_matches, ChildKey, Children};
use crate::platform::signals::to_nix;
use crate::supervision::error::{SpawnError, TerminateError, WaitError};
use crate::supervision::ports::Spawned;

verus! {

/// The number of the forceful signal.
pub const FORCE_NUMBER: i32 = 9;

/// Seconds to wait for an anchor to be reaped.
pub const ANCHOR_REAP_SECS: u64 = 5;

/// What is kept of a child until its exit is confirmed.
#[derive(Debug, Clone, Copy, PartialEq, Eq, Structural)]
pub struct ChildSlot {
    /// The scope the child was spawned in.
    pub scope: ProcessScopeId,
    /// Whether a process file descriptor of the child is open.
    pub pidfd: bool,
    /// Whether a native sample of the child is running.
    pub sampling: bool,
}

/// The process group of a scope.
#[derive(Debug, Clone, Copy, PartialEq, Eq, Structural)]
pub struct ScopeGroup {
    /// The group's number.
    pub pgid: i32,
    /// How many tracked children in it have not exited.
    pub live: usize,
}

/// The process that pins the group of a scope, so that the kernel cannot hand out its number
/// again.
#[derive(Debug, PartialEq, Eq)]
pub struct Anchor {
    /// How waiting for the anchor ended, once it has.
    pub exit: Option<Result<(), String>>,
    /// Whether the whole group was told to die.
    pub kill_issued: bool,
}

/// The CPU time of a child at its last sample.
#[derive(Debug, Clone, Copy, PartialEq, Eq, Structural)]
pub struct CpuSample {
    /// When the sample was taken.
    pub taken_at: Instant,
    /// CPU time, in clock units.
    pub ticks: u64,
}

/// What a [`UnixProcessBackend`] holds.
#[verifier::ext_equal]
pub struct UnixView {
    /// Whether control groups contain the scopes.
    pub cgroups: bool,
    /// The children whose exit is not confirmed.
    pub children: Map<ChildKey, ChildSlot>,
    /// The last CPU sample of each of them that has one.
    pub samples: Map<ChildKey, CpuSample>,
    /// The process group of each scope that has one.
    pub groups: Map<u64, ScopeGroup>,
    /// The anchor of each scope that has one.
    pub anchors: Map<u64, Anchor>,
}

impl UnixView {
    /// An anchor never stands without its group, none is needed under control groups, and only
    /// children are sampled.
    pub open spec fn wf(self) -> bool {
        &&& self.anchored()
        &&& forall|key: ChildKey| #[trigger]
            self.samples.contains_key(key) ==> self.children.contains_key(key)
    }

    /// An anchor never stands without its group, and none is needed under control groups.
    pub open spec fn anchored(self) -> bool {
        forall|scope: u64| #[trigger]
            self.anchors.contains_key(scope) ==> self.groups.contains_key(scope) && !self.cgroups
    }

    /// The scope has an anchor whose end was seen, or whose group was told to die.
    pub open spec fn anchor_spent(self, scope: ProcessScopeId) -> bool {
        self.anchors.contains_key(scope.0) && (self.anchors[scope.0].kill_issued
            || self.anchors[scope.0].exit is Some)
    }

    /// The group that a new child of the scope may join.
    pub open spec fn joinable(self, scope: ProcessScopeId) -> Option<i32> {
        if self.groups.contains_key(scope.0) && (self.groups[scope.0].live > 0
            || self.anchors.contains_key(scope.0)) {
            Some(self.groups[scope.0].pgid)
        } else {
            None
        }
    }

    /// The state after a child was registered.
    pub open spec fn with_child(
        self,
        scope: ProcessScopeId,
        os: OsIdentity,
        pidfd: bool,
        new_group: bool,
    ) -> UnixView {
        UnixView {
            children: self.children.insert(
                crate::platform::children::key_of(os),
                ChildSlot { scope, pidfd, sampling: false },
            ),
            groups: self.groups.insert(
                scope.0,
                if new_group || !self.groups.contains_key(scope.0) {
                    ScopeGroup { pgid: native_pid_of(os.pid), live: 1 }
                } else {
                    ScopeGroup {
                        pgid: self.groups[scope.0].pgid,
                        live: if self.groups[scope.0].live == usize::MAX {
                            usize::MAX
                        } else {
                            (self.groups[scope.0].live + 1) as usize
                        },
                    }
                },
            ),
            ..self
        }
    }

    /// The state after the exit of a child of the scope was seen.
    pub open spec fn child_exited(self, scope: ProcessScopeId) -> UnixView {
        if self.groups.contains_key(scope.0) {
            UnixView {
                groups: self.groups.insert(
                    scope.0,
                    ScopeGroup {
                        live: if self.groups[scope.0].live == 0 {
                            0
                        } else {
                            (self.groups[scope.0].live - 1) as usize
                        },
                        ..self.groups[scope.0]
                    },
                ),
                ..self
            }
        } else {
            self
        }
    }

    /// The state without the anchor and the group of a scope.
    pub open spec fn without_scope(self, scope: ProcessScopeId) -> UnixView {
        UnixView {
            groups: self.groups.remove(scope.0),
            anchors: self.anchors.remove(scope.0),
            ..self
        }
    }

    /// How the signal of number `number` reaches the group of `scope`: a group that was told to
    /// die gets no more signals, and one that lost its anchor gets none while it may exist.
    pub open spec fn planned(self, scope: ProcessScopeId, number: i32) -> GroupPlan {
        if !self.groups.contains_key(scope.0) {
            GroupPlan::Skip
        } else if self.anchors.contains_key(scope.0) && self.anchors[scope.0].kill_issued {
            GroupPlan::Skip
        } else if self.anchors.contains_key(scope.0) && self.anchors[scope.0].exit is Some {
            GroupPlan::Probe(self.groups[scope.0].pgid)
        } else {
            GroupPlan::Send { pgid: self.groups[scope.0].pgid, number }
        }
    }

    /// The anchor of `scope` is the one that leads group `pgid`.
    pub open spec fn anchored_by(self, scope: ProcessScopeId, pgid: i32) -> bool {
        self.anchors.contains_key(scope.0) && self.groups[scope.0].pgid == pgid
    }
}

impl UnixView {
    /// A change that leaves every remaining anchor its group keeps the anchors in order.
    proof fn lemma_anchored(self, after: UnixView)
        requires
            self.anchored(),
            after.cgroups == self.cgroups,
            forall|scope: u64| #[trigger]
                after.anchors.contains_key(scope) ==> self.anchors.contains_key(scope) && (
                self.groups.contains_key(scope) ==> after.groups.contains_key(scope)),
        ensures
            after.anchored(),
    {
    }

    /// Forgetting a scope leaves no anchor without a group.
    proof fn lemma_without_scope(self, scope: ProcessScopeId)
        requires
            self.wf(),
        ensures
            self.without_scope(scope).wf(),
    {
        let after = self.without_scope(scope);
        self.lemma_anchored(after);
    }

    /// Registering a child leaves anchors and samples in place.
    proof fn lemma_with_child(
        self,
        scope: ProcessScopeId,
        os: OsIdentity,
        pidfd: bool,
        new_group: bool,
    )
        requires
            self.wf(),
        ensures
            self.with_child(scope, os, pidfd, new_group).wf(),
    {
        let after = self.with_child(scope, os, pidfd, new_group);
        self.lemma_anchored(after);
        assert forall|key: ChildKey| #[trigger]
            after.samples.contains_key(key) implies after.children.contains_key(key) by {
            assert(self.samples.contains_key(key));
        }
    }

    /// What the scope needs before a child is spawned in it; nothing helps one that takes no more
    /// children.
    pub open spec fn needed(self, scope: ProcessScopeId) -> Option<AnchorNeed> {
        if self.cgroups {
            Some(AnchorNeed::Ready)
        } else if !self.anchors.contains_key(scope.0) {
            Some(AnchorNeed::Create)
        } else if self.anchors[scope.0].kill_issued {
            None
        } else {
            match self.anchors[scope.0].exit {
                None => Some(AnchorNeed::Ready),
                Some(Err(_)) => None,
                Some(Ok(_)) => if self.groups[scope.0].live != 0 {
                    None
                } else {
                    Some(AnchorNeed::Probe(self.groups[scope.0].pgid))
                },
            }
        }
    }

    /// The state after a new anchor was made the leader of group `pgid`.
    pub open spec fn with_anchor(self, scope: ProcessScopeId, pgid: i32) -> UnixView {
        UnixView {
            groups: self.groups.insert(scope.0, ScopeGroup { pgid, live: 0 }),
            anchors: self.anchors.insert(scope.0, Anchor { exit: None, kill_issued: false }),
            ..self
        }
    }

    /// The state after the anchor that leads group `pgid` was waited for.
    pub open spec fn anchor_ended(
        self,
        scope: ProcessScopeId,
        pgid: i32,
        exit: Result<(), String>,
    ) -> UnixView {
        if self.anchored_by(scope, pgid) {
            UnixView {
                anchors: self.anchors.insert(
                    scope.0,
                    Anchor { exit: Some(exit), ..self.anchors[scope.0] },
                ),
                ..self
            }
        } else {
            self
        }
    }

    /// The state after the signal of number `number` went out to the group of the scope, or was
    /// refused.
    pub open spec fn group_told(
        self,
        scope: ProcessScopeId,
        number: i32,
        sent: SignalSent,
    ) -> UnixView {
        if sent !is Failed && number == FORCE_NUMBER && self.anchors.contains_key(scope.0) {
            UnixView {
                anchors: self.anchors.insert(
                    scope.0,
                    Anchor { kill_issued: true, ..self.anchors[scope.0] },
                ),
                ..self
            }
        } else {
            self
        }
    }

    /// Where a new child of the scope goes.
    pub open spec fn join_planned(self, scope: ProcessScopeId) -> SpawnPlan {
        if self.anchor_spent(scope) {
            SpawnPlan::Recheck
        } else {
            match self.joinable(scope) {
                Some(pgid) => SpawnPlan::Join(pgid),
                None => SpawnPlan::Fresh,
            }
        }
    }

    /// How `signal` reaches a child, given the start time read of its PID; or why it does not.
    pub open spec fn signal_planned(
        self,
        os: OsIdentity,
        signal: Signal,
        start: Option<u64>,
    ) -> Result<SignalPlan, Seq<char>> {
        let key = crate::platform::children::key_of(os);
        let number = crate::platform::signals::signal_number(signal);
        if !self.children.contains_key(key) {
            Ok(SignalPlan::Skip)
        } else if self.children[key].pidfd {
            match number {
                Some(accepted) => Ok(SignalPlan::PidFd(accepted)),
                None => Err("EINVAL: Invalid argument"@),
            }
        } else if os.reuse_token is Unavailable {
            Err("no safe process identity available"@)
        } else if !crate::platform::children::still_matches(os, start) {
            Ok(SignalPlan::Skip)
        } else {
            match number {
                Some(accepted) => Ok(
                    SignalPlan::Pid { pid: native_pid_of(os.pid), number: accepted },
                ),
                None => Err("EINVAL: Invalid argument"@),
            }
        }
    }

    /// How `signal` reaches the scope; `None` if it cannot be sent.
    pub open spec fn scope_planned(self, scope: ProcessScopeId, signal: Signal) -> Option<
        GroupPlan,
    > {
        if self.cgroups && signal is Kill {
            Some(GroupPlan::ControlGroup)
        } else {
            match crate::platform::signals::signal_number(signal) {
                None => None,
                Some(number) => Some(self.planned(scope, number)),
            }
        }
    }

    /// The state after the wait for a child ended: only a confirmed exit makes it forgotten.
    pub open spec fn waited(self, os: OsIdentity, exit: Result<RawExit, String>) -> UnixView {
        if exit is Ok {
            self.without_child(crate::platform::children::key_of(os))
        } else {
            self
        }
    }

    /// The state while a native sample of a child runs, or after it returned.
    pub open spec fn sampling(self, os: OsIdentity, running: bool) -> UnixView {
        let key = crate::platform::children::key_of(os);
        if self.children.contains_key(key) {
            UnixView {
                children: self.children.insert(
                    key,
                    ChildSlot { sampling: running, ..self.children[key] },
                ),
                ..self
            }
        } else {
            self
        }
    }

    /// The state after a spawn failed under `plan`: a group that nothing pins is not joined again.
    pub open spec fn spawn_given_up(self, scope: ProcessScopeId, plan: SpawnPlan) -> UnixView {
        if plan is Join && !self.anchors.contains_key(scope.0) {
            UnixView { groups: self.groups.remove(scope.0), ..self }
        } else {
            self
        }
    }

    /// The state after the exit of a child was confirmed.
    pub open spec fn without_child(self, key: ChildKey) -> UnixView {
        UnixView {
            children: self.children.remove(key),
            samples: self.samples.remove(key),
            ..self
        }
    }

    /// Forgetting a child forgets its sample.
    proof fn lemma_without_child(self, key: ChildKey)
        requires
            self.wf(),
        ensures
            self.without_child(key).wf(),
    {
        let after = self.without_child(key);
        assert forall|other: ChildKey| #[trigger]
            after.samples.contains_key(other) implies after.children.contains_key(other) by {
            assert(self.samples.contains_key(other));
        }
        self.lemma_anchored(after);
    }
}

/// A PID as the kernel's signed type; zero if it is out of range.
pub open spec fn native_pid_of(pid: u32) -> i32 {
    if pid <= 0x7fff_ffff {
        pid as i32
    } else {
        0
    }
}

/// A PID as the kernel's signed type; zero if it is out of range.
#[must_use]
pub fn native_pid(pid: u32) -> (native: i32)
    ensures
        native == native_pid_of(pid),
{
    if pid <= 0x7fff_ffff {
        pid as i32
    } else {
        0
    }
}

/// What a scope needs before a child is spawned in it.
#[derive(Debug, Clone, Copy, PartialEq, Eq, Structural)]
pub enum AnchorNeed {
    /// Nothing: its group is pinned, or needs no pin.
    Ready,
    /// A new anchor.
    Create,
    /// A look whether group `0` is gone; if it is, the anchor can be replaced.
    Probe(i32),
}

/// Where a new child goes.
#[derive(Debug, Clone, Copy, PartialEq, Eq, Structural)]
pub enum SpawnPlan {
    /// The anchor was lost meanwhile: see to it again first.
    Recheck,
    /// Into the group of this number.
    Join(i32),
    /// Into a group of its own.
    Fresh,
}

/// How a signal reaches a child.
#[derive(Debug, Clone, Copy, PartialEq, Eq, Structural)]
pub enum SignalPlan {
    /// It is not sent: the child is gone, or its PID is another process by now.
    Skip,
    /// Through the open process file descriptor.
    PidFd(i32),
    /// To this PID.
    Pid {
        /// The PID.
        pid: i32,
        /// The number of the signal.
        number: i32,
    },
}

/// How a signal reaches a scope.
#[derive(Debug, Clone, Copy, PartialEq, Eq, Structural)]
pub enum GroupPlan {
    /// Through the kill file of its control group.
    ControlGroup,
    /// It is not sent: there is no group, or the group was told to die already.
    Skip,
    /// Not at all, unless this group turns out to be gone.
    Probe(i32),
    /// To this process group.
    Send {
        /// The group.
        pgid: i32,
        /// The number of the signal.
        number: i32,
    },
}

/// What came of sending a signal.
#[derive(Debug, PartialEq, Eq)]
pub enum SignalSent {
    /// The kernel took it.
    Delivered,
    /// There is no such process any more.
    NoSuchProcess,
    /// The kernel refused.
    Failed(String),
}

/// How waiting for an anchor ended.
#[derive(Debug, PartialEq, Eq)]
pub enum AnchorReap {
    /// The wait returned.
    Waited(Result<(), String>),
    /// Nobody waits for the anchor any more.
    Closed,
    /// The time ran out.
    TimedOut,
}

/// A child that the last resort has to reach.
#[derive(Debug, Clone, Copy, PartialEq, Eq, Structural)]
pub struct Root {
    /// The child.
    pub key: ChildKey,
    /// Whether a process file descriptor of it is open.
    pub pidfd: bool,
}

/// How the last resort reaches a child.
#[derive(Debug, Clone, Copy, PartialEq, Eq, Structural)]
pub enum RootKill {
    /// Through the open process file descriptor.
    PidFd,
    /// By its PID.
    Pid(u32),
    /// Not at all: its PID cannot be told from another process.
    Skip,
}

/// The flavour of Unix a backend runs on.
#[derive(Debug, Clone, Copy, PartialEq, Eq, Structural)]
pub enum UnixFlavor {
    /// Linux.
    Linux,
    /// macOS.
    MacOs,
    /// Any other.
    Other,
}

/// A signal that found no process counts as delivered.
///
/// # Errors
/// Returns [`TerminateError::Signal`] if the kernel refused the signal.
pub fn settle_signal(sent: SignalSent) -> (settled: Result<(), TerminateError>)
    ensures
        settled == (match sent {
            SignalSent::Failed(cause) => Err(TerminateError::Signal(cause)),
            _ => Ok(()),
        }),
{
    match sent {
        SignalSent::Delivered => Ok(()),
        SignalSent::NoSuchProcess => Ok(()),
        SignalSent::Failed(cause) => Err(TerminateError::Signal(cause)),
    }
}

/// Settles a look at the group of a lost anchor. A group that may exist is never signalled.
///
/// # Errors
/// Returns [`TerminateError::Signal`] if the group may still exist.
pub fn settle_group_probe(absent: bool) -> (settled: Result<(), TerminateError>)
    ensures
        match settled {
            Ok(_) => absent,
            Err(TerminateError::Signal(cause)) => !absent && cause@
                == "scope anchor was reaped; refusing to signal an unpinned group"@,
            Err(_) => false,
        },
{
    if absent {
        Ok(())
    } else {
        Err(
            TerminateError::Signal(
                String::from_str("scope anchor was reaped; refusing to signal an unpinned group"),
            ),
        )
    }
}

/// Settles the wait for an anchor.
///
/// # Errors
/// Returns [`TerminateError::Signal`] unless the anchor was reaped.
pub fn settle_anchor_reap(reap: AnchorReap) -> (settled: Result<(), TerminateError>)
    ensures
        match (reap, settled) {
            (AnchorReap::Waited(Ok(_)), Ok(_)) => true,
            (AnchorReap::Waited(Err(cause)), Err(TerminateError::Signal(told))) => told == cause,
            (AnchorReap::Closed, Err(TerminateError::Signal(told))) => told@
                == "anchor waiter closed"@,
            (AnchorReap::TimedOut, Err(TerminateError::Signal(told))) => told@
                == "anchor reap timed out"@,
            _ => false,
        },
{
    match reap {
        AnchorReap::Waited(Ok(())) => Ok(()),
        AnchorReap::Waited(Err(cause)) => Err(TerminateError::Signal(cause)),
        AnchorReap::Closed => Err(
            TerminateError::Signal(String::from_str("anchor waiter closed")),
        ),
        AnchorReap::TimedOut => Err(
            TerminateError::Signal(String::from_str("anchor reap timed out")),
        ),
    }
}

/// What is told of an anchor whose wait was broken off.
#[must_use]
pub fn anchor_interruption() -> (told: String)
    ensures
        told@ == "anchor waiter interrupted; synchronous group kill issued, reap unverified"@,
{
    String::from_str("anchor waiter interrupted; synchronous group kill issued, reap unverified")
}

/// How the last resort reaches `root`: by its PID only where that has the start time of the child.
pub open spec fn root_killed(root: Root, start: Option<u64>) -> RootKill {
    if root.pidfd {
        RootKill::PidFd
    } else if root.key.token != 0 && start == Some(root.key.token) {
        RootKill::Pid(root.key.pid)
    } else {
        RootKill::Skip
    }
}

/// How the last resort reaches `root`, given the start time read of its PID now.
#[must_use]
pub fn root_kill(root: Root, start: Option<u64>) -> (kill: RootKill)
    ensures
        kill == (if root.pidfd {
            RootKill::PidFd
        } else if root.key.token != 0 && start == Some(root.key.token) {
            RootKill::Pid(root.key.pid)
        } else {
            RootKill::Skip
        }),
        kill == root_killed(root, start),
{
    if root.pidfd {
        return RootKill::PidFd;
    }
    match start {
        Some(actual) => if root.key.token != 0 && actual == root.key.token {
            RootKill::Pid(root.key.pid)
        } else {
            RootKill::Skip
        },
        None => RootKill::Skip,
    }
}

/// What a backend can do on `flavor`.
#[must_use]
pub fn unix_capabilities(containment: Containment, flavor: UnixFlavor) -> (able: Capabilities)
    ensures
        able.descendant_containment == containment,
        able.cpu == (if flavor is Other {
            Support::Unsupported
        } else {
            Support::Supported
        }),
        able.rss == able.cpu,
        able.peak_rss == (if flavor is Linux {
            Support::Supported
        } else {
            Support::Unsupported
        }),
        able.io == able.peak_rss,
        able.force_termination,
{
    let common = match flavor {
        UnixFlavor::Linux | UnixFlavor::MacOs => Support::Supported,
        UnixFlavor::Other => Support::Unsupported,
    };
    let linux = match flavor {
        UnixFlavor::Linux => Support::Supported,
        UnixFlavor::MacOs | UnixFlavor::Other => Support::Unsupported,
    };
    Capabilities {
        descendant_containment: containment,
        cpu: common,
        rss: common,
        peak_rss: linux,
        io: linux,
        force_termination: true,
    }
}

/// The state of a Unix backend.
#[derive(Debug)]
pub struct UnixProcessBackend {
    cgroups: bool,
    children: Children<ChildSlot>,
    samples: Children<CpuSample>,
    groups: Table<ScopeGroup>,
    anchors: Table<Anchor>,
}

impl View for UnixProcessBackend {
    type V = UnixView;

    closed spec fn view(&self) -> UnixView {
        UnixView {
            cgroups: self.cgroups,
            children: self.children@,
            samples: self.samples@,
            groups: self.groups@,
            anchors: self.anchors@,
        }
    }
}

impl UnixProcessBackend {
    /// A backend without children. Under `cgroups` control groups contain the scopes.
    #[must_use]
    pub fn new(cgroups: bool) -> (state: Self)
        ensures
            state@.wf(),
            state@ == (UnixView {
                cgroups,
                children: Map::empty(),
                samples: Map::empty(),
                groups: Map::empty(),
                anchors: Map::empty(),
            }),
    {
        UnixProcessBackend {
            cgroups,
            children: Children::new(),
            samples: Children::new(),
            groups: Table::new(),
            anchors: Table::new(),
        }
    }

    /// How strongly descendants are contained.
    #[must_use]
    pub fn containment(&self) -> (containment: Containment)
        ensures
            containment == (if self@.cgroups {
                Containment::CgroupV2
            } else {
                Containment::ProcessGroup
            }),
    {
        if self.cgroups {
            Containment::CgroupV2
        } else {
            Containment::ProcessGroup
        }
    }

    /// What `scope` needs before a child is spawned in it. Once its group was told to die, a
    /// scope takes no more children; while the group of a lost anchor may exist, it takes none
    /// either.
    ///
    /// # Errors
    /// Returns [`SpawnError::ScopeClosed`] after the group was told to die, and
    /// [`SpawnError::Os`] if the anchor was lost and cannot be replaced.
    pub fn check_anchor(&self, scope: ProcessScopeId) -> (need: Result<AnchorNeed, SpawnError>)
        requires
            self@.wf(),
        ensures
            if self@.cgroups {
                need == Ok::<_, SpawnError>(AnchorNeed::Ready)
            } else if !self@.anchors.contains_key(scope.0) {
                need == Ok::<_, SpawnError>(AnchorNeed::Create)
            } else if self@.anchors[scope.0].kill_issued {
                need == Err::<AnchorNeed, _>(SpawnError::ScopeClosed(scope))
            } else {
                match self@.anchors[scope.0].exit {
                    None => need == Ok::<_, SpawnError>(AnchorNeed::Ready),
                    Some(Err(cause)) => need matches Err(SpawnError::Os(told)) && told@
                        == "anchor reap failed: "@ + cause@,
                    Some(Ok(_)) => if self@.groups[scope.0].live != 0 {
                        need matches Err(SpawnError::Os(told)) && told@
                            == "scope anchor exited while its group may still exist; cleanup required"@
                    } else {
                        need == Ok::<_, SpawnError>(AnchorNeed::Probe(self@.groups[scope.0].pgid))
                    },
                }
            },
            need is Ok <==> self@.needed(scope) is Some,
            need matches Ok(found) ==> self@.needed(scope) == Some(found),
    {
        if self.cgroups {
            return Ok(AnchorNeed::Ready);
        }
        match self.anchors.get(scope.0) {
            None => Ok(AnchorNeed::Create),
            Some(anchor) => {
                if anchor.kill_issued {
                    return Err(SpawnError::ScopeClosed(scope));
                }
                match &anchor.exit {
                    None => Ok(AnchorNeed::Ready),
                    Some(Err(cause)) => {
                        let mut told = String::from_str("anchor reap failed: ");
                        told.append(cause.as_str());
                        Err(SpawnError::Os(told))
                    },
                    Some(Ok(())) => match self.groups.get(scope.0) {
                        Some(group) => if group.live != 0 {
                            Err(anchor_lost())
                        } else {
                            Ok(AnchorNeed::Probe(group.pgid))
                        },
                        None => {
                            proof {
                                assert(self@.anchors.contains_key(scope.0));
                                assert(self@.groups.contains_key(scope.0));
                            }
                            Ok(AnchorNeed::Create)
                        },
                    },
                }
            },
        }
    }

    /// Settles a look at the group of a lost anchor: the anchor and the group are only forgotten
    /// once the group is known to be gone.
    ///
    /// # Errors
    /// Returns [`SpawnError::Os`] if the group may still exist.
    pub fn anchor_probed(&mut self, scope: ProcessScopeId, absent: bool) -> (settled: Result<
        (),
        SpawnError,
    >)
        requires
            old(self)@.wf(),
        ensures
            absent ==> settled is Ok && final(self)@ == old(self)@.without_scope(scope),
            !absent ==> {
                &&& settled matches Err(SpawnError::Os(told))
                &&& told@
                    == "scope anchor exited while its group may still exist; cleanup required"@
                &&& final(self)@ == old(self)@
            },
            final(self)@.wf(),
    {
        if !absent {
            return Err(anchor_lost());
        }
        let _ = self.anchors.remove(scope.0);
        let _ = self.groups.remove(scope.0);
        proof {
            old(self)@.lemma_without_scope(scope);
            assert(self@ =~= old(self)@.without_scope(scope));
        }
        Ok(())
    }

    /// Takes note of a new anchor, the leader of the new group `pgid`.
    pub fn anchor_created(&mut self, scope: ProcessScopeId, pgid: i32)
        requires
            old(self)@.wf(),
            !old(self)@.cgroups,
        ensures
            final(self)@ == (UnixView {
                groups: old(self)@.groups.insert(scope.0, ScopeGroup { pgid, live: 0 }),
                anchors: old(self)@.anchors.insert(
                    scope.0,
                    Anchor { exit: None, kill_issued: false },
                ),
                ..old(self)@
            }),
            final(self)@.wf(),
            final(self)@ == old(self)@.with_anchor(scope, pgid),
    {
        let _ = self.anchors.insert(scope.0, Anchor { exit: None, kill_issued: false });
        let _ = self.groups.insert(scope.0, ScopeGroup { pgid, live: 0 });
    }

    /// Takes note that the anchor that leads group `pgid` was waited for.
    pub fn anchor_exited(&mut self, scope: ProcessScopeId, pgid: i32, exit: Result<(), String>)
        requires
            old(self)@.wf(),
        ensures
            final(self)@ == (if old(self)@.anchored_by(scope, pgid) {
                UnixView {
                    anchors: old(self)@.anchors.insert(
                        scope.0,
                        Anchor {
                            exit: Some(exit),
                            kill_issued: old(self)@.anchors[scope.0].kill_issued,
                        },
                    ),
                    ..old(self)@
                }
            } else {
                old(self)@
            }),
            final(self)@.wf(),
            final(self)@ == old(self)@.anchor_ended(scope, pgid, exit),
    {
        if self.leads(scope, pgid) {
            if let Some(anchor) = self.anchors.remove(scope.0) {
                let _ = self.anchors.insert(
                    scope.0,
                    Anchor { exit: Some(exit), kill_issued: anchor.kill_issued },
                );
                assert(self@.anchors =~= old(self)@.anchors.insert(
                    scope.0,
                    Anchor { exit: Some(exit), kill_issued: anchor.kill_issued },
                ));
            }
        }
    }

    /// Takes note that the wait for the anchor that leads group `pgid` was broken off, after the
    /// group was told to die. The scope takes no more children, and its reap stays unverified.
    pub fn anchor_interrupted(&mut self, scope: ProcessScopeId, pgid: i32)
        requires
            old(self)@.wf(),
        ensures
            !old(self)@.anchored_by(scope, pgid) ==> final(self)@ == old(self)@,
            old(self)@.anchored_by(scope, pgid) ==> {
                &&& final(self)@.anchors.contains_key(scope.0)
                &&& final(self)@.anchors[scope.0].kill_issued
                &&& final(self)@.anchors[scope.0].exit matches Some(Err(told))
                &&& told@
                    == "anchor waiter interrupted; synchronous group kill issued, reap unverified"@
                &&& final(self)@ == (UnixView {
                    anchors: old(self)@.anchors.insert(
                        scope.0,
                        final(self)@.anchors[scope.0],
                    ),
                    ..old(self)@
                })
            },
            final(self)@.wf(),
    {
        if self.leads(scope, pgid) {
            let _ = self.anchors.insert(
                scope.0,
                Anchor { exit: Some(Err(anchor_interruption())), kill_issued: true },
            );
        }
    }

    fn leads(&self, scope: ProcessScopeId, pgid: i32) -> (leading: bool)
        requires
            self@.wf(),
        ensures
            leading == self@.anchored_by(scope, pgid),
    {
        if !self.anchors.contains(scope.0) {
            return false;
        }
        match self.groups.get(scope.0) {
            Some(group) => group.pgid == pgid,
            None => {
                proof {
                    assert(self@.anchors.contains_key(scope.0));
                    assert(self@.groups.contains_key(scope.0));
                }
                false
            },
        }
    }

    /// Where a new child of `scope` goes. A group is only joined by its number while a live child
    /// or an anchor pins that number.
    #[must_use]
    pub fn join_plan(&self, scope: ProcessScopeId) -> (plan: SpawnPlan)
        ensures
            plan == (if self@.anchor_spent(scope) {
                SpawnPlan::Recheck
            } else {
                match self@.joinable(scope) {
                    Some(pgid) => SpawnPlan::Join(pgid),
                    None => SpawnPlan::Fresh,
                }
            }),
            plan == self@.join_planned(scope),
    {
        let mut anchored = false;
        if let Some(anchor) = self.anchors.get(scope.0) {
            if anchor.kill_issued || anchor.exit.is_some() {
                return SpawnPlan::Recheck;
            }
            anchored = true;
        }
        match self.groups.get(scope.0) {
            Some(group) => if group.live > 0 || anchored {
                SpawnPlan::Join(group.pgid)
            } else {
                SpawnPlan::Fresh
            },
            None => SpawnPlan::Fresh,
        }
    }

    /// Settles a spawn that failed: whether it is tried once more in a group of its own. That is
    /// so if it was to join a group that no anchor pins; the group is then forgotten.
    pub fn spawn_failed(&mut self, scope: ProcessScopeId, plan: SpawnPlan) -> (again: bool)
        requires
            old(self)@.wf(),
        ensures
            again == (plan is Join && !old(self)@.anchors.contains_key(scope.0)),
            final(self)@ == (if again {
                UnixView { groups: old(self)@.groups.remove(scope.0), ..old(self)@ }
            } else {
                old(self)@
            }),
            final(self)@.wf(),
            final(self)@ == old(self)@.spawn_given_up(scope, plan),
    {
        match plan {
            SpawnPlan::Join(_) => {
                if self.anchors.contains(scope.0) {
                    return false;
                }
                let _ = self.groups.remove(scope.0);
                true
            },
            _ => false,
        }
    }

    /// Takes note of a spawned child.
    pub fn register_child(
        &mut self,
        scope: ProcessScopeId,
        os: OsIdentity,
        pidfd: bool,
        new_group: bool,
    )
        requires
            old(self)@.wf(),
        ensures
            final(self)@ == old(self)@.with_child(scope, os, pidfd, new_group),
            final(self)@.wf(),
    {
        let _ = self.children.insert(
            child_key(&os),
            ChildSlot { scope, pidfd, sampling: false },
        );
        let fresh = ScopeGroup { pgid: native_pid(os.pid), live: 1 };
        let group = match self.groups.get(scope.0) {
            Some(group) => if new_group {
                fresh
            } else {
                ScopeGroup {
                    pgid: group.pgid,
                    live: if group.live == usize::MAX {
                        usize::MAX
                    } else {
                        group.live + 1
                    },
                }
            },
            None => fresh,
        };
        let _ = self.groups.insert(scope.0, group);
        proof {
            old(self)@.lemma_with_child(scope, os, pidfd, new_group);
            assert(self@ =~= old(self)@.with_child(scope, os, pidfd, new_group));
        }
    }

    /// Takes note that a child of `scope` exited. The child stays registered until its exit is
    /// collected, and the group keeps its number so that it can still be swept.
    pub fn note_os_exit(&mut self, scope: ProcessScopeId)
        requires
            old(self)@.wf(),
        ensures
            final(self)@ == old(self)@.child_exited(scope),
            final(self)@.wf(),
    {
        let known = match self.groups.get(scope.0) {
            Some(group) => Some(*group),
            None => None,
        };
        if let Some(group) = known {
            let live: usize = if group.live == 0 {
                0
            } else {
                group.live - 1
            };
            let _ = self.groups.insert(scope.0, ScopeGroup { pgid: group.pgid, live });
        }
    }

    /// Takes note of how the wait for a child of `scope` ended. A wait that failed is no evidence
    /// of an exit.
    pub fn publish_wait_result(&mut self, scope: ProcessScopeId, raw: &Result<RawExit, String>)
        requires
            old(self)@.wf(),
        ensures
            final(self)@ == (if raw is Ok {
                old(self)@.child_exited(scope)
            } else {
                old(self)@
            }),
            final(self)@.wf(),
    {
        if raw.is_ok() {
            self.note_os_exit(scope);
        }
    }

    /// How `signal` reaches `target`, given the start time read of its PID now.
    ///
    /// # Errors
    /// Returns [`TerminateError::Signal`] if the child cannot be told from another process, or
    /// if the signal cannot be sent.
    pub fn signal_plan(
        &self,
        target: &Spawned,
        signal: Signal,
        start: Option<u64>,
    ) -> (plan: Result<SignalPlan, TerminateError>)
        ensures
            ({
                let key = crate::platform::children::key_of(target.os);
                let number = crate::platform::signals::signal_number(signal);
                if !self@.children.contains_key(key) {
                    plan == Ok::<_, TerminateError>(SignalPlan::Skip)
                } else if self@.children[key].pidfd {
                    match number {
                        Some(accepted) => plan == Ok::<_, TerminateError>(
                            SignalPlan::PidFd(accepted),
                        ),
                        None => plan matches Err(TerminateError::Signal(told)) && told@
                            == "EINVAL: Invalid argument"@,
                    }
                } else if target.os.reuse_token is Unavailable {
                    plan matches Err(TerminateError::Signal(told)) && told@
                        == "no safe process identity available"@
                } else if !crate::platform::children::still_matches(target.os, start) {
                    plan == Ok::<_, TerminateError>(SignalPlan::Skip)
                } else {
                    match number {
                        Some(accepted) => plan == Ok::<_, TerminateError>(
                            SignalPlan::Pid {
                                pid: native_pid_of(target.os.pid),
                                number: accepted,
                            },
                        ),
                        None => plan matches Err(TerminateError::Signal(told)) && told@
                            == "EINVAL: Invalid argument"@,
                    }
                }
            }),
            match plan {
                Ok(found) => self@.signal_planned(target.os, signal, start) == Ok::<_, Seq<char>>(
                    found,
                ),
                Err(TerminateError::Signal(told)) => self@.signal_planned(target.os, signal, start)
                    == Err::<SignalPlan, _>(told@),
                Err(_) => false,
            },
    {
        match self.children.get(child_key(&target.os)) {
            None => {
                return Ok(SignalPlan::Skip);
            },
            Some(slot) => {
                if slot.pidfd {
                    return match to_nix(signal) {
                        Ok(number) => Ok(SignalPlan::PidFd(number)),
                        Err(error) => Err(error),
                    };
                }
            },
        }
        if matches!(target.os.reuse_token, ReuseToken::Unavailable) {
            return Err(
                TerminateError::Signal(String::from_str("no safe process identity available")),
            );
        }
        if !identity_still_matches(&target.os, start) {
            return Ok(SignalPlan::Skip);
        }
        match to_nix(signal) {
            Ok(number) => Ok(SignalPlan::Pid { pid: native_pid(target.os.pid), number }),
            Err(error) => Err(error),
        }
    }

    /// How the signal of number `number` reaches the group of `scope`.
    #[must_use]
    pub fn group_plan(&self, scope: ProcessScopeId, number: i32) -> (plan: GroupPlan)
        ensures
            plan == self@.planned(scope, number),
    {
        match self.groups.get(scope.0) {
            None => GroupPlan::Skip,
            Some(group) => {
                if let Some(anchor) = self.anchors.get(scope.0) {
                    if anchor.kill_issued {
                        return GroupPlan::Skip;
                    }
                    if anchor.exit.is_some() {
                        return GroupPlan::Probe(group.pgid);
                    }
                }
                GroupPlan::Send { pgid: group.pgid, number }
            },
        }
    }

    /// How `signal` reaches `scope`. Under control groups a forceful signal goes through the
    /// control group.
    ///
    /// # Errors
    /// Returns [`TerminateError::Signal`] if the signal cannot be sent.
    pub fn scope_signal_plan(&self, scope: ProcessScopeId, signal: Signal) -> (plan: Result<
        GroupPlan,
        TerminateError,
    >)
        ensures
            if self@.cgroups && signal is Kill {
                plan == Ok::<_, TerminateError>(GroupPlan::ControlGroup)
            } else {
                match crate::platform::signals::signal_number(signal) {
                    None => plan matches Err(TerminateError::Signal(told)) && told@
                        == "EINVAL: Invalid argument"@,
                    Some(number) => plan == Ok::<_, TerminateError>(self@.planned(scope, number)),
                }
            },
            plan is Ok <==> self@.scope_planned(scope, signal) is Some,
            plan matches Ok(found) ==> self@.scope_planned(scope, signal) == Some(found),
    {
        if self.cgroups && signal == Signal::Kill {
            return Ok(GroupPlan::ControlGroup);
        }
        match to_nix(signal) {
            Ok(number) => Ok(self.group_plan(scope, number)),
            Err(error) => Err(error),
        }
    }

    /// Settles a signal that was sent to the group of `scope`. A forceful signal that went out
    /// closes the scope to new children.
    ///
    /// # Errors
    /// Returns [`TerminateError::Signal`] if the kernel refused the signal.
    pub fn group_signalled(&mut self, scope: ProcessScopeId, number: i32, sent: SignalSent) -> (
        settled: Result<(), TerminateError>)
        requires
            old(self)@.wf(),
        ensures
            settled == (match sent {
                SignalSent::Failed(cause) => Err(TerminateError::Signal(cause)),
                _ => Ok(()),
            }),
            final(self)@ == (if settled is Ok && number == FORCE_NUMBER
                && old(self)@.anchors.contains_key(scope.0) {
                UnixView {
                    anchors: old(self)@.anchors.insert(
                        scope.0,
                        Anchor { kill_issued: true, ..old(self)@.anchors[scope.0] },
                    ),
                    ..old(self)@
                }
            } else {
                old(self)@
            }),
            final(self)@.wf(),
            final(self)@ == old(self)@.group_told(scope, number, sent),
    {
        match settle_signal(sent) {
            Err(error) => Err(error),
            Ok(()) => {
                if number == FORCE_NUMBER {
                    if let Some(anchor) = self.anchors.remove(scope.0) {
                        let _ = self.anchors.insert(
                            scope.0,
                            Anchor { exit: anchor.exit, kill_issued: true },
                        );
                    }
                    assert(self@.anchors =~= if old(self)@.anchors.contains_key(scope.0) {
                        old(self)@.anchors.insert(
                            scope.0,
                            Anchor { kill_issued: true, ..old(self)@.anchors[scope.0] },
                        )
                    } else {
                        old(self)@.anchors
                    });
                }
                Ok(())
            },
        }
    }

    /// Whether `target` can be waited for.
    ///
    /// # Errors
    /// Returns [`WaitError::Backend`] if no such child is registered.
    pub fn wait_target(&self, target: &Spawned) -> (known: Result<(), WaitError>)
        ensures
            match known {
                Ok(_) => self@.children.contains_key(
                    crate::platform::children::key_of(target.os),
                ),
                Err(WaitError::Backend(told)) => {
                    &&& !self@.children.contains_key(
                        crate::platform::children::key_of(target.os),
                    )
                    &&& told@ == "no child registered for pid "@ + crate::domain::text::decimal(
                        target.os.pid as nat,
                    )
                },
                Err(_) => false,
            },
    {
        if self.children.contains(child_key(&target.os)) {
            Ok(())
        } else {
            let mut told = String::from_str("no child registered for pid ");
            push_decimal(&mut told, target.os.pid as u64);
            Err(WaitError::Backend(told))
        }
    }

    /// Collects how the wait for `target` ended. A child is only forgotten once its exit is
    /// confirmed: a wait that failed keeps its identity for the last resort.
    ///
    /// # Errors
    /// Returns [`WaitError::Backend`] if the wait failed.
    pub fn finish_wait(&mut self, target: &Spawned, exit: Result<RawExit, String>) -> (
        collected: Result<RawExit, WaitError>)
        requires
            old(self)@.wf(),
        ensures
            collected == (match exit {
                Ok(raw) => Ok(raw),
                Err(cause) => Err(WaitError::Backend(cause)),
            }),
            final(self)@ == (if exit is Ok {
                old(self)@.without_child(crate::platform::children::key_of(target.os))
            } else {
                old(self)@
            }),
            final(self)@.wf(),
            final(self)@ == old(self)@.waited(target.os, exit),
    {
        match exit {
            Ok(raw) => {
                let key = child_key(&target.os);
                let _ = self.children.remove(key);
                let _ = self.samples.remove(key);
                proof {
                    old(self)@.lemma_without_child(key);
                    assert(self@ =~= old(self)@.without_child(key));
                }
                Ok(raw)
            },
            Err(cause) => Err(WaitError::Backend(cause)),
        }
    }

    /// Whether the cleanup of `scope` has to wait for an anchor, and how that wait ended if it
    /// has.
    #[must_use]
    pub fn anchor_of(&self, scope: ProcessScopeId) -> (anchor: Option<&Anchor>)
        ensures
            anchor is Some <==> self@.anchors.contains_key(scope.0),
            anchor matches Some(found) ==> *found == self@.anchors[scope.0],
    {
        self.anchors.get(scope.0)
    }

    /// Forgets the anchor and the group of a scope whose cleanup is complete. Both go together:
    /// no group is ever left without the anchor that pins it.
    pub fn retire_scope(&mut self, scope: ProcessScopeId)
        requires
            old(self)@.wf(),
        ensures
            final(self)@ == old(self)@.without_scope(scope),
            final(self)@.wf(),
    {
        let _ = self.anchors.remove(scope.0);
        let _ = self.groups.remove(scope.0);
        proof {
            old(self)@.lemma_without_scope(scope);
            assert(self@ =~= old(self)@.without_scope(scope));
        }
    }

    /// The scopes that have a process group, in ascending order.
    #[must_use]
    pub fn group_scopes(&self) -> (scopes: Vec<u64>)
        ensures
            crate::domain::table::lists(scopes@, self@.groups.dom()),
    {
        self.groups.keys()
    }

    /// The registered children of `scope`, or of all scopes: what the last resort has to reach.
    #[must_use]
    pub fn registered_roots(&self, scope: Option<ProcessScopeId>) -> (roots: Vec<Root>)
        ensures
            roots@.no_duplicates(),
            forall|root: Root| #[trigger]
                roots@.contains(root) <==> {
                    &&& self@.children.contains_key(root.key)
                    &&& self@.children[root.key].pidfd == root.pidfd
                    &&& scope matches Some(only) ==> self@.children[root.key].scope == only
                },
    {
        let keys: Vec<ChildKey> = self.children.keys();
        let mut roots: Vec<Root> = Vec::new();
        let mut i: usize = 0;
        while i < keys.len()
            invariant
                i <= keys@.len(),
                keys@.no_duplicates(),
                forall|key: ChildKey| #[trigger]
                    keys@.contains(key) <==> self@.children.contains_key(key),
                roots@.no_duplicates(),
                forall|root: Root| #[trigger]
                    roots@.contains(root) ==> {
                        &&& self@.children.contains_key(root.key)
                        &&& self@.children[root.key].pidfd == root.pidfd
                        &&& scope matches Some(only) ==> self@.children[root.key].scope == only
                        &&& exists|k: int| 0 <= k < i && #[trigger] keys@[k] == root.key
                    },
                forall|k: int|
                    0 <= k < i && (scope matches Some(only) ==> self@.children[(
                    #[trigger] keys@[k])].scope == only) ==> roots@.contains(
                        Root { key: keys@[k], pidfd: self@.children[keys@[k]].pidfd },
                    ),
            decreases keys@.len() - i,
        {
            let key: ChildKey = keys[i];
            assert(keys@.contains(key));
            if let Some(slot) = self.children.get(key) {
                let wanted = match scope {
                    Some(only) => slot.scope == only,
                    None => true,
                };
                if wanted {
                    let ghost earlier = roots@;
                    let root = Root { key, pidfd: slot.pidfd };
                    roots.push(root);
                    proof {
                        if earlier.contains(root) {
                            let k = choose|k: int| 0 <= k < i && #[trigger] keys@[k] == root.key;
                            assert(keys@[k] == keys@[i as int]);
                        }
                        crate::domain::table::lemma_pushed(earlier, root);
                        assert(keys@[i as int] == root.key);
                    }
                }
            }
            i = i + 1;
        }
        proof {
            assert forall|root: Root|
                self@.children.contains_key(root.key) && self@.children[root.key].pidfd
                    == root.pidfd && (scope matches Some(only) ==> self@.children[root.key].scope
                    == only) implies #[trigger] roots@.contains(root) by {
                assert(keys@.contains(root.key));
                let k = keys@.index_of(root.key);
                assert(keys@[k] == root.key);
            }
        }
        roots
    }
}

fn anchor_lost() -> (error: SpawnError)
    ensures
        error matches SpawnError::Os(told) && told@
            == "scope anchor exited while its group may still exist; cleanup required"@,
{
    SpawnError::Os(
        String::from_str("scope anchor exited while its group may still exist; cleanup required"),
    )
}

} // verus!
