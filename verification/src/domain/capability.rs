//! Runtime-detected platform guarantees, expressed as values (never prose).
use vstd::prelude::*;

verus! {

/// The mechanism enforcing "kill the whole tree", and thus how strong containment is.
#[derive(Debug, Clone, Copy, PartialEq, Eq, Structural)]
pub enum Containment {
    /// Linux cgroup v2: contains descendants even if they call `setsid`.
    CgroupV2,
    /// Windows Job Object: contains the whole tree.
    JobObject,
    /// POSIX process group: best effort; a descendant that calls `setsid` escapes.
    ProcessGroup,
    /// No containment beyond the direct child.
    Uncontained,
}

impl Containment {
    /// Whether this mechanism contains descendants that deliberately detach (`setsid`).
    #[must_use]
    pub fn contains_detached(self) -> (contained: bool)
        ensures
            contained == (self is CgroupV2 || self is JobObject),
    {
        matches!(self, Self::CgroupV2 | Self::JobObject)
    }
}

/// Whether a particular statistic is available.
#[derive(Debug, Clone, Copy, PartialEq, Eq, Structural)]
pub enum Support {
    /// The statistic is collected.
    Supported,
    /// The statistic is not available on this platform/backend.
    Unsupported,
}

impl Support {
    /// Returns `true` when supported.
    #[must_use]
    pub fn is_supported(self) -> (supported: bool)
        ensures
            supported == (self is Supported),
    {
        matches!(self, Self::Supported)
    }
}

/// The guarantees a platform backend actually provides at runtime.
#[derive(Debug, Clone, Copy, PartialEq, Eq, Structural)]
pub struct Capabilities {
    /// Strength of descendant containment.
    pub descendant_containment: Containment,
    /// CPU-usage statistics support.
    pub cpu: Support,
    /// Resident-set-size statistics support.
    pub rss: Support,
    /// Peak-RSS statistics support.
    pub peak_rss: Support,
    /// I/O byte-counter statistics support.
    pub io: Support,
    /// Whether forceful termination is available.
    pub force_termination: bool,
}

} // verus!
