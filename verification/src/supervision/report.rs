//! Reports of scope terminations and of a shutdown.
use vstd::prelude::*;
use crate::domain::exit::TerminationOutcome;
use crate::domain::ids::{ProcessId, ProcessScopeId};
use crate::supervision::error::{SpawnError, TerminateError};

verus! {

/// What a scope report says.
#[verifier::ext_equal]
pub struct ReportView {
    /// The scope that was terminated.
    pub scope: ProcessScopeId,
    /// Per-process outcomes.
    pub outcomes: Seq<(ProcessId, TerminationOutcome)>,
}

impl ReportView {
    /// Every reported outcome stands for verified cleanup.
    pub open spec fn verified(self) -> bool {
        forall|i: int|
            0 <= i < self.outcomes.len() ==> crate::domain::exit::verified(
                (#[trigger] self.outcomes[i]).1,
            )
    }

    /// The report names each process of `outcomes` once, in ascending order, with its outcome.
    pub open spec fn reports(self, outcomes: Map<u64, TerminationOutcome>) -> bool {
        &&& crate::domain::table::lists(
            Seq::new(self.outcomes.len(), |i: int| self.outcomes[i].0.0),
            outcomes.dom(),
        )
        &&& forall|i: int|
            0 <= i < self.outcomes.len() ==> (#[trigger] self.outcomes[i]).1
                == outcomes[self.outcomes[i].0.0]
    }
}

/// The aggregated result of terminating a scope.
#[derive(Debug, PartialEq, Eq)]
pub struct ScopeTerminationReport {
    /// The scope that was terminated.
    pub scope: ProcessScopeId,
    /// Per-process outcomes.
    pub outcomes: Vec<(ProcessId, TerminationOutcome)>,
}

impl View for ScopeTerminationReport {
    type V = ReportView;

    open spec fn view(&self) -> ReportView {
        ReportView { scope: self.scope, outcomes: self.outcomes@ }
    }
}

impl Clone for ScopeTerminationReport {
    fn clone(&self) -> (copy: Self)
        ensures
            copy@ == self@,
    {
        let mut outcomes: Vec<(ProcessId, TerminationOutcome)> = Vec::new();
        let mut i: usize = 0;
        while i < self.outcomes.len()
            invariant
                i <= self.outcomes@.len(),
                outcomes@ == self.outcomes@.take(i as int),
            decreases self.outcomes@.len() - i,
        {
            outcomes.push(self.outcomes[i]);
            assert(self.outcomes@.take(i + 1) =~= self.outcomes@.take(i as int).push(
                self.outcomes@[i as int],
            ));
            i = i + 1;
        }
        assert(self.outcomes@.take(i as int) =~= self.outcomes@);
        ScopeTerminationReport { scope: self.scope, outcomes }
    }
}

impl ScopeTerminationReport {
    /// Whether every process reached a verified terminal outcome.
    #[must_use]
    pub fn all_verified(&self) -> (verified: bool)
        ensures
            verified == self@.verified(),
    {
        let mut i: usize = 0;
        while i < self.outcomes.len()
            invariant
                i <= self.outcomes@.len(),
                forall|j: int|
                    0 <= j < i ==> crate::domain::exit::verified((#[trigger] self.outcomes@[j]).1),
            decreases self.outcomes@.len() - i,
        {
            if !self.outcomes[i].1.is_verified() {
                assert(!crate::domain::exit::verified(self@.outcomes[i as int].1));
                return false;
            }
            i = i + 1;
        }
        true
    }
}

/// The aggregated result of a supervisor shutdown.
#[derive(Debug, Clone, PartialEq, Eq)]
pub struct ShutdownReport {
    /// Per-scope termination reports.
    pub scopes: Vec<ScopeTerminationReport>,
}

/// The value of a scoped block (including a caller's `Result`) and an independent cleanup
/// report.
#[derive(Debug, PartialEq, Eq)]
pub struct WithScopeResult<T> {
    /// The scope that the block ran in.
    pub scope: ProcessScopeId,
    /// What the block returned, or why a process could not be started.
    pub result: Result<T, SpawnError>,
    /// How the scope was cleaned up.
    pub termination: Result<ScopeTerminationReport, TerminateError>,
}

/// What a finished cleanup came to.
pub enum CleanupView {
    /// The scope was terminated with this report.
    Reported(ReportView),
    /// The termination failed.
    Failed(TerminateError),
}

impl CleanupView {
    /// The cleanup is verified.
    pub open spec fn verified(self) -> bool {
        self matches CleanupView::Reported(report) && report.verified()
    }
}

/// What a termination result says.
pub open spec fn cleanup(result: Result<ScopeTerminationReport, TerminateError>) -> CleanupView {
    match result {
        Ok(report) => CleanupView::Reported(report@),
        Err(error) => CleanupView::Failed(error),
    }
}

} // verus!
