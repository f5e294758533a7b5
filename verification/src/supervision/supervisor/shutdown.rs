//! Shutdown of a supervisor.
use vstd::prelude::*;
use crate::domain::ids::ProcessScopeId;
use crate::supervision::error::{ShutdownError, TerminateError};
use crate::supervision::report::{CleanupView, ScopeTerminationReport, ShutdownReport};
use crate::supervision::supervisor::{ProcessSupervisor, SupervisorView};

verus! {

/// What the terminations of the scopes came to, in order.
pub open spec fn cleanups(results: Seq<Result<ScopeTerminationReport, TerminateError>>) -> Seq<
    CleanupView,
> {
    Seq::new(results.len(), |i: int| crate::supervision::report::cleanup(results[i]))
}

/// How many of the cleanups are not verified.
pub open spec fn unverified_count(results: Seq<CleanupView>) -> nat
    decreases results.len(),
{
    if results.len() == 0 {
        0
    } else {
        unverified_count(results.drop_last()) + (if results.last().verified() {
            0nat
        } else {
            1nat
        })
    }
}

/// The number of unverified cleanups is bounded by the number of cleanups, and is zero exactly
/// when each one is verified.
pub proof fn lemma_unverified_count(results: Seq<CleanupView>)
    ensures
        unverified_count(results) <= results.len(),
        unverified_count(results) == 0 <==> (forall|i: int|
            0 <= i < results.len() ==> (#[trigger] results[i]).verified()),
    decreases results.len(),
{
    if results.len() > 0 {
        let rest = results.drop_last();
        lemma_unverified_count(rest);
        assert forall|i: int| 0 <= i < rest.len() implies rest[i] == results[i] by {}
        if unverified_count(results) == 0 {
            assert forall|i: int| 0 <= i < results.len() implies (#[trigger] results[i]).verified() by {
                if i < rest.len() {
                    assert(rest[i].verified());
                }
            }
        }
        if forall|i: int| 0 <= i < results.len() ==> (#[trigger] results[i]).verified() {
            assert forall|i: int| 0 <= i < rest.len() implies (#[trigger] rest[i]).verified() by {
                assert(results[i].verified());
            }
            assert(results[results.len() - 1].verified());
        }
    }
}

impl<O> ProcessSupervisor<O> {
    /// Stops admitting new work and answers the scopes to terminate, ascending.
    pub fn begin_shutdown(&mut self) -> (scopes: Vec<ProcessScopeId>)
        requires
            old(self).wf(),
        ensures
            final(self).wf(),
            final(self)@ == (SupervisorView { shutting_down: true, ..old(self)@ }),
            crate::domain::table::lists(
                crate::supervision::registry::raw_scope_ids(scopes@),
                old(self)@.registry.scopes.dom(),
            ),
    {
        self.shutting_down = true;
        self.registry.scope_ids()
    }
}

/// The results of a running shutdown.
#[derive(Debug)]
pub struct Shutdown {
    results: Vec<Result<ScopeTerminationReport, TerminateError>>,
}

impl View for Shutdown {
    type V = Seq<CleanupView>;

    closed spec fn view(&self) -> Seq<CleanupView> {
        cleanups(self.results@)
    }
}

impl Shutdown {
    /// A shutdown that has terminated nothing yet.
    #[must_use]
    pub fn new() -> (shutdown: Self)
        ensures
            shutdown@ == Seq::<CleanupView>::empty(),
    {
        let shutdown = Shutdown { results: Vec::new() };
        assert(shutdown@ =~= Seq::<CleanupView>::empty());
        shutdown
    }

    /// Notes what the termination of the next scope came to.
    pub fn record(&mut self, result: Result<ScopeTerminationReport, TerminateError>)
        ensures
            final(self)@ == old(self)@.push(crate::supervision::report::cleanup(result)),
    {
        self.results.push(result);
        assert(self@ =~= old(self)@.push(crate::supervision::report::cleanup(result)));
    }

    /// Ends the shutdown.
    ///
    /// # Errors
    /// Returns [`ShutdownError::Unverified`] with the number of scopes that could not be
    /// verified as cleaned up.
    pub fn finish(self) -> (result: Result<ShutdownReport, ShutdownError>)
        ensures
            match result {
                Err(ShutdownError::Unverified(count)) => {
                    &&& count == unverified_count(self@)
                    &&& count > 0
                },
                Ok(report) => {
                    &&& unverified_count(self@) == 0
                    &&& report.scopes@.len() == self@.len()
                    &&& forall|i: int|
                        0 <= i < self@.len() ==> self@[i] == CleanupView::Reported(
                            (#[trigger] report.scopes@[i])@,
                        )
                },
            },
    {
        let ghost seen = self@;
        let mut scopes: Vec<ScopeTerminationReport> = Vec::new();
        let mut unverified: usize = 0;
        let mut i: usize = 0;
        proof {
            lemma_unverified_count(seen);
            assert(seen.take(0) =~= Seq::empty());
        }
        while i < self.results.len()
            invariant
                i <= self.results@.len(),
                seen == self@,
                seen.len() == self.results@.len(),
                unverified == unverified_count(seen.take(i as int)),
                unverified <= i,
                unverified == 0 ==> scopes@.len() == i && forall|j: int|
                    0 <= j < i ==> seen[j] == CleanupView::Reported((#[trigger] scopes@[j])@),
            decreases self.results@.len() - i,
        {
            proof {
                assert(seen.take(i + 1).drop_last() =~= seen.take(i as int));
                assert(seen.take(i + 1).last() == seen[i as int]);
            }
            match &self.results[i] {
                Ok(report) => {
                    if !report.all_verified() {
                        unverified = unverified + 1;
                    }
                    scopes.push(report.clone());
                },
                Err(_) => {
                    unverified = unverified + 1;
                },
            }
            i = i + 1;
        }
        assert(seen.take(i as int) =~= seen);
        if unverified > 0 {
            return Err(ShutdownError::Unverified(unverified));
        }
        Ok(ShutdownReport { scopes })
    }
}

} // verus!
