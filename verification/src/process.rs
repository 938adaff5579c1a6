//! The process runtime's bookkeeping: which services are registered, which
//! have finished, and the first fatal failure, which decides cancellation
//! and the run's overall outcome.

use vstd::prelude::*;

verus! {

/// Supervises long-running services: counts registrations and completions,
/// records the first failure, and decides when the remaining services are to
/// be cancelled. The services themselves run outside; each completion is
/// reported here.
pub struct Process {
    pub registered: usize,
    pub finished: usize,
    pub first_failure: Option<(usize, String)>,
}

impl Process {
    /// A runtime with no services registered.
    pub fn create() -> (r: Self)
        ensures
            r.registered == 0,
            r.finished == 0,
            r.first_failure is None,
    {
        Process { registered: 0, finished: 0, first_failure: None }
    }

    /// Registers one service and hands back its identifier.
    pub fn register(&mut self) -> (id: usize)
        requires
            old(self).registered < usize::MAX,
        ensures
            id == old(self).registered,
            final(self).registered == old(self).registered + 1,
            final(self).finished == old(self).finished,
            final(self).first_failure == old(self).first_failure,
    {
        let id = self.registered;
        self.registered = self.registered + 1;
        id
    }

    /// Records that a service finished, with its failure if it failed. The
    /// answer says whether the remaining services are now to be cancelled:
    /// exactly when this failure is the first.
    pub fn service_finished(&mut self, id: usize, failure: Option<String>) -> (cancel: bool)
        requires
            old(self).finished < old(self).registered,
        ensures
            final(self).registered == old(self).registered,
            final(self).finished == old(self).finished + 1,
            cancel == (old(self).first_failure is None && failure is Some),
            final(self).first_failure == (match (old(self).first_failure, failure) {
                (Option::None, Option::Some(m)) => Some((id, m)),
                _ => old(self).first_failure,
            }),
    {
        self.finished = self.finished + 1;
        match failure {
            Some(m) => {
                match &self.first_failure {
                    None => {
                        self.first_failure = Some((id, m));
                        true
                    },
                    Some(_) => false,
                }
            },
            None => false,
        }
    }

    /// Whether every registered service has finished.
    pub fn all_finished(&self) -> (r: bool)
        ensures
            r == (self.finished == self.registered),
    {
        self.finished == self.registered
    }

    /// Whether the run as a whole succeeded: no service failed. Per-consumer
    /// halts inside a service do not reach here; only a service's own fatal
    /// error does.
    pub fn succeeded(&self) -> (r: bool)
        ensures
            r == (self.first_failure is None),
    {
        match &self.first_failure {
            None => true,
            Some(_) => false,
        }
    }
}

} // verus!
