//! What a finished run reports.
use vstd::prelude::*;

use crate::readiness::SupervisorReadiness;
use crate::service::ServiceOutcome;
use crate::text::same_text;

verus! {

/// Reason the supervisor stopped running.
#[derive(Clone, Copy, Debug, PartialEq, Eq)]
pub enum ShutdownCause {
    /// Every service finished and nothing requested shutdown.
    Completed,
    /// Shutdown was requested by the embedding program: its policy answers the
    /// completion of a service with shutdown.
    Requested,
    /// Shutdown was triggered by an operating-system signal.
    Signal,
    /// A service returned [`ServiceOutcome::RequestedShutdown`].
    ServiceRequested { service: &'static str },
    /// A service failed and policy escalated that failure into shutdown.
    FatalService { service: &'static str },
    /// A startup-gated service ended before crossing its startup gate.
    ReadinessFailed { service: &'static str },
}

/// Terminal summary for one registered service.
#[derive(Debug, PartialEq, Eq)]
pub struct ServiceSummary {
    name: &'static str,
    outcome: ServiceOutcome,
    restarts: usize,
}

impl ServiceSummary {
    /// The name of the service.
    pub closed spec fn label(&self) -> &'static str {
        self.name
    }

    /// The last outcome of the service.
    pub closed spec fn last_outcome(&self) -> ServiceOutcome {
        self.outcome
    }

    /// How often the service was restarted.
    pub closed spec fn restart_count(&self) -> usize {
        self.restarts
    }

    /// Creates the summary of one service.
    pub(crate) fn new(name: &'static str, outcome: ServiceOutcome, restarts: usize) -> (summary:
        Self)
        ensures
            summary.label() == name,
            summary.last_outcome() == outcome,
            summary.restart_count() == restarts,
    {
        ServiceSummary { name, outcome, restarts }
    }

    /// Returns the name of the service.
    pub fn name(&self) -> (name: &'static str)
        ensures
            name == self.label(),
    {
        self.name
    }

    /// Returns the last outcome of the service.
    pub fn outcome(&self) -> (outcome: &ServiceOutcome)
        ensures
            *outcome == self.last_outcome(),
    {
        &self.outcome
    }

    /// Returns how often the service was restarted.
    pub fn restarts(&self) -> (restarts: usize)
        ensures
            restarts == self.restart_count(),
    {
        self.restarts
    }
}

impl Clone for ServiceSummary {
    fn clone(&self) -> (copy: Self)
        ensures
            copy == *self,
    {
        ServiceSummary {
            name: self.name,
            outcome: self.outcome.clone(),
            restarts: self.restarts,
        }
    }
}

/// `found` is the first of `services` with the given name.
pub open spec fn first_named(
    services: Seq<ServiceSummary>,
    name: Seq<char>,
    found: Option<ServiceSummary>,
) -> bool {
    match found {
        Some(summary) => exists|i: int|
            {
                &&& 0 <= i < services.len()
                &&& summary == #[trigger] services[i]
                &&& summary.label()@ == name
                &&& forall|j: int| 0 <= j < i ==> (#[trigger] services[j]).label()@ != name
            },
        None => forall|i: int|
            0 <= i < services.len() ==> (#[trigger] services[i]).label()@ != name,
    }
}

/// Final supervisor result once a run finishes.
#[derive(Debug, PartialEq, Eq)]
pub struct RunSummary {
    shutdown_cause: ShutdownCause,
    readiness: SupervisorReadiness,
    services: Vec<ServiceSummary>,
}

impl RunSummary {
    /// Why the supervisor stopped.
    pub closed spec fn cause(&self) -> ShutdownCause {
        self.shutdown_cause
    }

    /// The aggregate readiness at the end of the run.
    pub closed spec fn final_readiness(&self) -> SupervisorReadiness {
        self.readiness
    }

    /// The services, in registration order.
    pub closed spec fn entries(&self) -> Seq<ServiceSummary> {
        self.services@
    }

    /// Creates a final run summary. Most callers should receive this from a
    /// finished run rather than constructing it directly.
    pub fn new(
        shutdown_cause: ShutdownCause,
        readiness: SupervisorReadiness,
        services: Vec<ServiceSummary>,
    ) -> (summary: Self)
        ensures
            summary.cause() == shutdown_cause,
            summary.final_readiness() == readiness,
            summary.entries() == services@,
    {
        RunSummary { shutdown_cause, readiness, services }
    }

    /// Returns why the supervisor stopped.
    pub fn shutdown_cause(&self) -> (cause: &ShutdownCause)
        ensures
            *cause == self.cause(),
    {
        &self.shutdown_cause
    }

    /// Returns the aggregate readiness at the end of the run.
    pub fn readiness(&self) -> (readiness: SupervisorReadiness)
        ensures
            readiness == self.final_readiness(),
    {
        self.readiness
    }

    /// Returns the services, in registration order.
    pub fn services(&self) -> (services: &[ServiceSummary])
        ensures
            services@ == self.entries(),
    {
        self.services.as_slice()
    }

    /// Returns the first service with the given name.
    pub fn service(&self, name: &str) -> (found: Option<&ServiceSummary>)
        ensures
            match found {
                Some(summary) => first_named(self.entries(), name@, Some(*summary)),
                None => first_named(self.entries(), name@, None),
            },
    {
        let mut i: usize = 0;
        while i < self.services.len()
            invariant
                i <= self.services@.len(),
                forall|j: int|
                    0 <= j < i ==> (#[trigger] self.services@[j]).label()@ != name@,
            decreases self.services@.len() - i,
        {
            let summary = &self.services[i];
            if same_text(summary.name, name) {
                assert(*summary == self.entries()[i as int]);
                return Some(summary);
            }
            i = i + 1;
        }
        None
    }
}

impl Clone for RunSummary {
    fn clone(&self) -> (copy: Self)
        ensures
            copy.cause() == self.cause(),
            copy.final_readiness() == self.final_readiness(),
            copy.entries() == self.entries(),
    {
        let services = self.services.clone();
        assert(services@ =~= self.services@) by {
            assert forall|i: int| 0 <= i < services@.len() implies #[trigger] services@[i]
                == self.services@[i] by {
                assert(cloned(self.services@[i], services@[i]));
            }
        }
        RunSummary {
            shutdown_cause: self.shutdown_cause,
            readiness: self.readiness,
            services,
        }
    }
}

} // verus!
