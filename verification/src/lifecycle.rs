//! Lifecycle decisions while the supervisor runs.
//!
//! [`Supervision`] holds everything the supervisor knows about its services. The
//! embedding program spawns the tasks it is told to launch, waits for one of them
//! to end and reports that with [`Supervision::on_joined`]; the answer says whether
//! to keep waiting, to launch a service again, or to drain what is left.
use std::time::Duration;

use tokio::task::Id;
use tokio_util::sync::CancellationToken;
use vstd::prelude::*;

use crate::drain::Drain;
use crate::error::Error;
use crate::policy::{ErrorAction, ExitAction, FailureAction, ServicePolicy};
use crate::readiness::{
    after_settling, ungated, ReadinessMode, SealedSignal, SharedReadiness, Steward,
    SupervisorReadiness,
};
use crate::service::ServiceOutcome;
use crate::summary::{RunSummary, ServiceSummary, ShutdownCause};
use crate::task::{Joined, RunningTasks, TaskResult};
use crate::token::{cancelled, once_cancelled, RootToken};

verus! {

/// Where a shutdown request of a registered service comes from.
#[derive(Clone, Copy, Debug, PartialEq, Eq, Structural)]
pub enum Origin {
    /// From the service itself.
    Service,
    /// From an operating-system signal that the service listens for.
    Signal,
}

/// One registered service: its stable name, resolved policy, startup readiness
/// mode, and what the embedding program needs to run it.
pub struct Registration<R> {
    pub name: &'static str,
    pub policy: ServicePolicy,
    pub readiness: ReadinessMode,
    pub origin: Origin,
    pub runner: R,
}

/// Runtime state tracked for one registered service.
pub struct ServiceState<R> {
    pub registration: Registration<R>,
    /// How often the service was restarted.
    pub restarts: usize,
    /// What the service reported last.
    pub last_outcome: ServiceOutcome,
    /// The service has no startup gate, or its gate was found crossed at an exit or was
    /// crossed by completing.
    pub ready: bool,
}

impl<R> ServiceState<R> {
    /// The state of a service that has not ended yet.
    pub open spec fn fresh(registration: Registration<R>) -> Self {
        ServiceState {
            registration,
            restarts: 0,
            last_outcome: ServiceOutcome::Cancelled,
            ready: registration.readiness == ReadinessMode::Immediate,
        }
    }

    /// Creates the state of a service that has not ended yet. Until it reports
    /// something else, it counts as cancelled.
    pub fn new(registration: Registration<R>) -> (state: Self)
        ensures
            state == ServiceState::fresh(registration),
    {
        let ready = registration.readiness == ReadinessMode::Immediate;
        ServiceState { registration, restarts: 0, last_outcome: ServiceOutcome::Cancelled, ready }
    }
}

/// What the supervisor does about an exit.
#[derive(Clone, Copy, Debug, PartialEq, Eq)]
pub enum Decision {
    /// Accept the exit.
    Continue,
    /// Run the service again, after `delay` if there is one.
    Restart { delay: Option<Duration> },
    /// Shut the system down.
    Shutdown(ShutdownCause),
}

/// The decision for a service that ended with `outcome` after `restarts` restarts.
///
/// A service that ends before its startup gate is crossed shuts the system down,
/// whatever its policy says. Otherwise its policy decides about completion and
/// errors, a request for shutdown is granted, and a cancellation is accepted.
pub open spec fn exit_decision<R>(
    registration: Registration<R>,
    restarts: nat,
    ready: bool,
    outcome: ServiceOutcome,
) -> Decision {
    if !ready {
        Decision::Shutdown(ShutdownCause::ReadinessFailed { service: registration.name })
    } else {
        match outcome {
            ServiceOutcome::Completed => match registration.policy.completion() {
                ExitAction::Ignore => Decision::Continue,
                ExitAction::Restart => Decision::Restart { delay: None },
                ExitAction::Shutdown => Decision::Shutdown(ShutdownCause::Requested),
            },
            ServiceOutcome::Cancelled => Decision::Continue,
            ServiceOutcome::RequestedShutdown => Decision::Shutdown(
                match registration.origin {
                    Origin::Service => ShutdownCause::ServiceRequested {
                        service: registration.name,
                    },
                    Origin::Signal => ShutdownCause::Signal,
                },
            ),
            ServiceOutcome::Error(_) => match registration.policy.failure().decision(restarts) {
                FailureAction::Restart { backoff } => Decision::Restart { delay: Some(backoff) },
                FailureAction::Terminal(ErrorAction::Ignore) => Decision::Continue,
                FailureAction::Terminal(ErrorAction::Shutdown) => Decision::Shutdown(
                    ShutdownCause::FatalService { service: registration.name },
                ),
            },
        }
    }
}

impl<R> Registration<R> {
    /// Decides about an exit of this service: see [`exit_decision`].
    pub fn decide(&self, restarts: usize, ready: bool, outcome: &ServiceOutcome) -> (decision:
        Decision)
        ensures
            decision == exit_decision(*self, restarts as nat, ready, *outcome),
    {
        if !ready {
            return Decision::Shutdown(ShutdownCause::ReadinessFailed { service: self.name });
        }
        match outcome {
            ServiceOutcome::Completed => match self.policy.on_completed() {
                ExitAction::Ignore => Decision::Continue,
                ExitAction::Restart => Decision::Restart { delay: None },
                ExitAction::Shutdown => Decision::Shutdown(ShutdownCause::Requested),
            },
            ServiceOutcome::Cancelled => Decision::Continue,
            ServiceOutcome::RequestedShutdown => match self.origin {
                Origin::Service => {
                    Decision::Shutdown(ShutdownCause::ServiceRequested { service: self.name })
                },
                Origin::Signal => Decision::Shutdown(ShutdownCause::Signal),
            },
            ServiceOutcome::Error(_) => match self.policy.restart().action(restarts) {
                FailureAction::Restart { backoff } => Decision::Restart { delay: Some(backoff) },
                FailureAction::Terminal(ErrorAction::Ignore) => Decision::Continue,
                FailureAction::Terminal(ErrorAction::Shutdown) => {
                    Decision::Shutdown(ShutdownCause::FatalService { service: self.name })
                },
            },
        }
    }
}

/// The states after the service at `index` ended with `outcome`. Completing counts as
/// crossing its startup gate.
pub open spec fn with_outcome<R>(
    states: Seq<ServiceState<R>>,
    index: int,
    outcome: ServiceOutcome,
) -> Seq<ServiceState<R>> {
    states.update(
        index,
        ServiceState {
            registration: states[index].registration,
            restarts: states[index].restarts,
            last_outcome: outcome,
            ready: states[index].ready || outcome is Completed,
        },
    )
}

/// The states after the service at `index` ended with `outcome`, its startup gate was
/// found crossed or not, and the supervisor answered with `decision`: a restart is
/// counted.
pub open spec fn after_exit<R>(
    states: Seq<ServiceState<R>>,
    index: int,
    ready: bool,
    outcome: ServiceOutcome,
    decision: Decision,
) -> Seq<ServiceState<R>> {
    states.update(
        index,
        ServiceState {
            registration: states[index].registration,
            restarts: if decision is Restart {
                (states[index].restarts + 1) as usize
            } else {
                states[index].restarts
            },
            last_outcome: outcome,
            ready,
        },
    )
}

/// Answering an exit overwrites the outcome that was noted before.
proof fn lemma_exit_overwrites_outcome<R>(
    states: Seq<ServiceState<R>>,
    index: int,
    noted: ServiceOutcome,
    ready: bool,
    outcome: ServiceOutcome,
    decision: Decision,
)
    requires
        0 <= index < states.len(),
    ensures
        after_exit(with_outcome(states, index, noted), index, ready, outcome, decision)
            == after_exit(states, index, ready, outcome, decision),
{
    let noted_states = with_outcome(states, index, noted);
    let left = after_exit(noted_states, index, ready, outcome, decision);
    let right = after_exit(states, index, ready, outcome, decision);
    assert forall|i: int| 0 <= i < states.len() implies #[trigger] left[i] == right[i] by {
        if i != index {
            assert(noted_states[i] == states[i]);
        }
    }
    assert(left =~= right);
}

/// Every service has no startup gate, or its gate was found crossed at an exit or was
/// crossed by completing.
pub open spec fn all_seen_ready<R>(states: Seq<ServiceState<R>>) -> bool {
    forall|i: int| 0 <= i < states.len() ==> (#[trigger] states[i]).ready
}

/// Returns the aggregate readiness that a run ends with, given what the shared
/// readiness says: it is ready when every gate was found crossed, and otherwise what
/// the shared readiness says.
pub fn final_readiness<R>(
    states: &Vec<ServiceState<R>>,
    shared: SupervisorReadiness,
) -> (readiness: SupervisorReadiness)
    ensures
        readiness == if all_seen_ready(states@) {
            SupervisorReadiness::Ready
        } else {
            shared
        },
{
    let mut i: usize = 0;
    while i < states.len()
        invariant
            i <= states@.len(),
            forall|j: int| 0 <= j < i ==> (#[trigger] states@[j]).ready,
        decreases states@.len() - i,
    {
        if !states[i].ready {
            assert(!all_seen_ready(states@));
            return shared;
        }
        i = i + 1;
    }
    SupervisorReadiness::Ready
}

/// The states after every service with a running task was written off as cancelled.
pub open spec fn written_off<R>(
    states: Seq<ServiceState<R>>,
    running: Map<Id, usize>,
) -> Seq<ServiceState<R>> {
    Seq::new(
        states.len(),
        |i: int|
            if running.contains_value(i as usize) {
                ServiceState { last_outcome: ServiceOutcome::Cancelled, ..states[i] }
            } else {
                states[i]
            },
    )
}

/// The readiness modes of the services.
pub open spec fn state_modes<R>(states: Seq<ServiceState<R>>) -> Seq<ReadinessMode> {
    states.map_values(|state: ServiceState<R>| state.registration.readiness)
}

/// States with the same registrations have the same readiness modes.
pub(crate) proof fn lemma_modes_kept<R>(before: Seq<ServiceState<R>>, after: Seq<ServiceState<R>>)
    requires
        after.len() == before.len(),
        forall|i: int|
            0 <= i < before.len() ==> (#[trigger] after[i]).registration == before[i].registration,
    ensures
        state_modes(after) == state_modes(before),
{
    assert(state_modes(after) =~= state_modes(before)) by {
        assert forall|i: int| 0 <= i < before.len() implies #[trigger] state_modes(after)[i]
            == state_modes(before)[i] by {
            assert(after[i].registration == before[i].registration);
        }
    }
}

/// Every recorded task belongs to a known service.
pub open spec fn tasks_known(running: Map<Id, usize>, services: nat) -> bool {
    forall|task_id: Id| #[trigger]
        running.contains_key(task_id) ==> running[task_id] < services
}

/// Looks up the state of the service at `index`.
pub fn state_mut<R>(states: &mut Vec<ServiceState<R>>, index: usize) -> (found: Result<
    &mut ServiceState<R>,
    Error,
>)
    ensures
        match found {
            Ok(state) => {
                &&& index < old(states)@.len()
                &&& *state == old(states)@[index as int]
                &&& final(states)@ == old(states)@.update(index as int, *final(state))
            },
            Err(error) => {
                &&& index >= old(states)@.len()
                &&& error == (Error::UnknownServiceIndex { index })
                &&& final(states)@ == old(states)@
            },
        },
{
    if index < states.len() {
        Ok(&mut states[index])
    } else {
        Err(Error::UnknownServiceIndex { index })
    }
}

/// What reading one report on an ended task does to the record of running tasks and
/// to the states.
///
/// The task leaves the record; a task that is not in the record is an error and
/// changes nothing. An aborted task's service is marked cancelled, if there is such
/// a service.
pub open spec fn joins<R>(
    joined: Joined,
    running: Map<Id, usize>,
    states: Seq<ServiceState<R>>,
    running_after: Map<Id, usize>,
    states_after: Seq<ServiceState<R>>,
    result: Result<TaskResult, Error>,
) -> bool {
    let task_id = joined.task();
    if !running.contains_key(task_id) {
        &&& running_after == running
        &&& states_after == states
        &&& result matches Err(Error::UnknownTask { task_id: shown })
        &&& vstd::string::to_string_from_display_ensures::<Id>(&task_id, shown)
    } else {
        let recorded = running[task_id];
        &&& running_after == running.remove(task_id)
        &&& if joined is Aborted && recorded >= states.len() {
            &&& states_after == states
            &&& result == Err::<TaskResult, Error>(Error::UnknownServiceIndex { index: recorded })
        } else {
            &&& states_after == if joined is Aborted {
                with_outcome(states, recorded as int, ServiceOutcome::Cancelled)
            } else {
                states
            }
            &&& result is Ok
            &&& joined.contributes(recorded, result->Ok_0)
        }
    }
}

/// Resolves an ended task back into one supervisor-tracked service.
pub fn join_result<R>(
    joined: Joined,
    running: &mut RunningTasks,
    states: &mut Vec<ServiceState<R>>,
) -> (result: Result<TaskResult, Error>)
    requires
        old(running).wf(),
    ensures
        final(running).wf(),
        joins(joined, old(running)@, old(states)@, final(running)@, final(states)@, result),
{
    let ghost before = running@;
    match joined {
        Joined::Finished { task_id, result } => match running.remove(&task_id) {
            Some(_) => Ok(result),
            None => {
                assert(before.remove(task_id) =~= before);
                Err(Error::UnknownTask { task_id: task_id.to_string() })
            },
        },
        Joined::Aborted { task_id } => match running.remove(&task_id) {
            Some(index) => match state_mut(states, index) {
                Ok(state) => {
                    state.last_outcome = ServiceOutcome::Cancelled;
                    Ok(TaskResult::new(index, ServiceOutcome::Cancelled))
                },
                Err(error) => Err(error),
            },
            None => {
                assert(before.remove(task_id) =~= before);
                Err(Error::UnknownTask { task_id: task_id.to_string() })
            },
        },
        Joined::Failed { task_id, message } => match running.remove(&task_id) {
            Some(index) => Ok(TaskResult::new(index, ServiceOutcome::failed(message))),
            None => {
                assert(before.remove(task_id) =~= before);
                Err(Error::UnknownTask { task_id: task_id.to_string() })
            },
        },
    }
}

/// Writes off every service that still has a running task as cancelled.
pub fn mark_cancelled<R>(running: &RunningTasks, states: &mut Vec<ServiceState<R>>)
    requires
        running.wf(),
    ensures
        final(states)@ == written_off(old(states)@, running@),
{
    let ghost before = states@;
    assert(before.len() <= usize::MAX) by {
        assert(before.len() == states.len());
    }
    let services = running.services();
    let mut at: usize = 0;
    while at < services.len()
        invariant
            at <= services@.len(),
            states@.len() == before.len(),
            before.len() <= usize::MAX,
            forall|i: int|
                0 <= i < before.len() ==> #[trigger] states@[i] == if services@.take(
                    at as int,
                ).contains(i as usize) {
                    ServiceState { last_outcome: ServiceOutcome::Cancelled, ..before[i] }
                } else {
                    before[i]
                },
        decreases services@.len() - at,
    {
        let index = services[at];
        let ghost earlier = states@;
        if let Ok(state) = state_mut(states, index) {
            state.last_outcome = ServiceOutcome::Cancelled;
        }
        proof {
            let next = services@.take(at + 1);
            assert(next =~= services@.take(at as int).push(index));
            assert forall|i: int| 0 <= i < before.len() implies #[trigger] states@[i]
                == if next.contains(i as usize) {
                ServiceState { last_outcome: ServiceOutcome::Cancelled, ..before[i] }
            } else {
                before[i]
            } by {
                let done = services@.take(at as int);
                assert(earlier[i] == if done.contains(i as usize) {
                    ServiceState { last_outcome: ServiceOutcome::Cancelled, ..before[i] }
                } else {
                    before[i]
                });
                if i == index {
                    assert(next[at as int] == i as usize);
                    assert(next.contains(i as usize));
                } else {
                    if next.contains(i as usize) {
                        let k = choose|k: int| 0 <= k < next.len() && next[k] == i as usize;
                        assert(done[k] == i as usize);
                    }
                    if done.contains(i as usize) {
                        let k = choose|k: int| 0 <= k < done.len() && done[k] == i as usize;
                        assert(next[k] == i as usize);
                    }
                }
            }
        }
        at = at + 1;
    }
    proof {
        assert(services@.take(at as int) =~= services@);
        assert(states@ =~= written_off(before, running@));
    }
}

/// `summaries` reports every service once, in registration order, with its last
/// outcome and the number of its restarts.
pub open spec fn summarizes<R>(
    summaries: Seq<ServiceSummary>,
    states: Seq<ServiceState<R>>,
) -> bool {
    &&& summaries.len() == states.len()
    &&& forall|i: int|
        0 <= i < states.len() ==> {
            &&& (#[trigger] summaries[i]).label() == states[i].registration.name
            &&& summaries[i].last_outcome() == states[i].last_outcome
            &&& summaries[i].restart_count() == states[i].restarts
        }
}

/// Summarizes the services.
pub fn summarize<R>(states: &Vec<ServiceState<R>>) -> (summaries: Vec<ServiceSummary>)
    ensures
        summarizes(summaries@, states@),
{
    let mut summaries: Vec<ServiceSummary> = Vec::new();
    let mut i: usize = 0;
    while i < states.len()
        invariant
            i <= states@.len(),
            summarizes(summaries@, states@.take(i as int)),
        decreases states@.len() - i,
    {
        let state = &states[i];
        let summary = ServiceSummary::new(
            state.registration.name,
            state.last_outcome.clone(),
            state.restarts,
        );
        summaries.push(summary);
        i = i + 1;
    }
    assert(states@.take(i as int) =~= states@);
    summaries
}

/// What the embedding program needs to start a service: hand the token and the
/// readiness handle to the service, after waiting for `restart_delay` if there is
/// one.
pub struct Launch {
    pub index: usize,
    pub token: CancellationToken,
    pub readiness: SealedSignal,
    pub restart_delay: Option<Duration>,
}

impl Launch {
    /// The launch is for the service at `index`, under the token `root`, with the
    /// readiness handle that fits its mode.
    pub open spec fn starts(
        self,
        index: usize,
        mode: ReadinessMode,
        tracker: SharedReadiness,
        root: CancellationToken,
        restart_delay: Option<Duration>,
    ) -> bool {
        &&& self.index == index
        &&& self.token == root
        &&& self.readiness.gate() == match mode {
            ReadinessMode::Immediate => None,
            ReadinessMode::Explicit => Some((tracker, index)),
        }
        &&& self.restart_delay == restart_delay
    }
}

/// What the supervisor knows: the services, the tasks that run, the shared
/// readiness, the root token, and the grace period granted at shutdown.
pub struct SupervisionView<R> {
    pub states: Seq<ServiceState<R>>,
    pub running: Map<Id, usize>,
    pub tracker: SharedReadiness,
    pub root: CancellationToken,
    pub grace: Duration,
    /// How often the supervisor used its key to each startup gate.
    pub uses: Seq<nat>,
}

/// A running supervisor.
pub struct Supervision<R> {
    states: Vec<ServiceState<R>>,
    running: RunningTasks,
    readiness: Steward,
    root: RootToken,
    shutdown_timeout: Duration,
}

/// What follows an exit.
pub enum Next<R> {
    /// Keep waiting for tasks to end.
    Running(Supervision<R>),
    /// Launch a service again, then keep waiting.
    Restarting(Supervision<R>, Launch),
    /// The root token is cancelled: drain what is left.
    Draining(Drain<R>),
}

impl<R> SupervisionView<R> {
    /// The readiness is shared for exactly these services, every recorded task belongs to
    /// one of them, and the supervisor has not cancelled the root token.
    pub open spec fn consistent(self) -> bool {
        &&& self.tracker.modes() == state_modes(self.states)
        &&& tasks_known(self.running, self.states.len())
        &&& !cancelled(self.root)
    }

    /// If the result of an ended task is answered with a restart, the restart can be
    /// counted: the counter is not at its limit.
    pub open spec fn can_take(self, result: TaskResult, ready: bool) -> bool {
        let index = result.index as int;
        index < self.states.len() && exit_decision(
            self.states[index].registration,
            self.states[index].restarts as nat,
            ready,
            result.outcome,
        ) is Restart ==> self.states[index].restarts < usize::MAX
    }

    /// If a task that ended as `joined` says is answered with a restart, the restart
    /// can be counted.
    pub open spec fn countable(self, joined: Joined) -> bool {
        self.running.contains_key(joined.task()) ==> match joined {
            Joined::Finished { result, .. } => self.can_take(result, true),
            Joined::Aborted { .. } => true,
            Joined::Failed { task_id, .. } => {
                let index = self.running[task_id] as int;
                index < self.states.len() && self.states[index].registration.policy.failure().retries(
                    self.states[index].restarts as nat,
                ) ==> self.states[index].restarts < usize::MAX
            },
        }
    }

    /// `next` follows when a task ended as `joined` says.
    ///
    /// A task that was never recorded is an error. Otherwise the task leaves the
    /// record, the exit is settled with the shared readiness, using the key of its own
    /// startup gate if the service completed and no key otherwise, and what the task
    /// contributes is answered. The service counts as ready if its startup gate is
    /// crossed by then, or was found crossed before. In particular a known service is
    /// always ready if it has no gate, completed, or was found ready before.
    pub open spec fn exits(self, joined: Joined, next: Result<Next<R>, Error>) -> bool {
        let task_id = joined.task();
        if !self.running.contains_key(task_id) {
            &&& next matches Err(Error::UnknownTask { task_id: shown })
            &&& vstd::string::to_string_from_display_ensures::<Id>(&task_id, shown)
        } else {
            exists|result: TaskResult, crossed: bool, ready: bool|
                {
                    &&& #[trigger] self.tracker.settles(
                        result.index,
                        result.outcome is Completed,
                        crossed,
                    )
                    &&& ready == (crossed || (result.index < self.states.len()
                        && self.states[result.index as int].ready))
                    &&& joined.contributes(self.running[task_id], result)
                    &&& result.index < self.states.len() ==> {
                        &&& self.states[result.index as int].registration.readiness
                            == ReadinessMode::Immediate ==> ready
                        &&& self.states[result.index as int].ready ==> ready
                        &&& result.outcome is Completed ==> ready
                    }
                    &&& #[trigger] (SupervisionView {
                        running: self.running.remove(task_id),
                        uses: after_settling(
                            self.uses,
                            result.index,
                            result.outcome is Completed,
                        ),
                        ..self
                    }).follows(result, ready, next)
                }
        }
    }

    /// `next` follows when a task with the given result ended in the situation
    /// `self`, and the service's startup gate was found crossed or not.
    pub open spec fn follows(
        self,
        result: TaskResult,
        ready: bool,
        next: Result<Next<R>, Error>,
    ) -> bool {
        let index = result.index as int;
        if index >= self.states.len() {
            next == Err::<Next<R>, Error>(Error::UnknownServiceIndex { index: result.index })
        } else {
            let state = self.states[index];
            let decision = exit_decision(
                state.registration,
                state.restarts as nat,
                ready,
                result.outcome,
            );
            let states = after_exit(self.states, index, ready, result.outcome, decision);
            match decision {
                Decision::Continue => {
                    &&& next matches Ok(Next::Running(run))
                    &&& run.wf()
                    &&& run@ == SupervisionView { states, ..self }
                },
                Decision::Restart { delay } => {
                    &&& next matches Ok(Next::Restarting(run, launch))
                    &&& run.wf()
                    &&& run@ == SupervisionView { states, ..self }
                    &&& launch.starts(
                        result.index,
                        state.registration.readiness,
                        self.tracker,
                        self.root,
                        delay,
                    )
                },
                Decision::Shutdown(cause) => {
                    &&& next matches Ok(Next::Draining(drain))
                    &&& drain.wf()
                    &&& drain@.states == states
                    &&& drain@.running == self.running
                    &&& drain@.tracker == self.tracker
                    &&& drain@.grace == self.grace
                    &&& drain@.uses == self.uses
                    &&& drain@.cause == cause
                    &&& drain@.root == once_cancelled(self.root)
                    &&& cancelled(drain@.root)
                },
            }
        }
    }
}

impl<R> View for Supervision<R> {
    type V = SupervisionView<R>;

    closed spec fn view(&self) -> SupervisionView<R> {
        SupervisionView {
            states: self.states@,
            running: self.running@,
            tracker: self.readiness.shared(),
            root: self.root.token(),
            grace: self.shutdown_timeout,
            uses: self.readiness.uses(),
        }
    }
}

impl<R> Supervision<R> {
    /// The bookkeeping is consistent.
    pub closed spec fn wf(&self) -> bool {
        &&& self.running.wf()
        &&& self.readiness.wf()
        &&& self.root.wf()
        &&& self@.consistent()
    }

    /// Consistent bookkeeping can be told from what the supervisor knows.
    pub proof fn lemma_consistent(&self)
        requires
            self.wf(),
        ensures
            self@.consistent(),
    {
    }

    /// Starts supervising `states`, none of which runs yet.
    pub(crate) fn begin(
        states: Vec<ServiceState<R>>,
        readiness: Steward,
        shutdown_timeout: Duration,
    ) -> (run: Self)
        requires
            readiness.wf(),
            readiness.shared().modes() == state_modes(states@),
        ensures
            run.wf(),
            run@.consistent(),
            run@.states == states@,
            run@.running == Map::<Id, usize>::empty(),
            run@.tracker == readiness.shared(),
            run@.uses == readiness.uses(),
            !cancelled(run@.root),
            run@.grace == shutdown_timeout,
    {
        let root = RootToken::new();
        proof {
            root.lemma_unexercised();
        }
        Supervision { states, running: RunningTasks::new(), readiness, root, shutdown_timeout }
    }

    /// Returns how many services are supervised.
    pub fn len(&self) -> (services: usize)
        ensures
            services == self@.states.len(),
    {
        self.states.len()
    }

    /// Returns what runs the service at `index`.
    pub fn runner(&self, index: usize) -> (runner: Option<&R>)
        ensures
            match runner {
                Some(runner) => index < self@.states.len() && *runner
                    == self@.states[index as int].registration.runner,
                None => index >= self@.states.len(),
            },
    {
        if index < self.states.len() {
            Some(&self.states[index].registration.runner)
        } else {
            None
        }
    }

    /// Returns whether a restart can be counted, should the ended task be answered
    /// with one.
    pub fn can_count(&self, joined: &Joined) -> (countable: bool)
        requires
            self.wf(),
        ensures
            countable == self@.countable(*joined),
    {
        match joined {
            Joined::Finished { task_id, result } => match self.running.get(task_id) {
                Some(_) => {
                    if result.index < self.states.len() {
                        let state = &self.states[result.index];
                        match state.registration.decide(state.restarts, true, &result.outcome) {
                            Decision::Restart { .. } => state.restarts < usize::MAX,
                            _ => true,
                        }
                    } else {
                        true
                    }
                },
                None => true,
            },
            Joined::Aborted { .. } => true,
            Joined::Failed { task_id, .. } => match self.running.get(task_id) {
                Some(index) => {
                    if index < self.states.len() {
                        let state = &self.states[index];
                        match state.registration.policy.restart().action(state.restarts) {
                            FailureAction::Restart { .. } => state.restarts < usize::MAX,
                            FailureAction::Terminal(_) => true,
                        }
                    } else {
                        true
                    }
                },
                None => true,
            },
        }
    }

    /// Prepares the launch of the service at `index`.
    fn launch(&self, index: usize, restart_delay: Option<Duration>) -> (launch: Launch)
        requires
            index < self@.states.len(),
        ensures
            launch.starts(
                index,
                self@.states[index as int].registration.readiness,
                self@.tracker,
                self@.root,
                restart_delay,
            ),
    {
        let mode = self.states[index].registration.readiness;
        Launch {
            index,
            token: self.root.handle(),
            readiness: self.readiness.signal(index, mode),
            restart_delay,
        }
    }

    /// Returns the launches that start the run: every service once, in registration
    /// order, without delay.
    pub fn initial_launches(&self) -> (launches: Vec<Launch>)
        ensures
            launches@.len() == self@.states.len(),
            forall|i: int|
                0 <= i < launches@.len() ==> (#[trigger] launches@[i]).starts(
                    i as usize,
                    self@.states[i].registration.readiness,
                    self@.tracker,
                    self@.root,
                    None,
                ),
    {
        let mut launches: Vec<Launch> = Vec::new();
        let mut i: usize = 0;
        while i < self.states.len()
            invariant
                i <= self@.states.len(),
                self@.states == self.states@,
                launches@.len() == i,
                forall|j: int|
                    0 <= j < i ==> (#[trigger] launches@[j]).starts(
                        j as usize,
                        self@.states[j].registration.readiness,
                        self@.tracker,
                        self@.root,
                        None,
                    ),
            decreases self@.states.len() - i,
        {
            let launch = self.launch(i, None);
            launches.push(launch);
            i = i + 1;
        }
        launches
    }

    /// Takes note that `task_id` runs the service at `index`.
    pub fn note_spawned(&mut self, task_id: Id, index: usize)
        requires
            old(self).wf(),
            index < old(self)@.states.len(),
        ensures
            final(self).wf(),
            final(self)@ == (SupervisionView {
                running: old(self)@.running.insert(task_id, index),
                ..old(self)@
            }),
    {
        self.running.insert(task_id, index);
    }

    /// Reacts to the result of an ended task, given whether the service's startup
    /// gate is crossed.
    #[verifier::spinoff_prover]
    pub fn react(self, result: TaskResult, ready: bool) -> (next: Result<Next<R>, Error>)
        requires
            self.wf(),
            self@.can_take(result, ready),
        ensures
            self@.follows(result, ready, next),
    {
        let ghost before = self@;
        let mut run = self;
        let TaskResult { index, outcome } = result;
        let decision = match state_mut(&mut run.states, index) {
            Ok(state) => {
                let decision = state.registration.decide(state.restarts, ready, &outcome);
                if let Decision::Restart { .. } = decision {
                    state.restarts = state.restarts + 1;
                }
                state.last_outcome = outcome;
                state.ready = ready;
                decision
            },
            Err(error) => {
                return Err(error);
            },
        };
        assert(run.states@ =~= after_exit(
            before.states,
            index as int,
            ready,
            result.outcome,
            decision,
        ));
        proof {
            lemma_modes_kept(before.states, run.states@);
        }
        match decision {
            Decision::Continue => Ok(Next::Running(run)),
            Decision::Restart { delay } => {
                let launch = run.launch(index, delay);
                Ok(Next::Restarting(run, launch))
            },
            Decision::Shutdown(cause) => {
                let root = run.root.cancel();
                Ok(
                    Next::Draining(
                        Drain::begin(
                            run.states,
                            run.running,
                            run.readiness,
                            root,
                            run.shutdown_timeout,
                            cause,
                        ),
                    ),
                )
            },
        }
    }

    /// Reacts to an ended task, as read with [`read_joined`](crate::task::read_joined).
    #[verifier::spinoff_prover]
    pub fn on_joined(self, joined: Joined) -> (next: Result<Next<R>, Error>)
        requires
            self.wf(),
            self@.countable(joined),
        ensures
            self@.exits(joined, next),
    {
        let ghost before = self@;
        let mut run = self;
        let resolved = join_result(joined, &mut run.running, &mut run.states);
        let result = match resolved {
            Ok(result) => result,
            Err(error) => {
                proof {
                    if before.running.contains_key(joined.task()) {
                        let recorded = before.running[joined.task()];
                        assert(recorded < before.states.len());
                    }
                }
                return Err(error);
            },
        };
        let ghost exited = SupervisionView {
            running: before.running.remove(joined.task()),
            uses: after_settling(before.uses, result.index, result.outcome is Completed),
            ..before
        };
        proof {
            lemma_modes_kept(before.states, run.states@);
        }
        let completed = result.outcome.is_completed();
        let crossed = run.readiness.settle(result.index, completed);
        let known = result.index < run.states.len() && run.states[result.index].ready;
        let ready = known || crossed;
        let ghost resolved_view = run@;
        let ghost settled = result;
        let next = run.react(result, ready);
        proof {
            let index = settled.index as int;
            if index < before.states.len() {
                let decision = exit_decision(
                    before.states[index].registration,
                    before.states[index].restarts as nat,
                    ready,
                    settled.outcome,
                );
                lemma_exit_overwrites_outcome(
                    before.states,
                    index,
                    ServiceOutcome::Cancelled,
                    ready,
                    settled.outcome,
                    decision,
                );
                assert(resolved_view.states == before.states || resolved_view.states
                    == with_outcome(before.states, index, ServiceOutcome::Cancelled));
                assert(state_modes(before.states)[index]
                    == before.states[index].registration.readiness);
            }
            assert(exited.follows(settled, ready, next));
        }
        next
    }

    /// Summarizes a run that ended because no task is left: nothing requested
    /// shutdown.
    pub fn complete(&self) -> (summary: RunSummary)
        ensures
            summary.cause() == ShutdownCause::Completed,
            exists|shared: SupervisorReadiness| #[trigger]
                self@.tracker.reports(shared) && summary.final_readiness() == if all_seen_ready(
                    self@.states,
                ) {
                    SupervisorReadiness::Ready
                } else {
                    shared
                },
            all_seen_ready(self@.states) || ungated(self@.tracker.modes())
                ==> summary.final_readiness() == SupervisorReadiness::Ready,
            summarizes(summary.entries(), self@.states),
    {
        let shared = self.readiness.state();
        assert(self@.tracker.reports(shared));
        let readiness = final_readiness(&self.states, shared);
        RunSummary::new(ShutdownCause::Completed, readiness, summarize(&self.states))
    }
}

} // verus!
