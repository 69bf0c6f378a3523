//! Builder and entry point of the supervisor.
use std::sync::Arc;
use std::time::Duration;

use tokio::sync::watch;
use tokio_util::sync::CancellationToken;
use vstd::prelude::*;

use crate::context::{Context, FromSupervisorState};
use crate::error::Error;
use crate::lifecycle::{state_modes, Origin, Registration, ServiceState, Supervision};
use crate::policy::{ErrorAction, ExitAction, RestartPolicy, ServicePolicy};
use crate::readiness::{
    aggregate, initial_members, lemma_initially_ready, member_modes, ungated, ReadinessInner,
    unused, ReadinessMode, ReadySignal, SharedReadiness, StartSignal, Steward,
    SupervisorReadiness,
};
use crate::service::{ServiceOutcome, SupervisedService};
use crate::time::nanos;
use crate::token::cancelled;
use crate::watch::{first_seen, heard};

verus! {

/// Explicit registration options for [`SupervisorBuilder::add_with_options`].
///
/// This keeps optional dimensions as data instead of multiplying builder methods.
/// Prefer service adapters like [`when_ready`](crate::when_ready) and
/// [`until_cancelled`](crate::until_cancelled) when they describe service shape;
/// use [`Options`] when registration policy itself needs to be explicit.
#[derive(Debug, PartialEq, Eq)]
pub struct Options {
    policy: Option<ServicePolicy>,
    readiness: Option<ReadinessMode>,
}

impl Options {
    /// The explicit policy, if there is one.
    pub closed spec fn chosen_policy(&self) -> Option<ServicePolicy> {
        self.policy
    }

    /// The explicit readiness mode, if there is one.
    pub closed spec fn chosen_readiness(&self) -> Option<ReadinessMode> {
        self.readiness
    }

    /// Creates empty registration options.
    pub fn new() -> (options: Self)
        ensures
            options.chosen_policy() is None,
            options.chosen_readiness() is None,
    {
        Options { policy: None, readiness: None }
    }

    /// Uses `policy` for this registration instead of the builder defaults.
    pub fn policy(self, policy: ServicePolicy) -> (options: Self)
        ensures
            options.chosen_policy() == Some(policy),
            options.chosen_readiness() == self.chosen_readiness(),
    {
        Options { policy: Some(policy), readiness: self.readiness }
    }

    /// Overrides service-derived readiness for this registration.
    pub fn readiness(self, readiness: ReadinessMode) -> (options: Self)
        ensures
            options.chosen_policy() == self.chosen_policy(),
            options.chosen_readiness() == Some(readiness),
    {
        Options { policy: self.policy, readiness: Some(readiness) }
    }
}

/// Options with the same choices are the same.
pub proof fn law_options_are_their_choices(one: Options, other: Options)
    requires
        one.chosen_policy() == other.chosen_policy(),
        one.chosen_readiness() == other.chosen_readiness(),
    ensures
        one == other,
{
}

impl Clone for Options {
    fn clone(&self) -> (copy: Self)
        ensures
            copy == *self,
    {
        let policy = match &self.policy {
            Some(policy) => Some(policy.clone()),
            None => None,
        };
        Options { policy, readiness: self.readiness }
    }
}

impl Default for Options {
    fn default() -> (options: Self)
        ensures
            options.chosen_policy() is None,
            options.chosen_readiness() is None,
    {
        Options::new()
    }
}

/// The right to break the seal of a signal. Only [`ServiceRunner::start`] has it.
pub struct StartKey {
    unit: (),
}

/// One service with the context extracted for it at registration time.
pub struct ServiceRunner<S> where S: SupervisedService {
    service: Arc<S>,
    ctx: S::Context,
}

/// What to do before the service runs, or instead of running it.
#[derive(Debug, PartialEq, Eq)]
pub enum RunnerAction {
    /// Wait for `delay`, unless the token is cancelled first.
    Sleep { delay: Duration },
    /// Start the service.
    Start,
    /// Do not start the service; report this outcome for it.
    Report(ServiceOutcome),
}

/// Decides how a launch begins: with its restart delay, if it has one.
pub fn begin_launch(restart_delay: Option<Duration>) -> (action: RunnerAction)
    ensures
        action == match restart_delay {
            Some(delay) => RunnerAction::Sleep { delay },
            None => RunnerAction::Start,
        },
{
    match restart_delay {
        Some(delay) => RunnerAction::Sleep { delay },
        None => RunnerAction::Start,
    }
}

/// Decides how a launch goes on after its restart delay. If the token was cancelled
/// during the delay, the service is not started and counts as cancelled.
pub fn after_delay(slept: Option<()>) -> (action: RunnerAction)
    ensures
        action == match slept {
            Some(_) => RunnerAction::Start,
            None => RunnerAction::Report(ServiceOutcome::Cancelled),
        },
{
    match slept {
        Some(_) => RunnerAction::Start,
        None => RunnerAction::Report(ServiceOutcome::Cancelled),
    }
}

impl<S> ServiceRunner<S> where S: SupervisedService {
    /// The service.
    pub closed spec fn inner(&self) -> S {
        *self.service
    }

    /// The context extracted for the service.
    pub closed spec fn payload(&self) -> S::Context {
        self.ctx
    }

    /// The service can be run under `token` with `readiness`.
    pub open spec fn startable(&self, token: CancellationToken, readiness: ReadySignal) -> bool {
        forall|ctx: Context<S::Context>|
            #![trigger self.inner().accepts(ctx)]
            {
                &&& ctx.root() == token
                &&& ctx.signal() == readiness
                &&& cloned(self.payload(), ctx.payload())
            } ==> self.inner().accepts(ctx)
    }

    /// Pairs a service with its context.
    pub fn new(service: S, ctx: S::Context) -> (runner: Self)
        ensures
            runner.inner() == service,
            runner.payload() == ctx,
    {
        ServiceRunner { service: Arc::new(service), ctx }
    }

    /// Starts the service: it is run with the given token and readiness handle, and
    /// with a clone of its own context.
    pub fn start<P: StartSignal>(&self, token: CancellationToken, readiness: P) -> (future:
        S::Future)
        requires
            self.startable(token, readiness.signal()),
        ensures
            exists|ctx: Context<S::Context>|
                {
                    &&& ctx.root() == token
                    &&& ctx.signal() == readiness.signal()
                    &&& cloned(self.payload(), ctx.payload())
                    &&& #[trigger] call_ensures(S::run, (&self.inner(), ctx), future)
                },
    {
        let copy = self.ctx.clone();
        assert(cloned(self.payload(), copy));
        let key = StartKey { unit: () };
        let ctx = Context::with_readiness(token, readiness.into_signal(&key), copy);
        assert(self.inner().accepts(ctx));
        self.service.run(ctx)
    }
}

impl<R> Registration<R> {
    /// Registers `service` under its own name, to be run with `ctx`.
    pub fn new<S>(
        service: S,
        ctx: S::Context,
        policy: ServicePolicy,
        readiness: ReadinessMode,
    ) -> (registration: Self) where S: SupervisedService, R: From<ServiceRunner<S>>
        ensures
            call_ensures(S::name, (&service,), registration.name),
            registration.policy == policy,
            registration.readiness == readiness,
            registration.origin == Origin::Service,
            exists|runner: ServiceRunner<S>|
                {
                    &&& runner.inner() == service
                    &&& runner.payload() == ctx
                    &&& #[trigger] call_ensures(R::from, (runner,), registration.runner)
                },
    {
        let name = service.name();
        let runner = ServiceRunner::new(service, ctx);
        let ghost made = runner;
        let registration = Registration {
            name,
            policy,
            readiness,
            origin: Origin::Service,
            runner: R::from(runner),
        };
        assert(call_ensures(R::from, (made,), registration.runner));
        registration
    }
}

/// Listener that asks for shutdown when Ctrl+C is pressed.
#[derive(Clone, Copy, Debug, PartialEq, Eq)]
pub struct CtrlC;

impl CtrlC {
    /// The name under which the listener is registered.
    pub open spec fn label() -> Seq<char> {
        "ctrl-c"@
    }

    /// Returns the name under which the listener is registered.
    pub fn name(&self) -> (name: &'static str)
        ensures
            name@ == CtrlC::label(),
    {
        "ctrl-c"
    }

    /// The outcome of listening: shutdown is requested once the signal arrived. A
    /// listener that could not be installed failed, with the given reason.
    pub fn outcome(&self, heard: Result<(), String>) -> (outcome: ServiceOutcome)
        ensures
            match heard {
                Ok(_) => outcome == ServiceOutcome::RequestedShutdown,
                Err(reason) => outcome is Error && outcome->Error_0@ == reason@,
            },
    {
        match heard {
            Ok(_) => ServiceOutcome::RequestedShutdown,
            Err(reason) => ServiceOutcome::failed(reason),
        }
    }
}

/// What a builder has collected.
pub struct BuilderView<S, R> {
    pub state: S,
    pub registrations: Seq<Registration<R>>,
    pub grace: Duration,
    pub restart: RestartPolicy,
}

/// Builder for a [`Supervisor`] backed by root state `S`, whose services are run by
/// runners of type `R`.
///
/// The registration vocabulary is small:
/// - [`SupervisorBuilder::add`] registers a service with the default policy
/// - [`SupervisorBuilder::add_with_options`] registers a service with explicit
///   [`Options`]
/// - [`SupervisorBuilder::shutdown_on_ctrl_c`] registers a Ctrl+C listener
pub struct SupervisorBuilder<S, R> {
    state: S,
    registrations: Vec<Registration<R>>,
    shutdown_timeout: Duration,
    default_restart_policy: RestartPolicy,
}

impl<S, R> View for SupervisorBuilder<S, R> {
    type V = BuilderView<S, R>;

    closed spec fn view(&self) -> BuilderView<S, R> {
        BuilderView {
            state: self.state,
            registrations: self.registrations@,
            grace: self.shutdown_timeout,
            restart: self.default_restart_policy,
        }
    }
}

/// The policy of a registration: the explicit one, or the default restart policy
/// with completion ignored.
pub open spec fn resolves_policy(
    chosen: Option<ServicePolicy>,
    restart: RestartPolicy,
    policy: ServicePolicy,
) -> bool {
    match chosen {
        Some(explicit) => policy == explicit,
        None => policy.completion() == ExitAction::Ignore && policy.failure() == restart,
    }
}

impl<S, R> SupervisorBuilder<S, R> {
    /// Creates a builder with root state `state`, a 5 second shutdown timeout, and a
    /// default restart policy that never restarts and shuts down on errors.
    ///
    /// Every later registration projects its own context from this root state
    /// through [`FromSupervisorState`].
    pub fn new(state: S) -> (builder: Self)
        ensures
            builder@.state == state,
            builder@.registrations == Seq::<Registration<R>>::empty(),
            nanos(builder@.grace) == 5_000_000_000,
            builder@.restart == (RestartPolicy::Never { on_error: ErrorAction::Shutdown }),
    {
        SupervisorBuilder {
            state,
            registrations: Vec::new(),
            shutdown_timeout: Duration::from_secs(5),
            default_restart_policy: RestartPolicy::never(ErrorAction::Shutdown),
        }
    }

    /// Sets the grace period used before lingering tasks are aborted.
    pub fn shutdown_timeout(self, timeout: Duration) -> (builder: Self)
        ensures
            builder@ == (BuilderView { grace: timeout, ..self@ }),
    {
        let mut builder = self;
        builder.shutdown_timeout = timeout;
        builder
    }

    /// Sets the restart policy used for later registrations without an explicit
    /// [`ServicePolicy`].
    pub fn default_restart_policy(self, restart: RestartPolicy) -> (builder: Self)
        ensures
            builder@ == (BuilderView { restart, ..self@ }),
    {
        let mut builder = self;
        builder.default_restart_policy = restart;
        builder
    }

    /// Registers a [`SupervisedService`] using context extracted from the root state
    /// via [`FromSupervisorState`], the builder's default [`RestartPolicy`], and
    /// [`ExitAction::Ignore`] for normal completion.
    pub fn add<T>(self, service: T) -> (builder: Self) where
        T: SupervisedService,
        T::Context: FromSupervisorState<S>,
        R: From<ServiceRunner<T>>,

        ensures
            self@.registers(service, None, None, builder@),
    {
        self.add_with_options(service, Options::new())
    }

    /// Registers a [`SupervisedService`] with explicit [`Options`].
    pub fn add_with_options<T>(self, service: T, options: Options) -> (builder: Self) where
        T: SupervisedService,
        T::Context: FromSupervisorState<S>,
        R: From<ServiceRunner<T>>,

        ensures
            self@.registers(
                service,
                options.chosen_policy(),
                options.chosen_readiness(),
                builder@,
            ),
    {
        let mut builder = self;
        let ghost before = builder@;
        let policy = match options.policy {
            Some(policy) => policy,
            None => ServicePolicy::new(
                ExitAction::Ignore,
                builder.default_restart_policy.clone(),
            ),
        };
        let readiness = match options.readiness {
            Some(readiness) => readiness,
            None => service.readiness(),
        };
        let ctx = <T::Context as FromSupervisorState<S>>::from_state(&builder.state);
        builder.registrations.push(Registration::new(service, ctx, policy, readiness));
        assert(builder@.registrations.drop_last() =~= before.registrations);
        builder
    }

    /// Registers a listener that shuts the supervisor down when Ctrl+C is pressed.
    /// The listener has no startup gate.
    pub fn shutdown_on_ctrl_c(self) -> (builder: Self) where R: From<CtrlC>
        ensures
            builder@.state == self@.state,
            builder@.grace == self@.grace,
            builder@.restart == self@.restart,
            builder@.registrations.len() == self@.registrations.len() + 1,
            builder@.registrations.drop_last() == self@.registrations,
            ({
                let listener = builder@.registrations.last();
                &&& listener.name@ == CtrlC::label()
                &&& resolves_policy(None, self@.restart, listener.policy)
                &&& listener.readiness == ReadinessMode::Immediate
                &&& listener.origin == Origin::Signal
                &&& call_ensures(R::from, (CtrlC,), listener.runner)
            }),
    {
        let mut builder = self;
        let ghost before = builder@;
        let listener = CtrlC;
        let registration = Registration {
            name: listener.name(),
            policy: ServicePolicy::new(
                ExitAction::Ignore,
                builder.default_restart_policy.clone(),
            ),
            readiness: ReadinessMode::Immediate,
            origin: Origin::Signal,
            runner: R::from(listener),
        };
        builder.registrations.push(registration);
        assert(builder@.registrations.drop_last() =~= before.registrations);
        builder
    }

    /// Finalizes registration and returns a runnable [`Supervisor`].
    pub fn build(self) -> (supervisor: Supervisor<R>)
        ensures
            supervisor.wf(),
            supervisor@.registrations == self@.registrations,
            supervisor@.grace == self@.grace,
    {
        let mut modes: Vec<ReadinessMode> = Vec::new();
        let mut i: usize = 0;
        while i < self.registrations.len()
            invariant
                i <= self.registrations@.len(),
                modes@ =~= registration_modes(self.registrations@.take(i as int)),
            decreases self.registrations@.len() - i,
        {
            modes.push(self.registrations[i].readiness);
            proof {
                assert(self.registrations@.take(i + 1) =~= self.registrations@.take(
                    i as int,
                ).push(self.registrations@[i as int]));
            }
            i = i + 1;
        }
        assert(self.registrations@.take(i as int) =~= self.registrations@);
        let readiness = ReadinessInner::new(&modes);
        Supervisor {
            registrations: self.registrations,
            shutdown_timeout: self.shutdown_timeout,
            readiness,
        }
    }
}

impl<S, R> BuilderView<S, R> {
    /// `after` is this builder with `service` registered last: under its own name,
    /// with the resolved policy and readiness mode, and with a runner made from the
    /// service and the context projected from the root state.
    pub open spec fn registers<T>(
        self,
        service: T,
        policy: Option<ServicePolicy>,
        readiness: Option<ReadinessMode>,
        after: Self,
    ) -> bool where
        T: SupervisedService,
        T::Context: FromSupervisorState<S>,
        R: From<ServiceRunner<T>>,
     {
        let added = after.registrations.last();
        &&& after.state == self.state
        &&& after.grace == self.grace
        &&& after.restart == self.restart
        &&& after.registrations.len() == self.registrations.len() + 1
        &&& after.registrations.drop_last() == self.registrations
        &&& call_ensures(T::name, (&service,), added.name)
        &&& resolves_policy(policy, self.restart, added.policy)
        &&& match readiness {
            Some(mode) => added.readiness == mode,
            None => call_ensures(T::readiness, (&service,), added.readiness),
        }
        &&& added.origin == Origin::Service
        &&& exists|runner: ServiceRunner<T>|
            {
                &&& runner.inner() == service
                &&& call_ensures(
                    <T::Context as FromSupervisorState<S>>::from_state,
                    (&self.state,),
                    runner.payload(),
                )
                &&& #[trigger] call_ensures(R::from, (runner,), added.runner)
            }
    }
}

/// The readiness modes of the registrations.
pub open spec fn registration_modes<R>(registrations: Seq<Registration<R>>) -> Seq<ReadinessMode> {
    registrations.map_values(|registration: Registration<R>| registration.readiness)
}

/// The states of services that have not run yet.
pub open spec fn fresh_states<R>(registrations: Seq<Registration<R>>) -> Seq<ServiceState<R>> {
    registrations.map_values(|registration: Registration<R>| ServiceState::fresh(registration))
}

/// What a supervisor was built from.
pub struct SupervisorView<R> {
    pub registrations: Seq<Registration<R>>,
    pub grace: Duration,
    /// The channel that publishes the aggregate readiness.
    pub channel: int,
}

/// Supervisor that is ready to run.
pub struct Supervisor<R> {
    registrations: Vec<Registration<R>>,
    shutdown_timeout: Duration,
    readiness: ReadinessInner,
}

impl<R> View for Supervisor<R> {
    type V = SupervisorView<R>;

    closed spec fn view(&self) -> SupervisorView<R> {
        SupervisorView {
            registrations: self.registrations@,
            grace: self.shutdown_timeout,
            channel: self.readiness.channel(),
        }
    }
}

impl<R> Supervisor<R> {
    /// The readiness is that of the registered services, none of which has run.
    pub closed spec fn wf(&self) -> bool {
        &&& self.readiness.wf()
        &&& self.readiness.members() == initial_members(registration_modes(self.registrations@))
        &&& self.readiness.published() == aggregate(self.readiness.members())
    }

    /// `tracker` shares the readiness of this supervisor.
    pub closed spec fn shared_by(&self, tracker: SharedReadiness) -> bool {
        tracker.shares(self.readiness)
    }

    /// Subscribes to aggregate startup readiness.
    ///
    /// The receiver starts at [`SupervisorReadiness::Ready`] when no service is
    /// startup-gated, or [`SupervisorReadiness::Pending`] until every gated service
    /// crosses its startup gate. It listens to the run that this supervisor starts.
    pub fn readiness(&self) -> (receiver: watch::Receiver<SupervisorReadiness>)
        requires
            self.wf(),
        ensures
            heard(receiver) == self@.channel,
            first_seen(receiver) == if ungated(registration_modes(self@.registrations)) {
                SupervisorReadiness::Ready
            } else {
                SupervisorReadiness::Pending
            },
    {
        proof {
            lemma_initially_ready(registration_modes(self.registrations@));
        }
        self.readiness.subscribe()
    }

    /// Starts the run of all registered services.
    ///
    /// The services are started by the launches that
    /// [`Supervision::initial_launches`] lists.
    pub fn start(self) -> (started: Result<Supervision<R>, Error>)
        requires
            self.wf(),
        ensures
            match started {
                Ok(run) => {
                    &&& self@.registrations.len() > 0
                    &&& run.wf()
                    &&& run@.consistent()
                    &&& run@.tracker.channel() == self@.channel
                    &&& self.shared_by(run@.tracker)
                    &&& run@.uses == unused(self@.registrations.len())
                    &&& run@.states == fresh_states(self@.registrations)
                    &&& run@.running.is_empty()
                    &&& !cancelled(run@.root)
                    &&& run@.grace == self@.grace
                },
                Err(error) => {
                    &&& self@.registrations.len() == 0
                    &&& error == Error::NoServices
                },
            },
    {
        let Supervisor { registrations, shutdown_timeout, readiness } = self;
        if registrations.len() == 0 {
            return Err(Error::NoServices);
        }
        let ghost registered = registrations@;
        let mut states: Vec<ServiceState<R>> = Vec::new();
        for registration in entries: registrations
            invariant
                entries.seq() == registered,
                states@ =~= fresh_states(registered.take(entries.index() as int)),
        {
            states.push(ServiceState::new(registration));
        }
        let steward = Steward::new(readiness);
        proof {
            assert(registered.take(states@.len() as int) =~= registered);
            assert(member_modes(initial_members(registration_modes(registered))) =~= state_modes(
                states@,
            ));
        }
        Ok(Supervision::begin(states, steward, shutdown_timeout))
    }
}

} // verus!
