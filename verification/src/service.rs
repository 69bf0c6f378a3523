//! Supervised service vocabulary and adapters.
use std::convert::Infallible;
use std::fmt::Display;
use std::future::Future;
use std::marker::PhantomData;
use std::pin::Pin;
use std::sync::Arc;

use tokio_util::sync::CancellationToken;
use vstd::prelude::*;

use crate::context::Context;
use crate::readiness::ReadinessMode;
use crate::text::share;

verus! {

/// Heap-allocated future, the usual [`SupervisedService::Future`] of a service
/// written by hand.
pub type BoxFuture<T> = Pin<Box<dyn Future<Output = T> + Send + 'static>>;

/// Terminal outcome reported by a supervised task.
///
/// This enum describes what happened inside the service. The supervisor still
/// decides what the system should do next through
/// [`ServicePolicy`](crate::ServicePolicy), [`RestartPolicy`](crate::RestartPolicy),
/// and [`ExitAction`](crate::ExitAction).
#[derive(Debug, PartialEq, Eq)]
pub enum ServiceOutcome {
    /// The service finished normally.
    Completed,
    /// The service observed supervisor shutdown and exited cooperatively.
    Cancelled,
    /// The service is asking the supervisor to begin global shutdown.
    RequestedShutdown,
    /// The service ended with a typed failure payload.
    Error(ServiceError),
}

impl ServiceOutcome {
    /// Convenience constructor for [`ServiceOutcome::Completed`].
    pub fn completed() -> (outcome: Self)
        ensures
            outcome == ServiceOutcome::Completed,
    {
        ServiceOutcome::Completed
    }

    /// Convenience constructor for [`ServiceOutcome::Cancelled`].
    pub fn cancelled() -> (outcome: Self)
        ensures
            outcome == ServiceOutcome::Cancelled,
    {
        ServiceOutcome::Cancelled
    }

    /// Convenience constructor for [`ServiceOutcome::RequestedShutdown`].
    pub fn requested_shutdown() -> (outcome: Self)
        ensures
            outcome == ServiceOutcome::RequestedShutdown,
    {
        ServiceOutcome::RequestedShutdown
    }

    /// Convenience constructor for [`ServiceOutcome::Error`].
    pub fn failed<E: Into<ServiceError>>(error: E) -> (outcome: Self)
        ensures
            outcome is Error,
            call_ensures(E::into, (error,), outcome->Error_0),
    {
        ServiceOutcome::Error(error.into())
    }

    /// Returns whether the service finished normally.
    pub fn is_completed(&self) -> (completed: bool)
        ensures
            completed == (*self is Completed),
    {
        match self {
            ServiceOutcome::Completed => true,
            _ => false,
        }
    }
}

impl Clone for ServiceOutcome {
    fn clone(&self) -> (copy: Self)
        ensures
            copy == *self,
    {
        match self {
            ServiceOutcome::Completed => ServiceOutcome::Completed,
            ServiceOutcome::Cancelled => ServiceOutcome::Cancelled,
            ServiceOutcome::RequestedShutdown => ServiceOutcome::RequestedShutdown,
            ServiceOutcome::Error(error) => ServiceOutcome::Error(error.clone()),
        }
    }
}

/// Stable, displayable failure payload carried by [`ServiceOutcome::Error`].
#[derive(Debug, PartialEq, Eq)]
pub struct ServiceError {
    message: Arc<str>,
}

impl View for ServiceError {
    type V = Seq<char>;

    closed spec fn view(&self) -> Seq<char> {
        self.message@
    }
}

impl ServiceError {
    /// Builds a new service error from a message that should remain meaningful
    /// at supervisor boundaries and in summaries.
    pub fn new<M: Into<String>>(message: M) -> (error: Self)
        ensures
            exists|text: String| #[trigger]
                call_ensures(M::into, (message,), text) && error@ == text@,
    {
        let text: String = message.into();
        ServiceError { message: share(text) }
    }

    /// Converts an external error into a stable [`ServiceError`] that carries the
    /// text the error displays.
    pub fn from_error<E: Display>(error: E) -> (converted: Self)
        ensures
            exists|text: String| #[trigger]
                vstd::string::to_string_from_display_ensures::<E>(&error, text) && converted@
                    == text@,
    {
        let text = error.to_string();
        let ghost shown = text;
        let converted = ServiceError::new(text);
        assert(vstd::string::to_string_from_display_ensures::<E>(&error, shown));
        converted
    }

    /// Returns the message.
    pub fn message(&self) -> (text: &str)
        ensures
            text@ == self@,
    {
        &self.message
    }
}

impl Clone for ServiceError {
    fn clone(&self) -> (copy: Self)
        ensures
            copy == *self,
    {
        ServiceError { message: Arc::clone(&self.message) }
    }
}

impl vstd::std_specs::convert::FromSpecImpl<String> for ServiceError {
    open spec fn obeys_from_spec() -> bool {
        false
    }

    open spec fn from_spec(message: String) -> Self {
        arbitrary()
    }
}

impl From<String> for ServiceError {
    fn from(message: String) -> (error: Self)
        ensures
            error@ == message@,
    {
        ServiceError::new(message)
    }
}

impl<'a> vstd::std_specs::convert::FromSpecImpl<&'a str> for ServiceError {
    open spec fn obeys_from_spec() -> bool {
        false
    }

    open spec fn from_spec(message: &'a str) -> Self {
        arbitrary()
    }
}

impl<'a> From<&'a str> for ServiceError {
    fn from(message: &'a str) -> (error: Self)
        ensures
            error@ == message@,
    {
        ServiceError::new(message)
    }
}

/// Converts fallible service errors into [`ServiceError`].
///
/// This trait keeps [`service_fn`] ergonomic for module-local error enums while
/// preserving [`ServiceOutcome`] as the supervisor runtime boundary.
pub trait IntoServiceError {
    /// Converts `self` into the stable service error payload used in summaries.
    fn into_service_error(self) -> ServiceError;
}

impl IntoServiceError for ServiceError {
    fn into_service_error(self) -> (error: ServiceError)
        ensures
            error == self,
    {
        self
    }
}

impl<E> IntoServiceError for E where E: Display + Send + Sync + 'static {
    fn into_service_error(self) -> (error: ServiceError)
        ensures
            exists|text: String| #[trigger]
                vstd::string::to_string_from_display_ensures::<E>(&self, text) && error@ == text@,
    {
        ServiceError::from_error(self)
    }
}

/// Converts function-backed service return values into [`ServiceOutcome`].
///
/// Concrete [`SupervisedService`] implementations report [`ServiceOutcome`]
/// directly. This trait is used for [`service_fn`], so one-off functions can use
/// natural signatures like `Result<(), Error>` without widening the core service
/// trait.
pub trait IntoServiceOutcome {
    /// Converts `self` into the terminal outcome observed by the supervisor.
    fn into_service_outcome(self) -> ServiceOutcome;
}

impl IntoServiceOutcome for ServiceOutcome {
    fn into_service_outcome(self) -> (outcome: ServiceOutcome)
        ensures
            outcome == self,
    {
        self
    }
}

impl IntoServiceOutcome for () {
    fn into_service_outcome(self) -> (outcome: ServiceOutcome)
        ensures
            outcome == ServiceOutcome::Completed,
    {
        ServiceOutcome::Completed
    }
}

impl IntoServiceOutcome for Infallible {
    /// Never called: there is no value of this type.
    fn into_service_outcome(self) -> (outcome: ServiceOutcome)
        ensures
            outcome == ServiceOutcome::Completed,
    {
        ServiceOutcome::Completed
    }
}

impl<T, E> IntoServiceOutcome for Result<T, E> where T: IntoServiceOutcome, E: IntoServiceError {
    fn into_service_outcome(self) -> (outcome: ServiceOutcome)
        ensures
            match self {
                Ok(value) => call_ensures(T::into_service_outcome, (value,), outcome),
                Err(error) => {
                    &&& outcome is Error
                    &&& call_ensures(E::into_service_error, (error,), outcome->Error_0)
                },
            },
    {
        match self {
            Ok(value) => value.into_service_outcome(),
            Err(error) => ServiceOutcome::Error(error.into_service_error()),
        }
    }
}

/// Long-lived subsystem owned by the supervisor.
///
/// A [`SupervisedService`] gets a typed [`Context`] and produces a future that
/// reports a [`ServiceOutcome`]. It does not decide restart or shutdown policy
/// itself.
pub trait SupervisedService: Send + Sync + 'static {
    /// Typed payload injected alongside the supervisor cancellation token.
    type Context: Clone + Send + Sync + 'static;

    /// What the service runs as.
    type Future;

    /// The service can be run with this context. Unless a service says otherwise, it
    /// can be run with any.
    open spec fn accepts(&self, ctx: Context<Self::Context>) -> bool {
        true
    }

    /// Stable identifier used in summaries and shutdown causes.
    fn name(&self) -> &'static str;

    /// Startup readiness behavior for this service.
    ///
    /// Most services are ready immediately. Use [`when_ready`] to opt a service
    /// into explicit startup readiness.
    fn readiness(&self) -> (mode: ReadinessMode)
        default_ensures
            mode == ReadinessMode::Immediate,
    {
        ReadinessMode::Immediate
    }

    /// Starts the service. The future runs until it reaches a terminal
    /// [`ServiceOutcome`].
    fn run(&self, ctx: Context<Self::Context>) -> Self::Future
        requires
            self.accepts(ctx),
    ;
}

/// Fluent decorators available on every [`SupervisedService`].
pub trait ServiceExt: SupervisedService + Sized {
    /// Wraps this service with [`when_ready`].
    fn when_ready(self) -> (wrapped: WhenReady<Self>)
        default_ensures
            wrapped.inner() == self,
    {
        when_ready(self)
    }

    /// Wraps this service with [`until_cancelled`].
    fn until_cancelled(self) -> (wrapped: UntilCancelled<Self>)
        default_ensures
            wrapped.inner() == self,
    {
        until_cancelled(self)
    }
}

impl<S> ServiceExt for S where S: SupervisedService {

}

/// Function-backed [`SupervisedService`] returned by [`service_fn`].
///
/// `C` is inferred from the closure argument type, so call sites can describe
/// their required context without passing a separate context value.
pub struct FnService<C, F, Fut> {
    name: &'static str,
    run: F,
    marker: Ghost<PhantomData<(C, Fut)>>,
}

impl<C, F, Fut> FnService<C, F, Fut> {
    /// The name given to the service.
    pub closed spec fn label(&self) -> &'static str {
        self.name
    }

    /// The function that backs the service.
    pub closed spec fn function(&self) -> F {
        self.run
    }

    /// Returns the name given to the service.
    pub fn name(&self) -> (name: &'static str)
        ensures
            name == self.label(),
    {
        self.name
    }
}

impl<C, F: Clone, Fut> Clone for FnService<C, F, Fut> {
    fn clone(&self) -> (copy: Self)
        ensures
            copy.label() == self.label(),
            cloned(self.function(), copy.function()),
    {
        FnService { name: self.name, run: self.run.clone(), marker: Ghost(PhantomData) }
    }
}

/// What a function-backed service runs as: the future its function returned, whose
/// output is converted with [`IntoServiceOutcome`] once it is there.
pub struct FnFuture<Fut> {
    future: Fut,
}

impl<Fut> FnFuture<Fut> {
    /// The future the function returned.
    pub closed spec fn inner(&self) -> Fut {
        self.future
    }

    /// Returns the future the function returned.
    pub fn into_inner(self) -> (future: Fut)
        ensures
            future == self.inner(),
    {
        self.future
    }
}

/// Wraps a function that returns a future as a [`SupervisedService`].
///
/// The closure's [`Context`] parameter determines the extracted service context.
/// With a stateful builder, that usually means:
/// - `Context<AppState>` when the service wants the full root state
/// - `Context<Subset>` when `Subset: FromSupervisorState<AppState>`
pub fn service_fn<C, F, Fut, O>(name: &'static str, run: F) -> (service: FnService<C, F, Fut>) where
    C: Clone + Send + Sync + 'static,
    F: Fn(Context<C>) -> Fut + Send + Sync + 'static,
    Fut: Future<Output = O> + Send + 'static,
    O: IntoServiceOutcome + Send + 'static,

    ensures
        service.label() == name,
        service.function() == run,
{
    FnService { name, run, marker: Ghost(PhantomData) }
}

impl<C, F, Fut> SupervisedService for FnService<C, F, Fut> where
    C: Clone + Send + Sync + 'static,
    F: Fn(Context<C>) -> Fut + Send + Sync + 'static,
    Fut: Future + Send + 'static,
 {
    type Context = C;

    type Future = FnFuture<Fut>;

    open spec fn accepts(&self, ctx: Context<C>) -> bool {
        call_requires(self.function(), (ctx,))
    }

    fn name(&self) -> (name: &'static str)
        ensures
            name == self.label(),
    {
        self.name
    }

    fn run(&self, ctx: Context<C>) -> (future: FnFuture<Fut>)
        ensures
            call_ensures(self.function(), (ctx,), future.inner()),
    {
        let future = (self.run)(ctx);
        FnFuture { future }
    }
}

/// Wraps a service so supervisor startup readiness waits for it.
///
/// A startup-gated service becomes ready when it calls
/// [`ReadySignal::mark_ready`](crate::ReadySignal::mark_ready) or returns
/// [`ServiceOutcome::Completed`].
pub fn when_ready<S>(service: S) -> (wrapped: WhenReady<S>) where S: SupervisedService
    ensures
        wrapped.inner() == service,
{
    WhenReady { service: Arc::new(service) }
}

/// [`SupervisedService`] adapter returned by [`when_ready`].
pub struct WhenReady<S> where S: SupervisedService {
    service: Arc<S>,
}

impl<S> WhenReady<S> where S: SupervisedService {
    /// The wrapped service.
    pub closed spec fn inner(&self) -> S {
        *self.service
    }
}

impl<S> Clone for WhenReady<S> where S: SupervisedService {
    fn clone(&self) -> (copy: Self)
        ensures
            copy == *self,
    {
        WhenReady { service: Arc::clone(&self.service) }
    }
}

impl<S> SupervisedService for WhenReady<S> where S: SupervisedService {
    type Context = S::Context;

    type Future = S::Future;

    open spec fn accepts(&self, ctx: Context<S::Context>) -> bool {
        self.inner().accepts(ctx)
    }

    fn name(&self) -> (name: &'static str)
        ensures
            call_ensures(S::name, (&self.inner(),), name),
    {
        self.service.name()
    }

    fn readiness(&self) -> (mode: ReadinessMode)
        ensures
            mode == ReadinessMode::Explicit,
    {
        ReadinessMode::Explicit
    }

    fn run(&self, ctx: Context<S::Context>) -> (future: S::Future)
        ensures
            call_ensures(S::run, (&self.inner(), ctx), future),
    {
        self.service.run(ctx)
    }
}

/// Wraps a service so the supervisor cancellation token wins the outer race.
///
/// This is the convenient default for long-lived loops that should stop as soon as
/// the supervisor begins shutdown.
pub fn until_cancelled<S>(service: S) -> (wrapped: UntilCancelled<S>) where S: SupervisedService
    ensures
        wrapped.inner() == service,
{
    UntilCancelled { service: Arc::new(service) }
}

/// [`SupervisedService`] adapter returned by [`until_cancelled`].
pub struct UntilCancelled<S> where S: SupervisedService {
    service: Arc<S>,
}

impl<S> UntilCancelled<S> where S: SupervisedService {
    /// The wrapped service.
    pub closed spec fn inner(&self) -> S {
        *self.service
    }
}

impl<S> Clone for UntilCancelled<S> where S: SupervisedService {
    fn clone(&self) -> (copy: Self)
        ensures
            copy == *self,
    {
        UntilCancelled { service: Arc::clone(&self.service) }
    }
}

/// What an [`UntilCancelled`] service runs as: a race between the wrapped service
/// and the token. The winner is reported by [`race_outcome`].
pub struct UntilCancelledFuture<Fut> {
    token: CancellationToken,
    future: Fut,
}

impl<Fut> UntilCancelledFuture<Fut> {
    /// The token that ends the race.
    pub closed spec fn race_token(&self) -> CancellationToken {
        self.token
    }

    /// The wrapped service's future.
    pub closed spec fn inner(&self) -> Fut {
        self.future
    }

    /// Returns the contestants: the token that ends the race, and the wrapped
    /// service's future.
    pub fn into_parts(self) -> (parts: (CancellationToken, Fut))
        ensures
            parts == (self.race_token(), self.inner()),
    {
        (self.token, self.future)
    }
}

/// The outcome of a race between a service and the cancellation token: what the
/// service reported, or a cancellation if the token won.
pub fn race_outcome(finished: Option<ServiceOutcome>) -> (outcome: ServiceOutcome)
    ensures
        outcome == match finished {
            Some(reported) => reported,
            None => ServiceOutcome::Cancelled,
        },
{
    match finished {
        Some(reported) => reported,
        None => ServiceOutcome::Cancelled,
    }
}

impl<S> SupervisedService for UntilCancelled<S> where S: SupervisedService {
    type Context = S::Context;

    type Future = UntilCancelledFuture<S::Future>;

    open spec fn accepts(&self, ctx: Context<S::Context>) -> bool {
        self.inner().accepts(ctx)
    }

    fn name(&self) -> (name: &'static str)
        ensures
            call_ensures(S::name, (&self.inner(),), name),
    {
        self.service.name()
    }

    fn readiness(&self) -> (mode: ReadinessMode)
        ensures
            call_ensures(S::readiness, (&self.inner(),), mode),
    {
        self.service.readiness()
    }

    fn run(&self, ctx: Context<S::Context>) -> (future: UntilCancelledFuture<S::Future>)
        ensures
            future.race_token() == ctx.root(),
            call_ensures(S::run, (&self.inner(), ctx), future.inner()),
    {
        let token = ctx.token().clone();
        let future = self.service.run(ctx);
        UntilCancelledFuture { token, future }
    }
}

} // verus!
