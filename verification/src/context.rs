//! Runtime context of one service execution.
use tokio_util::sync::CancellationToken;
use vstd::prelude::*;

use crate::readiness::ReadySignal;

verus! {

/// Extracts a service-local context from the supervisor's root state.
///
/// The builder owns one root state value, while each service asks for either the
/// full state or a typed subset of it.
pub trait FromSupervisorState<S>: Sized {
    /// Projects `Self` out of the root supervisor state.
    fn from_state(state: &S) -> Self;
}

impl<S> FromSupervisorState<S> for S where S: Clone {
    fn from_state(state: &S) -> (projected: S)
        ensures
            cloned(*state, projected),
    {
        state.clone()
    }
}

/// Supervisor-owned runtime context for one service execution.
///
/// Every supervised task receives:
/// - a [`CancellationToken`] controlled by the supervisor
/// - a [`ReadySignal`] to declare startup readiness with
/// - a typed service-local payload `C`
///
/// The token makes shutdown cooperative and explicit, while the payload keeps
/// service dependencies local instead of forcing a monolithic app context.
pub struct Context<C> {
    token: CancellationToken,
    readiness: ReadySignal,
    ctx: C,
}

impl<C> Context<C> {
    /// The supervisor's token.
    pub closed spec fn root(&self) -> CancellationToken {
        self.token
    }

    /// The readiness handle.
    pub closed spec fn signal(&self) -> ReadySignal {
        self.readiness
    }

    /// The service-local payload.
    pub closed spec fn payload(&self) -> C {
        self.ctx
    }

    /// Creates a context for a service without a startup gate.
    pub fn new(token: CancellationToken, ctx: C) -> (context: Self)
        ensures
            context.root() == token,
            context.signal().gate() is None,
            context.payload() == ctx,
    {
        Context { token, readiness: ReadySignal::immediate(), ctx }
    }

    /// Creates a context with the given readiness handle.
    pub(crate) fn with_readiness(token: CancellationToken, readiness: ReadySignal, ctx: C) -> (context:
        Self)
        ensures
            context.root() == token,
            context.signal() == readiness,
            context.payload() == ctx,
    {
        Context { token, readiness, ctx }
    }

    /// Returns the supervisor's token.
    pub fn token(&self) -> (token: &CancellationToken)
        ensures
            *token == self.root(),
    {
        &self.token
    }

    /// Returns the readiness handle.
    pub fn readiness(&self) -> (readiness: &ReadySignal)
        ensures
            *readiness == self.signal(),
    {
        &self.readiness
    }

    /// Returns the service-local payload.
    pub fn ctx(&self) -> (ctx: &C)
        ensures
            *ctx == self.payload(),
    {
        &self.ctx
    }

    /// Unwraps the service-local payload.
    pub fn into_inner(self) -> (ctx: C)
        ensures
            ctx == self.payload(),
    {
        self.ctx
    }

    /// Replaces the payload by what `map` makes of it.
    pub fn map<D, M: FnOnce(C) -> D>(self, map: M) -> (mapped: Context<D>)
        requires
            call_requires(map, (self.payload(),)),
        ensures
            mapped.root() == self.root(),
            mapped.signal() == self.signal(),
            call_ensures(map, (self.payload(),), mapped.payload()),
    {
        Context { token: self.token, readiness: self.readiness, ctx: map(self.ctx) }
    }
}

impl<C: Clone> Clone for Context<C> {
    fn clone(&self) -> (copy: Self)
        ensures
            copy.root() == self.root(),
            copy.signal() == self.signal(),
            cloned(self.payload(), copy.payload()),
    {
        Context {
            token: self.token.clone(),
            readiness: self.readiness.clone(),
            ctx: self.ctx.clone(),
        }
    }
}

} // verus!
