//! A service supervisor whose lifecycle decisions are verified.
//!
//! Services report a terminal outcome; the supervisor decides whether to ignore
//! it, restart the service or shut the system down. Every decision of that kind
//! is a function of this crate with a contract. Spawning tasks, sleeping and
//! waiting are left to the embedding program, which feeds the events it observes
//! to [`Supervision`] and [`Drain`] and performs the actions they return.

pub mod context;
pub mod drain;
pub mod error;
pub mod gate;
pub mod laws;
pub mod lifecycle;
pub mod policy;
pub mod readiness;
pub mod runtime;
pub mod service;
pub mod summary;
pub mod task;
pub mod text;
pub mod time;
pub mod token;
pub mod watch;

pub use context::{Context, FromSupervisorState};
pub use drain::{Drain, DrainAction};
pub use error::Error;
pub use lifecycle::{Launch, Next, Supervision};
pub use policy::{ErrorAction, ExitAction, FailureAction, RestartPolicy, ServicePolicy};
pub use readiness::{ReadinessMode, ReadySignal, SupervisorReadiness};
pub use runtime::{CtrlC, Options, ServiceRunner, Supervisor, SupervisorBuilder};
pub use service::{
    service_fn, until_cancelled, when_ready, BoxFuture, FnService, IntoServiceError,
    IntoServiceOutcome, ServiceError, ServiceExt, ServiceOutcome, SupervisedService,
    UntilCancelled, WhenReady,
};
pub use summary::{RunSummary, ServiceSummary, ShutdownCause};
pub use task::{read_joined, Joined, TaskResult};
