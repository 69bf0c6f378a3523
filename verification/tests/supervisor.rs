use std::{
    future::Future,
    sync::{
        atomic::{AtomicUsize, Ordering},
        Arc,
    },
    time::{Duration, Instant},
};

use supervised::{
    read_joined,
    runtime::{after_delay, begin_launch, RunnerAction},
    service::{race_outcome, FnFuture, UntilCancelledFuture},
    service_fn, BoxFuture, Context, CtrlC, DrainAction, Error, ErrorAction, ExitAction,
    FromSupervisorState, IntoServiceOutcome, Launch, Next, Options, ReadinessMode, RestartPolicy,
    RunSummary, ServiceError, ServiceExt, ServiceOutcome, ServicePolicy, ServiceRunner,
    ShutdownCause, SupervisedService, Supervision, Supervisor, SupervisorBuilder,
    SupervisorReadiness, TaskResult,
};
use tokio::{
    runtime::Builder,
    task::{yield_now, JoinSet},
    time::{sleep, timeout},
};
use tokio_util::sync::CancellationToken;

/// Turns what a service runs as into a future of its outcome.
trait OutcomeFuture {
    fn boxed(self) -> BoxFuture<ServiceOutcome>;
}

impl OutcomeFuture for BoxFuture<ServiceOutcome> {
    fn boxed(self) -> BoxFuture<ServiceOutcome> {
        self
    }
}

impl<Fut> OutcomeFuture for FnFuture<Fut>
where
    Fut: Future + Send + 'static,
    Fut::Output: IntoServiceOutcome,
{
    fn boxed(self) -> BoxFuture<ServiceOutcome> {
        let future = self.into_inner();
        Box::pin(async move { future.await.into_service_outcome() })
    }
}

impl<Fut> OutcomeFuture for UntilCancelledFuture<Fut>
where
    Fut: OutcomeFuture,
{
    fn boxed(self) -> BoxFuture<ServiceOutcome> {
        let (token, future) = self.into_parts();
        let future = future.boxed();
        Box::pin(async move { race_outcome(token.run_until_cancelled_owned(future).await) })
    }
}

trait Runner: Send + Sync {
    fn run(self: Arc<Self>, launch: Launch) -> BoxFuture<ServiceOutcome>;
}

impl<S> Runner for ServiceRunner<S>
where
    S: SupervisedService,
    S::Future: OutcomeFuture,
{
    fn run(self: Arc<Self>, launch: Launch) -> BoxFuture<ServiceOutcome> {
        Box::pin(async move {
            let token = launch.token;
            let mut action = begin_launch(launch.restart_delay);
            if let RunnerAction::Sleep { delay } = action {
                action = after_delay(token.clone().run_until_cancelled_owned(sleep(delay)).await);
            }
            match action {
                RunnerAction::Report(outcome) => outcome,
                _ => self.start(token, launch.readiness).boxed().await,
            }
        })
    }
}

/// A Ctrl+C listener that hears the signal at once.
struct Pressed(CtrlC);

impl Runner for Pressed {
    fn run(self: Arc<Self>, _launch: Launch) -> BoxFuture<ServiceOutcome> {
        Box::pin(async move { self.0.outcome(Ok(())) })
    }
}

struct TaskRunner(Arc<dyn Runner>);

impl<S> From<ServiceRunner<S>> for TaskRunner
where
    S: SupervisedService,
    S::Future: OutcomeFuture,
{
    fn from(runner: ServiceRunner<S>) -> Self {
        TaskRunner(Arc::new(runner))
    }
}

impl From<CtrlC> for TaskRunner {
    fn from(listener: CtrlC) -> Self {
        TaskRunner(Arc::new(Pressed(listener)))
    }
}

fn builder<S>(state: S) -> SupervisorBuilder<S, TaskRunner> {
    SupervisorBuilder::new(state)
}

fn block_on<F: Future>(future: F) -> F::Output {
    Builder::new_current_thread()
        .enable_time()
        .build()
        .expect("runtime")
        .block_on(future)
}

fn spawn(
    tasks: &mut JoinSet<TaskResult>,
    supervision: &mut Supervision<TaskRunner>,
    launch: Launch,
) {
    let index = launch.index;
    let runner = Arc::clone(&supervision.runner(index).expect("known service").0);
    let future = runner.run(launch);
    let handle = tasks.spawn(async move { TaskResult::new(index, future.await) });
    supervision.note_spawned(handle.id(), index);
}

async fn drive(supervisor: Supervisor<TaskRunner>) -> Result<RunSummary, Error> {
    let mut supervision = supervisor.start()?;
    let mut tasks = JoinSet::new();
    for launch in supervision.initial_launches() {
        spawn(&mut tasks, &mut supervision, launch);
    }

    let mut drain = loop {
        let Some(joined) = tasks.join_next_with_id().await else {
            return Ok(supervision.complete());
        };
        let joined = read_joined(joined);
        assert!(supervision.can_count(&joined));
        match supervision.on_joined(joined)? {
            Next::Running(next) => supervision = next,
            Next::Restarting(next, launch) => {
                supervision = next;
                spawn(&mut tasks, &mut supervision, launch);
            },
            Next::Draining(drain) => break drain,
        }
    };

    let started = Instant::now();
    loop {
        match drain.next(tasks.is_empty(), started.elapsed()) {
            DrainAction::Collect => break,
            DrainAction::AbortAll => {
                tasks.abort_all();
                break;
            },
            DrainAction::Wait { remaining } => {
                match timeout(remaining, tasks.join_next_with_id()).await {
                    Ok(Some(joined)) => drain.on_joined(read_joined(joined))?,
                    Ok(None) => break,
                    Err(_) => {
                        drain.on_timeout();
                        tasks.abort_all();
                        break;
                    },
                }
            },
        }
    }
    while let Some(joined) = tasks.join_next_with_id().await {
        drain.on_joined(read_joined(joined))?;
    }
    Ok(drain.finish())
}

/// Runs a supervisor to its end.
trait Run {
    fn run(self) -> BoxFuture<Result<RunSummary, Error>>;
}

impl Run for Supervisor<TaskRunner> {
    fn run(self) -> BoxFuture<Result<RunSummary, Error>> {
        Box::pin(drive(self))
    }
}

struct ManualService;

impl SupervisedService for ManualService {
    type Context = String;
    type Future = BoxFuture<ServiceOutcome>;

    fn name(&self) -> &'static str {
        "manual"
    }

    fn run(&self, ctx: Context<Self::Context>) -> BoxFuture<ServiceOutcome> {
        Box::pin(async move {
            if ctx.ctx() == "Hyprbaric" {
                ServiceOutcome::completed()
            } else {
                ServiceOutcome::failed("unexpected manual service context")
            }
        })
    }
}

struct ManualReadyService;

impl SupervisedService for ManualReadyService {
    type Context = String;
    type Future = BoxFuture<ServiceOutcome>;

    fn name(&self) -> &'static str {
        "manual-ready"
    }

    fn run(&self, ctx: Context<Self::Context>) -> BoxFuture<ServiceOutcome> {
        Box::pin(async move {
            if ctx.ctx() == "Hyprbaric" {
                ctx.readiness().mark_ready();
                ServiceOutcome::completed()
            } else {
                ServiceOutcome::failed("unexpected manual service context")
            }
        })
    }
}

#[test]
fn completes_without_shutdown_request() {
    block_on(async {
        let summary = builder(())
            .add(service_fn("complete", |_ctx: Context<()>| async move {
                ServiceOutcome::completed()
            }))
            .build()
            .run()
            .await
            .expect("supervisor should run");

        assert_eq!(summary.shutdown_cause(), &ShutdownCause::Completed);
        assert_eq!(summary.readiness(), SupervisorReadiness::Ready);
        assert_eq!(
            summary
                .service("complete")
                .expect("service summary")
                .outcome(),
            &ServiceOutcome::Completed
        );
    })
}

#[test]
fn requested_shutdown_cancels_other_services() {
    block_on(async {
        let summary = builder(())
            .add(service_fn("watcher", |ctx: Context<()>| async move {
                ctx.token().cancelled().await;
                ServiceOutcome::cancelled()
            }))
            .add(service_fn("shutdown", |_ctx: Context<()>| async move {
                ServiceOutcome::requested_shutdown()
            }))
            .build()
            .run()
            .await
            .expect("supervisor should run");

        assert_eq!(
            summary.shutdown_cause(),
            &ShutdownCause::ServiceRequested {
                service: "shutdown"
            }
        );
        assert_eq!(
            summary
                .service("watcher")
                .expect("watcher summary")
                .outcome(),
            &ServiceOutcome::Cancelled
        );
    })
}

#[test]
fn restart_policy_retries_until_service_completes() {
    block_on(async {
        let attempts = Arc::new(AtomicUsize::new(0));
        let service_attempts = Arc::clone(&attempts);

        let summary = builder(())
            .add_with_options(
                service_fn("flaky", move |_ctx: Context<()>| {
                    let attempts = Arc::clone(&service_attempts);
                    async move {
                        let attempt = attempts.fetch_add(1, Ordering::SeqCst);
                        if attempt < 2 {
                            ServiceOutcome::failed(format!("attempt {attempt} failed"))
                        } else {
                            ServiceOutcome::completed()
                        }
                    }
                }),
                Options::new().policy(ServicePolicy::new(
                    ExitAction::Ignore,
                    RestartPolicy::attempts(3, Duration::from_millis(1), ErrorAction::Shutdown),
                )),
            )
            .build()
            .run()
            .await
            .expect("supervisor should run");

        assert_eq!(summary.shutdown_cause(), &ShutdownCause::Completed);
        let flaky = summary.service("flaky").expect("flaky summary");
        assert_eq!(flaky.outcome(), &ServiceOutcome::Completed);
        assert_eq!(flaky.restarts(), 2);
        assert_eq!(attempts.load(Ordering::SeqCst), 3);
    })
}

#[test]
fn exhausted_restart_policy_triggers_shutdown() {
    block_on(async {
        let summary = builder(())
            .add(service_fn("observer", |ctx: Context<()>| async move {
                ctx.token().cancelled().await;
                ServiceOutcome::cancelled()
            }))
            .add_with_options(
                service_fn("fatal", |_ctx: Context<()>| async move {
                    ServiceOutcome::failed("boom")
                }),
                Options::new().policy(ServicePolicy::new(
                    ExitAction::Ignore,
                    RestartPolicy::attempts(1, Duration::from_millis(1), ErrorAction::Shutdown),
                )),
            )
            .build()
            .run()
            .await
            .expect("supervisor should run");

        assert_eq!(
            summary.shutdown_cause(),
            &ShutdownCause::FatalService { service: "fatal" }
        );
        assert_eq!(
            summary.service("fatal").expect("fatal summary").restarts(),
            1
        );
        assert_eq!(
            summary
                .service("observer")
                .expect("observer summary")
                .outcome(),
            &ServiceOutcome::Cancelled
        );
    })
}

#[test]
fn shutdown_timeout_aborts_lingering_tasks() {
    block_on(async {
        let summary = builder(())
            .shutdown_timeout(Duration::from_millis(10))
            .add(service_fn("shutdown", |_ctx: Context<()>| async move {
                ServiceOutcome::requested_shutdown()
            }))
            .add(service_fn("linger", |_ctx: Context<()>| async move {
                sleep(Duration::from_secs(60)).await;
                ServiceOutcome::completed()
            }))
            .build()
            .run()
            .await
            .expect("supervisor should run");

        assert_eq!(
            summary.shutdown_cause(),
            &ShutdownCause::ServiceRequested {
                service: "shutdown"
            }
        );
        assert_eq!(
            summary.service("linger").expect("linger summary").outcome(),
            &ServiceOutcome::Cancelled
        );
    })
}

#[test]
fn service_fn_receives_typed_context() {
    block_on(async {
        let summary = builder(String::from("Hyprbaric"))
            .add(service_fn("typed", |ctx: Context<String>| async move {
                if ctx.ctx() == "Hyprbaric" {
                    ServiceOutcome::completed()
                } else {
                    ServiceOutcome::failed("unexpected context")
                }
            }))
            .build()
            .run()
            .await
            .expect("supervisor should run");

        assert_eq!(
            summary.service("typed").expect("typed summary").outcome(),
            &ServiceOutcome::Completed
        );
    })
}

#[test]
fn never_policy_never_restarts() {
    let policy = RestartPolicy::never(ErrorAction::Shutdown);

    assert_eq!(policy.backoff(), None);
    assert_eq!(policy.max_restarts(), None);
    assert_eq!(policy.on_error(), Some(ErrorAction::Shutdown));
}

#[derive(Clone)]
struct AppState {
    label: String,
}

#[derive(Clone)]
struct LabelContext {
    label: String,
}

impl FromSupervisorState<AppState> for LabelContext {
    fn from_state(state: &AppState) -> Self {
        Self {
            label: state.label.clone(),
        }
    }
}

#[test]
fn builder_extracts_service_context_from_root_state() {
    block_on(async {
        let summary = builder(AppState {
            label: String::from("Hyprbaric"),
        })
        .add(service_fn(
            "subset",
            |ctx: Context<LabelContext>| async move {
                if ctx.ctx().label == "Hyprbaric" {
                    ServiceOutcome::completed()
                } else {
                    ServiceOutcome::failed("unexpected label")
                }
            },
        ))
        .build()
        .run()
        .await
        .expect("supervisor should run");

        assert_eq!(
            summary.service("subset").expect("subset summary").outcome(),
            &ServiceOutcome::Completed
        );
    })
}

#[test]
fn until_cancelled_wraps_long_lived_functions() {
    block_on(async {
        let summary = builder(())
            .add(
                service_fn("loop", |_ctx: Context<()>| async move {
                    loop {
                        sleep(Duration::from_secs(60)).await;
                    }
                    #[allow(unreachable_code)]
                    ServiceOutcome::completed()
                })
                .until_cancelled(),
            )
            .add(service_fn("shutdown", |_ctx: Context<()>| async move {
                ServiceOutcome::requested_shutdown()
            }))
            .build()
            .run()
            .await
            .expect("supervisor should run");

        assert_eq!(
            summary.service("loop").expect("loop summary").outcome(),
            &ServiceOutcome::Cancelled
        );
    })
}

#[test]
fn manual_service_registration_path_works() {
    block_on(async {
        let summary = builder(String::from("Hyprbaric"))
            .add(ManualService)
            .build()
            .run()
            .await
            .expect("supervisor should run");

        assert_eq!(summary.shutdown_cause(), &ShutdownCause::Completed);
        assert_eq!(
            summary.service("manual").expect("manual summary").outcome(),
            &ServiceOutcome::Completed
        );
    })
}

#[test]
fn explicit_readiness_starts_pending_and_becomes_ready() {
    block_on(async {
        let supervisor = builder(())
            .add(
                service_fn("gate", |ctx: Context<()>| async move {
                    ctx.readiness().mark_ready();
                    ServiceOutcome::requested_shutdown()
                })
                .when_ready(),
            )
            .build();
        let readiness = supervisor.readiness();

        assert_eq!(*readiness.borrow(), SupervisorReadiness::Pending);

        let summary = supervisor.run().await.expect("supervisor should run");

        assert_eq!(
            summary.shutdown_cause(),
            &ShutdownCause::ServiceRequested { service: "gate" }
        );
        assert_eq!(summary.readiness(), SupervisorReadiness::Ready);
        assert_eq!(*readiness.borrow(), SupervisorReadiness::Ready);
    })
}

#[test]
fn startup_gated_error_before_ready_triggers_shutdown() {
    block_on(async {
        let summary = builder(())
            .add(service_fn("observer", |ctx: Context<()>| async move {
                ctx.token().cancelled().await;
                ServiceOutcome::cancelled()
            }))
            .add(
                service_fn("gate", |_ctx: Context<()>| async move {
                    ServiceOutcome::failed("startup failed")
                })
                .when_ready(),
            )
            .build()
            .run()
            .await
            .expect("supervisor should run");

        assert_eq!(
            summary.shutdown_cause(),
            &ShutdownCause::ReadinessFailed { service: "gate" }
        );
        assert_eq!(summary.readiness(), SupervisorReadiness::Pending);
        assert_eq!(
            summary
                .service("observer")
                .expect("observer summary")
                .outcome(),
            &ServiceOutcome::Cancelled
        );
    })
}

#[test]
fn startup_gated_requested_shutdown_before_ready_triggers_readiness_failure() {
    block_on(async {
        let summary = builder(())
            .add(
                service_fn("gate", |_ctx: Context<()>| async move {
                    ServiceOutcome::requested_shutdown()
                })
                .when_ready(),
            )
            .build()
            .run()
            .await
            .expect("supervisor should run");

        assert_eq!(
            summary.shutdown_cause(),
            &ShutdownCause::ReadinessFailed { service: "gate" }
        );
        assert_eq!(summary.readiness(), SupervisorReadiness::Pending);
    })
}

#[test]
fn startup_gated_cancelled_before_ready_triggers_readiness_failure() {
    block_on(async {
        let summary = builder(())
            .add(
                service_fn("gate", |_ctx: Context<()>| async move {
                    ServiceOutcome::cancelled()
                })
                .when_ready(),
            )
            .build()
            .run()
            .await
            .expect("supervisor should run");

        assert_eq!(
            summary.shutdown_cause(),
            &ShutdownCause::ReadinessFailed { service: "gate" }
        );
        assert_eq!(summary.readiness(), SupervisorReadiness::Pending);
    })
}

#[test]
fn startup_gated_completion_counts_as_ready() {
    block_on(async {
        let summary = builder(())
            .add(
                service_fn("gate", |_ctx: Context<()>| async move {
                    ServiceOutcome::completed()
                })
                .when_ready(),
            )
            .build()
            .run()
            .await
            .expect("supervisor should run");

        assert_eq!(summary.shutdown_cause(), &ShutdownCause::Completed);
        assert_eq!(summary.readiness(), SupervisorReadiness::Ready);
        assert_eq!(
            summary.service("gate").expect("gate summary").outcome(),
            &ServiceOutcome::Completed
        );
    })
}

#[test]
fn readiness_waits_for_every_startup_gate() {
    block_on(async {
        let supervisor = builder(())
            .add(
                service_fn("first", |ctx: Context<()>| async move {
                    ctx.readiness().mark_ready();
                    ctx.token().cancelled().await;
                    ServiceOutcome::cancelled()
                })
                .when_ready(),
            )
            .add(
                service_fn("second", |ctx: Context<()>| async move {
                    yield_now().await;
                    ctx.readiness().mark_ready();
                    ServiceOutcome::requested_shutdown()
                })
                .when_ready(),
            )
            .build();
        let mut readiness = supervisor.readiness();

        assert_eq!(*readiness.borrow(), SupervisorReadiness::Pending);

        let handle = tokio::spawn(supervisor.run());
        assert!(timeout(Duration::from_millis(50), readiness.changed())
            .await
            .expect("readiness should change")
            .is_ok());

        assert_eq!(*readiness.borrow(), SupervisorReadiness::Ready);

        let summary = handle
            .await
            .expect("supervisor task should join")
            .expect("supervisor should run");

        assert_eq!(
            summary.shutdown_cause(),
            &ShutdownCause::ServiceRequested { service: "second" }
        );
        assert_eq!(summary.readiness(), SupervisorReadiness::Ready);
    })
}

#[test]
fn mark_ready_is_idempotent() {
    block_on(async {
        let summary = builder(())
            .add(
                service_fn("gate", |ctx: Context<()>| async move {
                    ctx.readiness().mark_ready();
                    ctx.readiness().mark_ready();
                    ServiceOutcome::requested_shutdown()
                })
                .when_ready(),
            )
            .build()
            .run()
            .await
            .expect("supervisor should run");

        assert_eq!(summary.readiness(), SupervisorReadiness::Ready);
        assert_eq!(
            summary.shutdown_cause(),
            &ShutdownCause::ServiceRequested { service: "gate" }
        );
    })
}

#[test]
fn readiness_failure_ignores_restart_policy() {
    block_on(async {
        let attempts = Arc::new(AtomicUsize::new(0));
        let service_attempts = Arc::clone(&attempts);

        let summary = builder(())
            .add_with_options(
                service_fn("gate", move |_ctx: Context<()>| {
                    let attempts = Arc::clone(&service_attempts);
                    async move {
                        attempts.fetch_add(1, Ordering::SeqCst);
                        ServiceOutcome::failed("startup failed")
                    }
                })
                .when_ready(),
                Options::new().policy(ServicePolicy::new(
                    ExitAction::Ignore,
                    RestartPolicy::always(Duration::from_millis(1)),
                )),
            )
            .build()
            .run()
            .await
            .expect("supervisor should run");

        assert_eq!(
            summary.shutdown_cause(),
            &ShutdownCause::ReadinessFailed { service: "gate" }
        );
        assert_eq!(summary.service("gate").expect("gate summary").restarts(), 0);
        assert_eq!(attempts.load(Ordering::SeqCst), 1);
    })
}

#[test]
fn explicit_policy_registration_can_be_startup_gated() {
    block_on(async {
        let summary = builder(())
            .add_with_options(
                service_fn("loop", |ctx: Context<()>| async move {
                    ctx.readiness().mark_ready();
                    ctx.token().cancelled().await;
                    ServiceOutcome::cancelled()
                })
                .when_ready()
                .until_cancelled(),
                Options::new().policy(ServicePolicy::new(
                    ExitAction::Ignore,
                    RestartPolicy::never(ErrorAction::Ignore),
                )),
            )
            .add(service_fn("shutdown", |_ctx: Context<()>| async move {
                ServiceOutcome::requested_shutdown()
            }))
            .build()
            .run()
            .await
            .expect("supervisor should run");

        assert_eq!(summary.readiness(), SupervisorReadiness::Ready);
        assert_eq!(
            summary.service("loop").expect("loop summary").outcome(),
            &ServiceOutcome::Cancelled
        );
    })
}

#[test]
fn readiness_stays_ready_after_ready_service_restarts() {
    block_on(async {
        let attempts = Arc::new(AtomicUsize::new(0));
        let service_attempts = Arc::clone(&attempts);

        let summary = builder(())
            .add_with_options(
                service_fn("flaky", move |ctx: Context<()>| {
                    let attempts = Arc::clone(&service_attempts);
                    async move {
                        ctx.readiness().mark_ready();
                        let attempt = attempts.fetch_add(1, Ordering::SeqCst);
                        if attempt == 0 {
                            ServiceOutcome::failed("after-ready failure")
                        } else {
                            ServiceOutcome::completed()
                        }
                    }
                })
                .when_ready(),
                Options::new().policy(ServicePolicy::new(
                    ExitAction::Ignore,
                    RestartPolicy::attempts(1, Duration::from_millis(1), ErrorAction::Shutdown),
                )),
            )
            .build()
            .run()
            .await
            .expect("supervisor should run");

        assert_eq!(summary.shutdown_cause(), &ShutdownCause::Completed);
        assert_eq!(summary.readiness(), SupervisorReadiness::Ready);
        assert_eq!(
            summary.service("flaky").expect("flaky summary").restarts(),
            1
        );
    })
}

#[test]
fn until_cancelled_service_can_be_startup_gated() {
    block_on(async {
        let summary = builder(())
            .add(
                service_fn("loop", |ctx: Context<()>| async move {
                    ctx.readiness().mark_ready();
                    loop {
                        sleep(Duration::from_secs(60)).await;
                    }
                    #[allow(unreachable_code)]
                    ServiceOutcome::completed()
                })
                .when_ready()
                .until_cancelled(),
            )
            .add(service_fn("shutdown", |_ctx: Context<()>| async move {
                ServiceOutcome::requested_shutdown()
            }))
            .build()
            .run()
            .await
            .expect("supervisor should run");

        assert_eq!(summary.readiness(), SupervisorReadiness::Ready);
        assert_eq!(
            summary.service("loop").expect("loop summary").outcome(),
            &ServiceOutcome::Cancelled
        );
    })
}

#[test]
fn manual_service_can_use_readiness_signal() {
    block_on(async {
        let summary = builder(String::from("Hyprbaric"))
            .add(ManualReadyService.when_ready())
            .build()
            .run()
            .await
            .expect("supervisor should run");

        assert_eq!(summary.shutdown_cause(), &ShutdownCause::Completed);
        assert_eq!(summary.readiness(), SupervisorReadiness::Ready);
        assert_eq!(
            summary
                .service("manual-ready")
                .expect("manual ready summary")
                .outcome(),
            &ServiceOutcome::Completed
        );
    })
}

#[test]
fn options_can_override_service_readiness() {
    block_on(async {
        let summary = builder(())
            .add_with_options(
                service_fn("gate", |_ctx: Context<()>| async move {
                    ServiceOutcome::requested_shutdown()
                }),
                Options::new().readiness(ReadinessMode::Explicit),
            )
            .build()
            .run()
            .await
            .expect("supervisor should run");

        assert_eq!(
            summary.shutdown_cause(),
            &ShutdownCause::ReadinessFailed { service: "gate" }
        );
        assert_eq!(summary.readiness(), SupervisorReadiness::Pending);
    })
}

#[test]
fn running_without_services_is_an_error() {
    block_on(async {
        let error = builder(()).build().run().await.expect_err("nothing to run");
        assert_eq!(error, Error::NoServices);
        assert_eq!(
            error.message(),
            "cannot run a supervisor without any registered services"
        );
    })
}

#[test]
fn ctrl_c_shuts_down_with_the_signal_cause() {
    block_on(async {
        let summary = builder(())
            .shutdown_on_ctrl_c()
            .add(service_fn("watcher", |ctx: Context<()>| async move {
                ctx.token().cancelled().await;
                ServiceOutcome::cancelled()
            }))
            .build()
            .run()
            .await
            .expect("supervisor should run");

        assert_eq!(summary.shutdown_cause(), &ShutdownCause::Signal);
        assert_eq!(summary.readiness(), SupervisorReadiness::Ready);
        assert_eq!(
            summary.service("ctrl-c").expect("listener summary").outcome(),
            &ServiceOutcome::RequestedShutdown
        );
        assert_eq!(
            summary.service("watcher").expect("watcher summary").outcome(),
            &ServiceOutcome::Cancelled
        );
    })
}

#[test]
fn ctrl_c_listener_that_fails_reports_the_reason() {
    assert_eq!(
        CtrlC.outcome(Err(String::from("no handler"))),
        ServiceOutcome::Error(ServiceError::new("no handler"))
    );
    assert_eq!(CtrlC.name(), "ctrl-c");
}

#[test]
fn completion_can_shut_the_system_down() {
    block_on(async {
        let summary = builder(())
            .add(service_fn("watcher", |ctx: Context<()>| async move {
                ctx.token().cancelled().await;
                ServiceOutcome::cancelled()
            }))
            .add_with_options(
                service_fn("main", |_ctx: Context<()>| async move {}),
                Options::new().policy(ServicePolicy::new(
                    ExitAction::Shutdown,
                    RestartPolicy::never(ErrorAction::Ignore),
                )),
            )
            .build()
            .run()
            .await
            .expect("supervisor should run");

        assert_eq!(summary.shutdown_cause(), &ShutdownCause::Requested);
        assert_eq!(
            summary.service("watcher").expect("watcher summary").outcome(),
            &ServiceOutcome::Cancelled
        );
    })
}

#[test]
fn completion_can_restart_the_service() {
    block_on(async {
        let runs = Arc::new(AtomicUsize::new(0));
        let service_runs = Arc::clone(&runs);
        let summary = builder(())
            .add_with_options(
                service_fn("again", move |_ctx: Context<()>| {
                    let runs = Arc::clone(&service_runs);
                    async move {
                        if runs.fetch_add(1, Ordering::SeqCst) < 3 {
                            ServiceOutcome::completed()
                        } else {
                            ServiceOutcome::cancelled()
                        }
                    }
                }),
                Options::new().policy(ServicePolicy::new(
                    ExitAction::Restart,
                    RestartPolicy::never(ErrorAction::Shutdown),
                )),
            )
            .build()
            .run()
            .await
            .expect("supervisor should run");

        assert_eq!(summary.shutdown_cause(), &ShutdownCause::Completed);
        assert_eq!(summary.service("again").expect("summary").restarts(), 3);
        assert_eq!(
            summary.service("again").expect("summary").outcome(),
            &ServiceOutcome::Cancelled
        );
        assert_eq!(runs.load(Ordering::SeqCst), 4);
    })
}

#[test]
fn default_policy_shuts_down_on_errors() {
    block_on(async {
        let summary = builder(())
            .add(service_fn("broken", |_ctx: Context<()>| async move {
                ServiceOutcome::failed("boom")
            }))
            .build()
            .run()
            .await
            .expect("supervisor should run");

        assert_eq!(
            summary.shutdown_cause(),
            &ShutdownCause::FatalService { service: "broken" }
        );
        assert_eq!(
            summary.service("broken").expect("summary").outcome(),
            &ServiceOutcome::Error(ServiceError::new("boom"))
        );
        assert_eq!(summary.service("broken").expect("summary").restarts(), 0);
    })
}

#[test]
fn default_restart_policy_applies_to_later_registrations() {
    block_on(async {
        let runs = Arc::new(AtomicUsize::new(0));
        let service_runs = Arc::clone(&runs);
        let summary = builder(())
            .default_restart_policy(RestartPolicy::attempts(
                2,
                Duration::from_millis(1),
                ErrorAction::Ignore,
            ))
            .add(service_fn("broken", move |_ctx: Context<()>| {
                let runs = Arc::clone(&service_runs);
                async move {
                    runs.fetch_add(1, Ordering::SeqCst);
                    ServiceOutcome::failed("boom")
                }
            }))
            .build()
            .run()
            .await
            .expect("supervisor should run");

        assert_eq!(summary.shutdown_cause(), &ShutdownCause::Completed);
        assert_eq!(summary.service("broken").expect("summary").restarts(), 2);
        assert_eq!(runs.load(Ordering::SeqCst), 3);
    })
}

#[test]
fn panics_are_reported_as_errors() {
    block_on(async {
        let summary = builder(())
            .add(service_fn("panicky", |ctx: Context<()>| async move {
                if !ctx.token().is_cancelled() {
                    panic!("kaboom");
                }
            }))
            .build()
            .run()
            .await
            .expect("supervisor should run");

        assert_eq!(
            summary.shutdown_cause(),
            &ShutdownCause::FatalService { service: "panicky" }
        );
        match summary.service("panicky").expect("summary").outcome() {
            ServiceOutcome::Error(error) => {
                assert!(error.message().contains("panicked"), "{}", error.message());
            },
            other => panic!("unexpected outcome {other:?}"),
        }
    })
}

#[test]
fn cancellation_during_restart_delay_cancels_the_service() {
    block_on(async {
        let runs = Arc::new(AtomicUsize::new(0));
        let service_runs = Arc::clone(&runs);
        let summary = builder(())
            .add_with_options(
                service_fn("delayed", move |_ctx: Context<()>| {
                    let runs = Arc::clone(&service_runs);
                    async move {
                        runs.fetch_add(1, Ordering::SeqCst);
                        ServiceOutcome::failed("boom")
                    }
                }),
                Options::new().policy(ServicePolicy::new(
                    ExitAction::Ignore,
                    RestartPolicy::always(Duration::from_secs(60)),
                )),
            )
            .add(service_fn("shutdown", |_ctx: Context<()>| async move {
                sleep(Duration::from_millis(5)).await;
                ServiceOutcome::requested_shutdown()
            }))
            .build()
            .run()
            .await
            .expect("supervisor should run");

        let delayed = summary.service("delayed").expect("summary");
        assert_eq!(delayed.outcome(), &ServiceOutcome::Cancelled);
        assert_eq!(delayed.restarts(), 1);
        assert_eq!(runs.load(Ordering::SeqCst), 1);
    })
}

#[test]
fn first_shutdown_request_wins() {
    block_on(async {
        let summary = builder(())
            .add(service_fn("first", |_ctx: Context<()>| async move {
                ServiceOutcome::requested_shutdown()
            }))
            .add(service_fn("late", |ctx: Context<()>| async move {
                ctx.token().cancelled().await;
                ServiceOutcome::failed("too late")
            }))
            .build()
            .run()
            .await
            .expect("supervisor should run");

        assert_eq!(
            summary.shutdown_cause(),
            &ShutdownCause::ServiceRequested { service: "first" }
        );
        assert_eq!(
            summary.service("late").expect("summary").outcome(),
            &ServiceOutcome::Error(ServiceError::new("too late"))
        );
        assert_eq!(summary.service("late").expect("summary").restarts(), 0);
    })
}

#[test]
fn completion_during_shutdown_counts_as_ready() {
    block_on(async {
        let summary = builder(())
            .add(service_fn("shutdown", |_ctx: Context<()>| async move {
                ServiceOutcome::requested_shutdown()
            }))
            .add(
                service_fn("gate", |ctx: Context<()>| async move {
                    ctx.token().cancelled().await;
                })
                .when_ready(),
            )
            .build()
            .run()
            .await
            .expect("supervisor should run");

        assert_eq!(
            summary.shutdown_cause(),
            &ShutdownCause::ServiceRequested { service: "shutdown" }
        );
        assert_eq!(
            summary.service("gate").expect("summary").outcome(),
            &ServiceOutcome::Completed
        );
        assert_eq!(summary.readiness(), SupervisorReadiness::Ready);
    })
}

#[test]
fn zero_shutdown_timeout_aborts_at_once() {
    block_on(async {
        let summary = builder(())
            .shutdown_timeout(Duration::ZERO)
            .add(service_fn("shutdown", |_ctx: Context<()>| async move {
                ServiceOutcome::requested_shutdown()
            }))
            .add(service_fn("stubborn", |_ctx: Context<()>| async move {
                std::future::pending::<()>().await;
            }))
            .build()
            .run()
            .await
            .expect("supervisor should run");

        assert_eq!(
            summary.service("stubborn").expect("summary").outcome(),
            &ServiceOutcome::Cancelled
        );
    })
}

#[test]
fn fallible_service_functions_report_their_errors() {
    block_on(async {
        let summary = builder(())
            .default_restart_policy(RestartPolicy::never(ErrorAction::Ignore))
            .add(service_fn("unit", |_ctx: Context<()>| async move {}))
            .add(service_fn("fails", |_ctx: Context<()>| async move {
                "x".parse::<u8>().map(|_| ())
            }))
            .add(service_fn("direct", |_ctx: Context<()>| async move {
                Err::<(), ServiceError>(ServiceError::new("direct failure"))
            }))
            .add(service_fn("kept", |_ctx: Context<()>| async move {
                Ok::<ServiceOutcome, ServiceError>(ServiceOutcome::cancelled())
            }))
            .add(
                service_fn("gated", |_ctx: Context<()>| async move {
                    Ok::<(), ServiceError>(())
                })
                .when_ready(),
            )
            .build()
            .run()
            .await
            .expect("supervisor should run");

        let outcomes: Vec<_> = summary
            .services()
            .iter()
            .map(|service| (service.name(), service.outcome().clone()))
            .collect();
        assert_eq!(
            outcomes,
            vec![
                ("unit", ServiceOutcome::Completed),
                (
                    "fails",
                    ServiceOutcome::failed("invalid digit found in string")
                ),
                ("direct", ServiceOutcome::failed("direct failure")),
                ("kept", ServiceOutcome::Cancelled),
                ("gated", ServiceOutcome::Completed),
            ]
        );
        assert_eq!(summary.readiness(), SupervisorReadiness::Ready);
    })
}

#[test]
fn lookup_finds_the_service_registered_first() {
    block_on(async {
        let summary = builder(())
            .add(service_fn("twin", |_ctx: Context<()>| async move {
                ServiceOutcome::completed()
            }))
            .add(service_fn("twin", |_ctx: Context<()>| async move {
                ServiceOutcome::cancelled()
            }))
            .build()
            .run()
            .await
            .expect("supervisor should run");

        assert_eq!(summary.services().len(), 2);
        assert_eq!(
            summary.service("twin").expect("summary").outcome(),
            &ServiceOutcome::Completed
        );
        assert_eq!(summary.service("other"), None);
        assert_eq!(summary.clone(), summary);
    })
}

#[test]
fn ungated_supervisor_is_ready_from_the_start() {
    let supervisor = builder(())
        .add(service_fn("plain", |_ctx: Context<()>| async move {}))
        .build();
    assert_eq!(*supervisor.readiness().borrow(), SupervisorReadiness::Ready);
}

#[test]
fn external_token_is_bridged_by_a_service() {
    block_on(async {
        let external = CancellationToken::new();
        let bridged = external.clone();
        let supervisor = builder(())
            .add(service_fn("shutdown", move |_ctx: Context<()>| {
                let token = bridged.clone();
                async move {
                    token.cancelled().await;
                    ServiceOutcome::requested_shutdown()
                }
            }))
            .build();
        let handle = tokio::spawn(supervisor.run());
        yield_now().await;
        external.cancel();
        let summary = handle
            .await
            .expect("supervisor task should join")
            .expect("supervisor should run");

        assert_eq!(
            summary.shutdown_cause(),
            &ShutdownCause::ServiceRequested { service: "shutdown" }
        );
    })
}

#[test]
fn other_exits_during_shutdown_leave_readiness_pending() {
    block_on(async {
        let summary = builder(())
            .add(service_fn("shutdown", |_ctx: Context<()>| async move {
                ServiceOutcome::requested_shutdown()
            }))
            .add(
                service_fn("startup", |ctx: Context<()>| async move {
                    ctx.token().cancelled().await;
                    ServiceOutcome::cancelled()
                })
                .when_ready(),
            )
            .build()
            .run()
            .await
            .expect("supervisor should run");

        assert_eq!(summary.readiness(), SupervisorReadiness::Pending);
    })
}

#[test]
fn receiver_hears_of_completion_during_shutdown() {
    block_on(async {
        let supervisor = builder(())
            .add(service_fn("shutdown", |_ctx: Context<()>| async move {
                ServiceOutcome::requested_shutdown()
            }))
            .add(
                service_fn("startup", |ctx: Context<()>| async move {
                    ctx.token().cancelled().await;
                })
                .when_ready(),
            )
            .build();
        let readiness = supervisor.readiness();
        assert_eq!(*readiness.borrow(), SupervisorReadiness::Pending);
        let summary = supervisor.run().await.expect("supervisor should run");
        assert_eq!(summary.readiness(), SupervisorReadiness::Ready);
        assert_eq!(*readiness.borrow(), SupervisorReadiness::Ready);
    })
}
