use std::future::{ready, Ready};
use std::time::Duration;

use supervised::readiness::{ReadinessInner, ReadinessTracker};
use supervised::runtime::{after_delay, begin_launch, RunnerAction};
use supervised::service::race_outcome;
use supervised::text::write_decimal;
use supervised::time::remaining;
use supervised::{
    service_fn, until_cancelled, when_ready, Context, FromSupervisorState, IntoServiceError,
    IntoServiceOutcome, Options, ReadinessMode, ServiceError, ServiceExt, ServiceOutcome,
    ServicePolicy, ServiceRunner, SupervisedService,
};
use tokio_util::sync::CancellationToken;

/// A service that runs as the number it was given.
struct Echo;

impl SupervisedService for Echo {
    type Context = u32;
    type Future = Ready<u32>;

    fn name(&self) -> &'static str {
        "echo"
    }

    fn run(&self, ctx: Context<u32>) -> Ready<u32> {
        ctx.readiness().mark_ready();
        ready(ctx.into_inner())
    }
}

#[test]
fn outcomes_are_built_by_name() {
    assert_eq!(ServiceOutcome::completed(), ServiceOutcome::Completed);
    assert_eq!(ServiceOutcome::cancelled(), ServiceOutcome::Cancelled);
    assert_eq!(
        ServiceOutcome::requested_shutdown(),
        ServiceOutcome::RequestedShutdown
    );
    assert_eq!(
        ServiceOutcome::failed(String::from("boom")),
        ServiceOutcome::Error(ServiceError::from("boom"))
    );
    assert!(ServiceOutcome::completed().is_completed());
    assert!(!ServiceOutcome::failed("boom").is_completed());
}

#[test]
fn errors_keep_their_message() {
    assert_eq!(ServiceError::new("boom").message(), "boom");
    assert_eq!(ServiceError::from(String::from("bang")).message(), "bang");
    let parse = "x".parse::<u8>().expect_err("not a number");
    assert_eq!(
        ServiceError::from_error(parse).message(),
        "invalid digit found in string"
    );
    assert_eq!(ServiceError::new("boom").clone(), ServiceError::new("boom"));
}

#[test]
fn return_values_become_outcomes() {
    assert_eq!(().into_service_outcome(), ServiceOutcome::Completed);
    assert_eq!(
        ServiceOutcome::Cancelled.into_service_outcome(),
        ServiceOutcome::Cancelled
    );
    assert_eq!(
        Ok::<(), ServiceError>(()).into_service_outcome(),
        ServiceOutcome::Completed
    );
    assert_eq!(
        Ok::<_, ServiceError>(ServiceOutcome::RequestedShutdown).into_service_outcome(),
        ServiceOutcome::RequestedShutdown
    );
    assert_eq!(
        Err::<(), _>(ServiceError::new("boom")).into_service_outcome(),
        ServiceOutcome::failed("boom")
    );
    let parse = "".parse::<u8>().expect_err("not a number");
    assert_eq!(
        parse.into_service_error().message(),
        "cannot parse integer from empty string"
    );
}

#[test]
fn adapters_keep_name_and_choose_readiness() {
    assert_eq!(Echo.readiness(), ReadinessMode::Immediate);
    assert_eq!(when_ready(Echo).name(), "echo");
    assert_eq!(when_ready(Echo).readiness(), ReadinessMode::Explicit);
    assert_eq!(until_cancelled(Echo).name(), "echo");
    assert_eq!(until_cancelled(Echo).readiness(), ReadinessMode::Immediate);
    assert_eq!(
        Echo.when_ready().until_cancelled().readiness(),
        ReadinessMode::Explicit
    );
}

#[test]
fn until_cancelled_races_against_the_token() {
    let token = CancellationToken::new();
    let future = Echo.until_cancelled().run(Context::new(token.clone(), 7));
    let (contestant, inner) = future.into_parts();
    assert_eq!(inner.into_inner(), 7);
    token.cancel();
    assert!(contestant.is_cancelled());

    assert_eq!(race_outcome(None), ServiceOutcome::Cancelled);
    assert_eq!(
        race_outcome(Some(ServiceOutcome::Completed)),
        ServiceOutcome::Completed
    );
}

#[test]
fn function_services_run_their_function() {
    let service = service_fn("double", |ctx: Context<u32>| {
        let value = *ctx.ctx();
        ready(if value == 8 {
            ServiceOutcome::completed()
        } else {
            ServiceOutcome::failed("unexpected")
        })
    });
    assert_eq!(service.name(), "double");
    let copy = service.clone();
    for service in [service, copy] {
        let future = service.run(Context::new(CancellationToken::new(), 8));
        assert_eq!(future.into_inner().into_inner(), ServiceOutcome::Completed);
    }
}

#[test]
fn context_carries_token_signal_and_payload() {
    let token = CancellationToken::new();
    let context = Context::new(token.clone(), 20u32);
    assert_eq!(context.readiness().describe(), "ReadySignal::Immediate");
    assert_eq!(context.clone().into_inner(), 20);
    let mapped = context.map(|value| value + 1);
    assert_eq!(*mapped.ctx(), 21);
    assert!(!mapped.token().is_cancelled());
    token.cancel();
    assert!(mapped.token().is_cancelled());
}

#[test]
fn runner_hands_token_signal_and_context_to_the_service() {
    let tracker = ReadinessTracker::new(ReadinessInner::new(&vec![ReadinessMode::Explicit]));
    let runner = ServiceRunner::new(Echo, 33);
    let future = runner.start(
        CancellationToken::new(),
        tracker.signal(0, ReadinessMode::Explicit),
    );
    assert_eq!(future.into_inner(), 33);
    assert!(tracker.settle(0, false));
}

#[test]
fn launches_wait_for_their_delay() {
    let delay = Duration::from_millis(3);
    assert_eq!(begin_launch(None), RunnerAction::Start);
    assert_eq!(begin_launch(Some(delay)), RunnerAction::Sleep { delay });
    assert_eq!(after_delay(Some(())), RunnerAction::Start);
    assert_eq!(
        after_delay(None),
        RunnerAction::Report(ServiceOutcome::Cancelled)
    );
}

#[test]
fn root_state_projects_onto_itself() {
    let state = String::from("root");
    assert_eq!(String::from_state(&state), "root");
}

#[test]
fn options_start_empty() {
    assert_eq!(Options::new(), Options::default());
    let options = Options::new()
        .policy(ServicePolicy::default())
        .readiness(ReadinessMode::Explicit);
    assert_eq!(options.clone(), options);
    assert_ne!(options, Options::new());
}

#[test]
fn remaining_time_runs_out() {
    let limit = Duration::from_millis(10);
    assert_eq!(
        remaining(limit, Duration::from_millis(4)),
        Some(Duration::from_millis(6))
    );
    assert_eq!(remaining(limit, limit), None);
    assert_eq!(remaining(limit, Duration::from_secs(1)), None);
    assert_eq!(remaining(Duration::ZERO, Duration::ZERO), None);
}

#[test]
fn numbers_are_written_in_decimal() {
    for value in [0, 9, 10, 4096, usize::MAX] {
        assert_eq!(write_decimal(value), value.to_string());
    }
}
