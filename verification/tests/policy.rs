use std::time::Duration;

use supervised::{ErrorAction, ExitAction, FailureAction, RestartPolicy, ServicePolicy};

const BACKOFF: Duration = Duration::from_millis(250);

#[test]
fn never_falls_back_at_once() {
    for restarts in [0, 1, usize::MAX] {
        assert_eq!(
            RestartPolicy::never(ErrorAction::Ignore).action(restarts),
            FailureAction::Terminal(ErrorAction::Ignore)
        );
    }
}

#[test]
fn always_retries_forever() {
    let policy = RestartPolicy::always(BACKOFF);
    for restarts in [0, 1, usize::MAX] {
        assert_eq!(
            policy.action(restarts),
            FailureAction::Restart { backoff: BACKOFF }
        );
    }
    assert_eq!(policy.backoff(), Some(BACKOFF));
    assert_eq!(policy.max_restarts(), None);
    assert_eq!(policy.on_error(), None);
}

#[test]
fn attempts_retry_until_exhausted() {
    let policy = RestartPolicy::attempts(2, BACKOFF, ErrorAction::Shutdown);
    let retry = FailureAction::Restart { backoff: BACKOFF };
    let terminal = FailureAction::Terminal(ErrorAction::Shutdown);
    assert_eq!(policy.action(0), retry);
    assert_eq!(policy.action(1), retry);
    assert_eq!(policy.action(2), terminal);
    assert_eq!(policy.action(3), terminal);
    assert_eq!(policy.backoff(), Some(BACKOFF));
    assert_eq!(policy.max_restarts(), Some(2));
    assert_eq!(policy.on_error(), Some(ErrorAction::Shutdown));
}

#[test]
fn zero_attempts_never_retry() {
    assert_eq!(
        RestartPolicy::attempts(0, BACKOFF, ErrorAction::Ignore).action(0),
        FailureAction::Terminal(ErrorAction::Ignore)
    );
}

#[test]
fn default_service_policy_ignores_completion_and_shuts_down_on_error() {
    let policy = ServicePolicy::default();
    assert_eq!(policy.on_completed(), ExitAction::Ignore);
    assert_eq!(
        policy.restart(),
        &RestartPolicy::never(ErrorAction::Shutdown)
    );
    assert_eq!(policy.clone(), policy);
}

#[test]
fn service_policy_keeps_both_halves() {
    let policy = ServicePolicy::new(ExitAction::Restart, RestartPolicy::always(BACKOFF));
    assert_eq!(policy.on_completed(), ExitAction::Restart);
    assert_eq!(policy.restart(), &RestartPolicy::always(BACKOFF));
}
