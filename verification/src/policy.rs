//! Service lifecycle policy.
use std::time::Duration;
use vstd::prelude::*;

verus! {

/// Supervisor reaction to a service exit.
///
/// [`ExitAction`] is policy, not a service self-directive: a service reports a
/// [`ServiceOutcome`](crate::ServiceOutcome), then the supervisor chooses whether
/// to ignore it, restart the task, or begin shutting the system down.
#[derive(Clone, Copy, Debug, PartialEq, Eq, Structural)]
pub enum ExitAction {
    /// Accept the exit and leave the rest of the system running.
    Ignore,
    /// Spawn the same service again.
    Restart,
    /// Cancel the root token and begin coordinated supervisor shutdown.
    Shutdown,
}

/// Supervisor reaction to a service error when a retry path is not taken.
///
/// [`ErrorAction`] omits restart semantics. Restart belongs to
/// [`RestartPolicy`], so a policy such as "never restart, but restart when
/// exhausted" cannot be written down.
#[derive(Clone, Copy, Debug, PartialEq, Eq, Structural)]
pub enum ErrorAction {
    /// Accept the failure and leave the rest of the system running.
    Ignore,
    /// Cancel the root token and begin coordinated supervisor shutdown.
    Shutdown,
}

/// Restart behavior applied when a service exits with
/// [`ServiceOutcome::Error`](crate::ServiceOutcome::Error).
#[derive(Debug, PartialEq, Eq)]
pub enum RestartPolicy {
    /// Do not retry the service after an error.
    Never { on_error: ErrorAction },
    /// Retry indefinitely with a fixed backoff between attempts.
    Always { backoff: Duration },
    /// Retry up to `max_restarts` times, then use `when_exhausted`.
    Attempts { max_restarts: usize, backoff: Duration, when_exhausted: ErrorAction },
}

/// Supervisor decision after a service failure.
#[derive(Clone, Copy, Debug, PartialEq, Eq)]
pub enum FailureAction {
    /// Run the service again after `backoff`.
    Restart { backoff: Duration },
    /// Do not retry; apply the error action.
    Terminal(ErrorAction),
}

impl RestartPolicy {
    /// Whether a service that failed after `restarts` restarts is run again.
    pub open spec fn retries(self, restarts: nat) -> bool {
        match self {
            RestartPolicy::Never { .. } => false,
            RestartPolicy::Always { .. } => true,
            RestartPolicy::Attempts { max_restarts, .. } => restarts < max_restarts,
        }
    }

    /// The delay before a retry, for a policy that can retry.
    pub open spec fn retry_backoff(self) -> Option<Duration> {
        match self {
            RestartPolicy::Never { .. } => None,
            RestartPolicy::Always { backoff } => Some(backoff),
            RestartPolicy::Attempts { backoff, .. } => Some(backoff),
        }
    }

    /// The action taken when no retry is left, for a policy that can run out.
    pub open spec fn fallback(self) -> Option<ErrorAction> {
        match self {
            RestartPolicy::Never { on_error } => Some(on_error),
            RestartPolicy::Always { .. } => None,
            RestartPolicy::Attempts { when_exhausted, .. } => Some(when_exhausted),
        }
    }

    /// The decision for a failure after `restarts` restarts.
    pub open spec fn decision(self, restarts: nat) -> FailureAction {
        if self.retries(restarts) {
            FailureAction::Restart { backoff: self.retry_backoff().unwrap() }
        } else {
            FailureAction::Terminal(self.fallback().unwrap())
        }
    }

    /// Creates a retry policy with a bounded number of retries and a fixed
    /// backoff between attempts, followed by `when_exhausted`.
    pub fn attempts(max_restarts: usize, backoff: Duration, when_exhausted: ErrorAction) -> (policy:
        Self)
        ensures
            policy == (RestartPolicy::Attempts { max_restarts, backoff, when_exhausted }),
    {
        RestartPolicy::Attempts { max_restarts, backoff, when_exhausted }
    }

    /// Disables retries and immediately uses `on_error`.
    pub fn never(on_error: ErrorAction) -> (policy: Self)
        ensures
            policy == (RestartPolicy::Never { on_error }),
    {
        RestartPolicy::Never { on_error }
    }

    /// Retries indefinitely with a fixed backoff between attempts.
    pub fn always(backoff: Duration) -> (policy: Self)
        ensures
            policy == (RestartPolicy::Always { backoff }),
    {
        RestartPolicy::Always { backoff }
    }

    /// Returns the bounded retry count when this policy is
    /// [`RestartPolicy::Attempts`].
    pub fn max_restarts(&self) -> (limit: Option<usize>)
        ensures
            limit == match *self {
                RestartPolicy::Attempts { max_restarts, .. } => Some(max_restarts),
                _ => None,
            },
    {
        match self {
            RestartPolicy::Never { .. } => None,
            RestartPolicy::Always { .. } => None,
            RestartPolicy::Attempts { max_restarts, .. } => Some(*max_restarts),
        }
    }

    /// Returns the retry backoff when this policy can restart.
    pub fn backoff(&self) -> (backoff: Option<Duration>)
        ensures
            backoff == self.retry_backoff(),
    {
        match self {
            RestartPolicy::Never { .. } => None,
            RestartPolicy::Always { backoff } => Some(*backoff),
            RestartPolicy::Attempts { backoff, .. } => Some(*backoff),
        }
    }

    /// Returns the terminal fallback action once retries are unavailable.
    pub fn on_error(&self) -> (action: Option<ErrorAction>)
        ensures
            action == self.fallback(),
    {
        match self {
            RestartPolicy::Never { on_error } => Some(*on_error),
            RestartPolicy::Always { .. } => None,
            RestartPolicy::Attempts { when_exhausted, .. } => Some(*when_exhausted),
        }
    }

    /// Decides how to react to a failure of a service that was restarted
    /// `restarts` times so far.
    pub fn action(&self, restarts: usize) -> (action: FailureAction)
        ensures
            action == self.decision(restarts as nat),
    {
        match self {
            RestartPolicy::Never { on_error } => FailureAction::Terminal(*on_error),
            RestartPolicy::Always { backoff } => FailureAction::Restart { backoff: *backoff },
            RestartPolicy::Attempts { max_restarts, backoff, when_exhausted } => {
                if restarts < *max_restarts {
                    FailureAction::Restart { backoff: *backoff }
                } else {
                    FailureAction::Terminal(*when_exhausted)
                }
            },
        }
    }
}

impl Clone for RestartPolicy {
    fn clone(&self) -> (copy: Self)
        ensures
            copy == *self,
    {
        match self {
            RestartPolicy::Never { on_error } => RestartPolicy::Never { on_error: *on_error },
            RestartPolicy::Always { backoff } => RestartPolicy::Always { backoff: *backoff },
            RestartPolicy::Attempts { max_restarts, backoff, when_exhausted } => {
                RestartPolicy::Attempts {
                    max_restarts: *max_restarts,
                    backoff: *backoff,
                    when_exhausted: *when_exhausted,
                }
            },
        }
    }
}

/// Per-service exit policy owned by the supervisor.
///
/// [`ServicePolicy`] separates two decisions:
/// - how to react when a task returns
///   [`ServiceOutcome::Completed`](crate::ServiceOutcome::Completed)
/// - how to react when a task returns
///   [`ServiceOutcome::Error`](crate::ServiceOutcome::Error)
#[derive(Debug, PartialEq, Eq)]
pub struct ServicePolicy {
    on_completed: ExitAction,
    restart: RestartPolicy,
}

impl ServicePolicy {
    /// The reaction to normal completion.
    pub closed spec fn completion(self) -> ExitAction {
        self.on_completed
    }

    /// The reaction to errors.
    pub closed spec fn failure(self) -> RestartPolicy {
        self.restart
    }

    /// Creates a policy for one registered service.
    pub fn new(on_completed: ExitAction, restart: RestartPolicy) -> (policy: Self)
        ensures
            policy.completion() == on_completed,
            policy.failure() == restart,
    {
        ServicePolicy { on_completed, restart }
    }

    /// Returns the reaction to normal completion.
    pub fn on_completed(&self) -> (action: ExitAction)
        ensures
            action == self.completion(),
    {
        self.on_completed
    }

    /// Returns the reaction to errors.
    pub fn restart(&self) -> (restart: &RestartPolicy)
        ensures
            *restart == self.failure(),
    {
        &self.restart
    }
}

impl Clone for ServicePolicy {
    fn clone(&self) -> (copy: Self)
        ensures
            copy == *self,
    {
        ServicePolicy { on_completed: self.on_completed, restart: self.restart.clone() }
    }
}

impl Default for ServicePolicy {
    fn default() -> (policy: Self)
        ensures
            policy.completion() == ExitAction::Ignore,
            policy.failure() == (RestartPolicy::Never { on_error: ErrorAction::Shutdown }),
    {
        ServicePolicy {
            on_completed: ExitAction::Ignore,
            restart: RestartPolicy::never(ErrorAction::Shutdown),
        }
    }
}

/// Policies with the same halves are the same.
pub proof fn law_policy_is_its_halves(one: ServicePolicy, other: ServicePolicy)
    requires
        one.completion() == other.completion(),
        one.failure() == other.failure(),
    ensures
        one == other,
{
}

/// A policy reports what it was made of: a policy that never restarts has a fallback and
/// no backoff, one that always restarts has a backoff and no fallback, and a bounded one
/// has both.
pub proof fn law_policy_reports_its_parts(policy: RestartPolicy)
    ensures
        match policy {
            RestartPolicy::Never { on_error } => policy.retry_backoff() is None
                && policy.fallback() == Some(on_error),
            RestartPolicy::Always { backoff } => policy.retry_backoff() == Some(backoff)
                && policy.fallback() is None,
            RestartPolicy::Attempts { backoff, when_exhausted, .. } => policy.retry_backoff()
                == Some(backoff) && policy.fallback() == Some(when_exhausted),
        },
{
}

/// A policy that never restarts never retries, however often the service was
/// restarted before, and always falls back to its error action.
pub proof fn law_never_never_retries(on_error: ErrorAction, restarts: nat)
    ensures
        (RestartPolicy::Never { on_error }).decision(restarts) == FailureAction::Terminal(on_error),
{
}

/// A policy that always restarts retries after every failure.
pub proof fn law_always_retries(backoff: Duration, restarts: nat)
    ensures
        (RestartPolicy::Always { backoff }).decision(restarts) == (FailureAction::Restart {
            backoff,
        }),
{
}

/// A bounded policy retries while fewer than `max_restarts` restarts happened,
/// and from then on only falls back.
pub proof fn law_attempts_bounded(
    max_restarts: usize,
    backoff: Duration,
    when_exhausted: ErrorAction,
    restarts: nat,
)
    ensures
        (RestartPolicy::Attempts { max_restarts, backoff, when_exhausted }).decision(restarts)
            == if restarts < max_restarts {
            FailureAction::Restart { backoff }
        } else {
            FailureAction::Terminal(when_exhausted)
        },
{
}

/// Once a policy has stopped retrying it never retries again: more restarts never
/// turn a terminal decision back into a retry.
pub proof fn law_exhaustion_is_final(policy: RestartPolicy, earlier: nat, later: nat)
    requires
        earlier <= later,
        policy.decision(earlier) is Terminal,
    ensures
        policy.decision(later) == policy.decision(earlier),
{
}

/// The accessors agree with the decisions: a retry waits for exactly the backoff
/// that the policy reports, and a terminal decision is exactly the reported
/// fallback.
pub proof fn law_decision_matches_accessors(policy: RestartPolicy, restarts: nat)
    ensures
        policy.decision(restarts) matches FailureAction::Restart { backoff }
            ==> policy.retry_backoff() == Some(backoff),
        policy.decision(restarts) matches FailureAction::Terminal(action)
            ==> policy.fallback() == Some(action),
{
}

} // verus!
